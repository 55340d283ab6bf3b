//! The version gate: parsing a `"major.minor.patch"` string into a version
//! tuple, and the compatibility policy between a file's declared requirement
//! and the running compiler version.

use vstd::prelude::*;

use crate::report::{Report, ReportCollection};

verus! {

/// A compiler version as (major, minor, patch).
pub type Version = (usize, usize, usize);

/// The compatibility rule: major and minor must match exactly, and the
/// required patch must not exceed the running patch. A patch release may
/// run older sources; a major or minor mismatch is a breaking-change
/// boundary and is rejected.
pub open spec fn version_compatible(required: Version, running: Version) -> bool {
    &&& required.0 == running.0
    &&& required.1 == running.1
    &&& required.2 <= running.2
}

/// Checks a file's optional minimum-version requirement against the running
/// compiler version. A declared incompatible requirement is a fatal version
/// error; a missing requirement is a single informational warning; a declared
/// compatible requirement passes silently.
pub fn check_number_version(
    file_path: String,
    version_file: Option<Version>,
    version_compiler: Version,
) -> (r: Result<ReportCollection, Report>)
    ensures
        (match version_file {
            Some(required) => {
                if version_compatible(required, version_compiler) {
                    r matches Ok(w) && w@.len() == 0
                } else {
                    r matches Err(e) && e == (Report::CompilerVersionError {
                        path: file_path,
                        required_version: required,
                        version: version_compiler,
                    })
                }
            },
            None => r matches Ok(w) && w@ =~= seq![
                Report::NoCompilerVersionWarning { path: file_path, version: version_compiler },
            ],
        }),
        r matches Ok(w) ==> forall|i: int| 0 <= i < w@.len() ==> !(#[trigger] w@[i]).is_fatal(),
        r matches Err(e) ==> e.is_fatal(),
{
    match version_file {
        Some(required_version) => {
            if required_version.0 == version_compiler.0 && required_version.1
                == version_compiler.1 && required_version.2 <= version_compiler.2 {
                Ok(Vec::new())
            } else {
                Err(
                    Report::CompilerVersionError {
                        path: file_path,
                        required_version,
                        version: version_compiler,
                    },
                )
            }
        },
        None => {
            let mut warnings: Vec<Report> = Vec::new();
            warnings.push(
                Report::NoCompilerVersionWarning { path: file_path, version: version_compiler },
            );
            Ok(warnings)
        },
    }
}

/// A decimal digit.
pub open spec fn is_version_digit(c: char) -> bool {
    '0' <= c && c <= '9'
}

/// The numeric value of a decimal digit.
pub open spec fn digit_value(c: char) -> nat {
    (c as int - '0' as int) as nat
}

/// Every character of the sequence is a decimal digit.
pub open spec fn all_digits(s: Seq<char>) -> bool {
    forall|k: int| 0 <= k < s.len() ==> is_version_digit(#[trigger] s[k])
}

/// The number denoted by a sequence of decimal digits (most significant
/// first); the empty sequence denotes zero.
pub open spec fn digits_value(s: Seq<char>) -> nat
    decreases s.len(),
{
    if s.len() == 0 {
        0
    } else {
        digits_value(s.drop_last()) * 10 + digit_value(s.last())
    }
}

/// The string has the shape `digits '.' digits '.' digits` with the dots at
/// positions `i` and `j` and every component non-empty.
pub open spec fn version_shape(s: Seq<char>, i: int, j: int) -> bool {
    &&& 1 <= i
    &&& i + 1 < j
    &&& j + 1 < s.len()
    &&& s[i] == '.'
    &&& s[j] == '.'
    &&& forall|k: int| 0 <= k < s.len() && k != i && k != j ==> is_version_digit(#[trigger] s[k])
}

/// The three components of a well-shaped version string.
pub open spec fn spec_version_parts(s: Seq<char>) -> (Seq<char>, Seq<char>, Seq<char>) {
    let (i, j) = choose|i: int, j: int| version_shape(s, i, j);
    (s.subrange(0, i), s.subrange(i + 1, j), s.subrange(j + 1, s.len() as int))
}

/// The version denoted by a well-shaped version string.
pub open spec fn spec_parse_version(s: Seq<char>) -> (nat, nat, nat) {
    let parts = spec_version_parts(s);
    (digits_value(parts.0), digits_value(parts.1), digits_value(parts.2))
}

/// A well-formed version string: three non-empty runs of decimal digits
/// separated by two dots, each component small enough for the machine.
pub open spec fn is_version_string(s: Seq<char>) -> bool {
    &&& exists|i: int, j: int| version_shape(s, i, j)
    &&& spec_parse_version(s).0 <= usize::MAX
    &&& spec_parse_version(s).1 <= usize::MAX
    &&& spec_parse_version(s).2 <= usize::MAX
}

/// The dot positions of a well-shaped version string are unique.
proof fn lemma_version_shape_unique(s: Seq<char>, i1: int, j1: int, i2: int, j2: int)
    requires
        version_shape(s, i1, j1),
        version_shape(s, i2, j2),
    ensures
        i1 == i2,
        j1 == j2,
{
    assert(!is_version_digit('.'));
    if i1 != i2 && i1 != j2 {
        assert(is_version_digit(s[i1]));
    }
    if j1 != i2 && j1 != j2 {
        assert(is_version_digit(s[j1]));
    }
    if i2 != i1 && i2 != j1 {
        assert(is_version_digit(s[i2]));
    }
}

/// Reading one more digit multiplies the value by ten and adds the digit.
proof fn lemma_digits_value_snoc(s: Seq<char>, c: char)
    ensures
        digits_value(s.push(c)) == digits_value(s) * 10 + digit_value(c),
{
    assert(s.push(c).drop_last() =~= s);
    assert(s.push(c).last() == c);
}

/// The value of a prefix never exceeds the value of the whole digit run.
proof fn lemma_digits_value_prefix_le(s: Seq<char>, m: int)
    requires
        0 <= m <= s.len(),
    ensures
        digits_value(s.subrange(0, m)) <= digits_value(s),
    decreases s.len() - m,
{
    if m < s.len() {
        let t = s.subrange(0, m);
        let t1 = s.subrange(0, m + 1);
        assert(t1 =~= t.push(s[m]));
        lemma_digits_value_snoc(t, s[m]);
        lemma_digits_value_prefix_le(s, m + 1);
    } else {
        assert(s.subrange(0, m) =~= s);
    }
}

/// Reads the decimal number written in `s` between positions `from` and `to`.
fn parse_digits(s: &str, from: usize, to: usize) -> (val: usize)
    requires
        from <= to <= s@.len(),
        all_digits(s@.subrange(from as int, to as int)),
        digits_value(s@.subrange(from as int, to as int)) <= usize::MAX,
    ensures
        val == digits_value(s@.subrange(from as int, to as int)),
{
    let ghost whole = s@.subrange(from as int, to as int);
    let mut val: usize = 0;
    let mut k: usize = from;
    while k < to
        invariant
            from <= k <= to <= s@.len(),
            all_digits(whole),
            digits_value(whole) <= usize::MAX,
            whole == s@.subrange(from as int, to as int),
            val == digits_value(s@.subrange(from as int, k as int)),
        decreases to - k,
    {
        let c = s.get_char(k);
        proof {
            let done = s@.subrange(from as int, k as int);
            assert(whole[k - from] == s@[k as int]);
            assert(is_version_digit(c));
            assert(s@.subrange(from as int, k as int + 1) =~= done.push(c));
            lemma_digits_value_snoc(done, c);
            assert(done =~= whole.subrange(0, k - from));
            lemma_digits_value_prefix_le(whole, k + 1 - from);
            assert(whole.subrange(0, k + 1 - from) =~= s@.subrange(from as int, k as int + 1));
        }
        let d = (c as u32) - ('0' as u32);
        val = val * 10 + (d as usize);
        k += 1;
    }
    assert(s@.subrange(from as int, k as int) == whole);
    val
}

/// Splits a `"major.minor.patch"` string on its dots and reads the three
/// components. A string that is not of that shape, or whose components do
/// not fit the machine's word size, is a precondition violation, not a
/// recoverable diagnostic.
pub fn parse_number_version(version: &str) -> (v: Version)
    requires
        is_version_string(version@),
    ensures
        (v.0 as nat, v.1 as nat, v.2 as nat) == spec_parse_version(version@),
{
    let ghost (gi, gj) = choose|i: int, j: int| version_shape(version@, i, j);
    proof {
        let (ci, cj) = choose|i: int, j: int| version_shape(version@, i, j);
        lemma_version_shape_unique(version@, gi, gj, ci, cj);
    }
    let n = version.unicode_len();
    let mut dot1: usize = 0;
    while version.get_char(dot1) != '.'
        invariant
            version_shape(version@, gi, gj),
            n == version@.len(),
            0 <= dot1 <= gi,
            forall|m: int| 0 <= m < dot1 ==> version@[m] != '.',
        decreases gi - dot1,
    {
        dot1 += 1;
    }
    proof {
        assert(!is_version_digit('.'));
        assert(dot1 == gi);
    }
    let mut dot2: usize = dot1 + 1;
    while version.get_char(dot2) != '.'
        invariant
            version_shape(version@, gi, gj),
            n == version@.len(),
            gi < dot2 <= gj,
            forall|m: int| gi < m < dot2 ==> version@[m] != '.',
        decreases gj - dot2,
    {
        dot2 += 1;
    }
    proof {
        assert(!is_version_digit('.'));
        assert(dot2 == gj);
        assert forall|k: int| 0 <= k < gi implies is_version_digit(
            #[trigger] version@.subrange(0, gi)[k],
        ) by {
            assert(version@.subrange(0, gi)[k] == version@[k]);
        }
        assert forall|k: int| 0 <= k < gj - gi - 1 implies is_version_digit(
            #[trigger] version@.subrange(gi + 1, gj)[k],
        ) by {
            assert(version@.subrange(gi + 1, gj)[k] == version@[gi + 1 + k]);
        }
        assert forall|k: int| 0 <= k < version@.len() - gj - 1 implies is_version_digit(
            #[trigger] version@.subrange(gj + 1, version@.len() as int)[k],
        ) by {
            assert(version@.subrange(gj + 1, version@.len() as int)[k] == version@[gj + 1 + k]);
        }
    }
    let major = parse_digits(version, 0, dot1);
    let minor = parse_digits(version, dot1 + 1, dot2);
    let patch = parse_digits(version, dot2 + 1, n);
    (major, minor, patch)
}

} // verus!
