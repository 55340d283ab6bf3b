use parser::report::Report;
use parser::version::{check_number_version, parse_number_version};

#[test]
fn parse_simple_version() {
    assert_eq!(parse_number_version("2.0.3"), (2, 0, 3));
}

#[test]
fn parse_zero_version() {
    assert_eq!(parse_number_version("0.0.0"), (0, 0, 0));
}

#[test]
fn parse_multi_digit_version() {
    assert_eq!(parse_number_version("10.20.300"), (10, 20, 300));
}

#[test]
fn required_patch_below_running_succeeds_silently() {
    let r = check_number_version("a".to_string(), Some((1, 2, 3)), (1, 2, 5));
    assert_eq!(r, Ok(vec![]));
}

#[test]
fn equal_versions_succeed_silently() {
    let r = check_number_version("a".to_string(), Some((1, 2, 3)), (1, 2, 3));
    assert_eq!(r, Ok(vec![]));
}

#[test]
fn minor_mismatch_is_version_error() {
    let r = check_number_version("a".to_string(), Some((1, 2, 3)), (1, 3, 0));
    assert_eq!(
        r,
        Err(Report::CompilerVersionError {
            path: "a".to_string(),
            required_version: (1, 2, 3),
            version: (1, 3, 0),
        })
    );
}

#[test]
fn major_mismatch_is_version_error() {
    let r = check_number_version("a".to_string(), Some((1, 2, 3)), (2, 2, 3));
    assert_eq!(
        r,
        Err(Report::CompilerVersionError {
            path: "a".to_string(),
            required_version: (1, 2, 3),
            version: (2, 2, 3),
        })
    );
}

#[test]
fn required_patch_above_running_is_version_error() {
    let r = check_number_version("a".to_string(), Some((1, 2, 5)), (1, 2, 3));
    assert_eq!(
        r,
        Err(Report::CompilerVersionError {
            path: "a".to_string(),
            required_version: (1, 2, 5),
            version: (1, 2, 3),
        })
    );
}

#[test]
fn missing_requirement_warns_once() {
    let r = check_number_version("a".to_string(), None, (4, 5, 6));
    assert_eq!(
        r,
        Ok(vec![Report::NoCompilerVersionWarning { path: "a".to_string(), version: (4, 5, 6) }])
    );
}
