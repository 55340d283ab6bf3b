use parser::driver::{AssemblyDriver, ParsedFile};
use parser::file_library::FileLibrary;
use parser::report::Report;
use parser::version::Version;

/// A tiny in-memory world for one run: each path maps to a parse result
/// (or to a syntax-error message); a path absent from the map is unreadable.
type World = Vec<(String, Result<ParsedFile, String>)>;

fn pf(
    has_main: bool,
    includes: &[&str],
    compiler_version: Option<Version>,
    declares_feature: bool,
    uses_feature: bool,
) -> Result<ParsedFile, String> {
    Ok(ParsedFile {
        has_main,
        includes: includes.iter().map(|s| s.to_string()).collect(),
        compiler_version,
        declares_feature,
        uses_feature,
    })
}

fn run(
    entry: &str,
    version: Version,
    mut world: World,
) -> Result<(FileLibrary, usize, Vec<usize>, Vec<Report>), (FileLibrary, Vec<Report>)> {
    let mut driver = AssemblyDriver::new(entry.to_string(), version);
    loop {
        match driver.next_file() {
            Some(path) => {
                let pos = world.iter().position(|(p, _)| *p == path);
                match pos {
                    None => return Err(driver.read_failed(path)),
                    Some(ix) => {
                        let (_, outcome) = world.remove(ix);
                        driver.register_file(path.clone(), String::new());
                        match outcome {
                            Err(message) => return Err(driver.syntax_error(message)),
                            Ok(parsed) => {
                                if let Err(e) = driver.apply_parsed(parsed) {
                                    return Err(driver.failure(e));
                                }
                            }
                        }
                    }
                }
            }
            None => break,
        }
    }
    driver.finish()
}

fn registered_paths(lib: &FileLibrary) -> Vec<String> {
    lib.files.iter().map(|e| e.path.clone()).collect()
}

const V: Version = (2, 0, 0);

#[test]
fn diamond_includes_parse_shared_file_once() {
    // A includes B and C; both include D: D is parsed exactly once,
    // in discovery order after C.
    let world = vec![
        ("A".to_string(), pf(true, &["B", "C"], Some(V), false, false)),
        ("B".to_string(), pf(false, &["D"], Some(V), false, false)),
        ("C".to_string(), pf(false, &["D"], Some(V), false, false)),
        ("D".to_string(), pf(false, &[], Some(V), false, false)),
    ];
    let (lib, main_id, defs, warnings) = run("A", V, world).unwrap();
    assert_eq!(registered_paths(&lib), vec!["A", "B", "C", "D"]);
    assert_eq!(main_id, 0);
    assert_eq!(defs, vec![0, 1, 2, 3]);
    assert!(warnings.is_empty());
}

#[test]
fn repeated_include_of_same_path_parses_once() {
    let world = vec![
        ("A".to_string(), pf(true, &["B", "B"], Some(V), false, false)),
        ("B".to_string(), pf(false, &[], Some(V), false, false)),
    ];
    let (lib, _, defs, _) = run("A", V, world).unwrap();
    assert_eq!(registered_paths(&lib), vec!["A", "B"]);
    assert_eq!(defs, vec![0, 1]);
}

#[test]
fn missing_pragma_in_chain_is_reported_once() {
    // H includes G includes F; F declares the feature and uses it; G omits
    // the declaration: exactly one diagnostic, naming the chain F -> G -> H.
    let world = vec![
        ("H".to_string(), pf(true, &["G"], Some(V), true, false)),
        ("G".to_string(), pf(false, &["F"], Some(V), false, false)),
        ("F".to_string(), pf(false, &[], Some(V), true, true)),
    ];
    let (_, reports) = run("H", V, world).unwrap_err();
    assert_eq!(
        reports,
        vec![Report::CustomGatesPragmaError {
            chain: vec!["F".to_string(), "G".to_string(), "H".to_string()],
        }]
    );
}

#[test]
fn declared_pragma_throughout_chain_passes() {
    let world = vec![
        ("H".to_string(), pf(true, &["G"], Some(V), true, false)),
        ("G".to_string(), pf(false, &["F"], Some(V), true, false)),
        ("F".to_string(), pf(false, &[], Some(V), true, true)),
    ];
    assert!(run("H", V, world).is_ok());
}

#[test]
fn no_entry_point_is_an_error() {
    let world = vec![("A".to_string(), pf(false, &[], Some(V), false, false))];
    let (_, reports) = run("A", V, world).unwrap_err();
    assert_eq!(reports, vec![Report::NoMainError]);
}

#[test]
fn two_entry_points_are_an_error() {
    let world = vec![
        ("A".to_string(), pf(true, &["B"], Some(V), false, false)),
        ("B".to_string(), pf(true, &[], Some(V), false, false)),
    ];
    let (_, reports) = run("A", V, world).unwrap_err();
    assert_eq!(reports, vec![Report::MultipleMainError]);
}

#[test]
fn one_entry_point_succeeds() {
    let world = vec![
        ("A".to_string(), pf(true, &["B"], Some(V), false, false)),
        ("B".to_string(), pf(false, &[], Some(V), false, false)),
    ];
    let (_, main_id, _, _) = run("A", V, world).unwrap();
    assert_eq!(main_id, 0);
}

#[test]
fn syntax_error_stops_before_reachable_files() {
    // A includes B; B has a syntax error; C would be reachable only through
    // B and must never be registered.
    let world = vec![
        ("A".to_string(), pf(true, &["B"], Some(V), false, false)),
        ("B".to_string(), Err("unexpected token".to_string())),
        ("C".to_string(), pf(false, &[], Some(V), false, false)),
    ];
    let (lib, reports) = run("A", V, world).unwrap_err();
    assert_eq!(registered_paths(&lib), vec!["A", "B"]);
    assert_eq!(
        reports,
        vec![Report::SyntaxError { file_id: 1, message: "unexpected token".to_string() }]
    );
}

#[test]
fn unreadable_file_is_a_file_access_error() {
    let world = vec![("A".to_string(), pf(true, &["B"], Some(V), false, false))];
    let (lib, reports) = run("A", V, world).unwrap_err();
    assert_eq!(registered_paths(&lib), vec!["A"]);
    assert_eq!(reports, vec![Report::FileOsError { path: "B".to_string() }]);
}

#[test]
fn empty_include_reference_is_an_include_error() {
    let world = vec![("A".to_string(), pf(true, &[""], Some(V), false, false))];
    let (_, reports) = run("A", V, world).unwrap_err();
    assert_eq!(reports, vec![Report::IncludeError { path: "".to_string() }]);
}

#[test]
fn incompatible_version_requirement_fails_the_run() {
    let world = vec![("A".to_string(), pf(true, &[], Some((9, 9, 9)), false, false))];
    let (_, reports) = run("A", V, world).unwrap_err();
    assert_eq!(
        reports,
        vec![Report::CompilerVersionError {
            path: "A".to_string(),
            required_version: (9, 9, 9),
            version: V,
        }]
    );
}

#[test]
fn missing_version_requirements_warn_in_processing_order() {
    let world = vec![
        ("A".to_string(), pf(true, &["B"], None, false, false)),
        ("B".to_string(), pf(false, &[], None, false, false)),
    ];
    let (_, _, _, warnings) = run("A", V, world).unwrap();
    assert_eq!(
        warnings,
        vec![
            Report::NoCompilerVersionWarning { path: "A".to_string(), version: V },
            Report::NoCompilerVersionWarning { path: "B".to_string(), version: V },
        ]
    );
}

#[test]
fn identical_runs_produce_identical_results() {
    let world = || {
        vec![
            ("A".to_string(), pf(true, &["B", "C"], None, false, false)),
            ("B".to_string(), pf(false, &["C"], Some(V), false, false)),
            ("C".to_string(), pf(false, &[], None, false, false)),
        ]
    };
    let (lib1, main1, defs1, warn1) = run("A", V, world()).unwrap();
    let (lib2, main2, defs2, warn2) = run("A", V, world()).unwrap();
    assert_eq!(registered_paths(&lib1), registered_paths(&lib2));
    assert_eq!(main1, main2);
    assert_eq!(defs1, defs2);
    assert_eq!(warn1, warn2);
}

#[test]
fn identical_failing_runs_produce_identical_diagnostics() {
    let world = || {
        vec![
            ("H".to_string(), pf(true, &["G"], Some(V), true, false)),
            ("G".to_string(), pf(false, &["F"], Some(V), false, false)),
            ("F".to_string(), pf(false, &[], Some(V), true, true)),
        ]
    };
    let (_, reports1) = run("H", V, world()).unwrap_err();
    let (_, reports2) = run("H", V, world()).unwrap_err();
    assert_eq!(reports1, reports2);
}

#[test]
fn using_feature_without_declaring_it_fails() {
    let world = vec![("A".to_string(), pf(true, &[], Some(V), false, true))];
    let (_, reports) = run("A", V, world).unwrap_err();
    assert_eq!(
        reports,
        vec![Report::CustomGatesPragmaError { chain: vec!["A".to_string()] }]
    );
}
