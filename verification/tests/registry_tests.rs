use ruc::codes::Codes;
use ruc::registry::{join_or, DetermineError, Runners};
use ruc::runner::{Exe, ExeChoice, Runner};

fn strings(v: &[&str]) -> Vec<String> {
    v.iter().map(|s| s.to_string()).collect()
}

fn plain_runner(name: &str, exe_deps: &[&str], supported: &[&str], default_for: &[&str]) -> Runner {
    Runner {
        name: name.to_string(),
        extension: String::new(),
        exe: ExeChoice::Unresolved,
        exe_deps: strings(exe_deps),
        other_deps: Vec::new(),
        supported_langs: strings(supported),
        default_for: strings(default_for),
        setup: Vec::new(),
        exe_args_pre: Vec::new(),
        exe_args_post: Vec::new(),
        teardown: Vec::new(),
    }
}

#[test]
fn fallback_picks_first_available_candidate() {
    let list = strings(&["gcc", "clang"]);
    let avail = strings(&["clang", "python3"]);
    assert_eq!(Runner::check_dep_list(&list, &avail), Some(1));
}

#[test]
fn fallback_prefers_earlier_candidate() {
    let list = strings(&["gcc", "clang"]);
    let avail = strings(&["clang", "gcc"]);
    assert_eq!(Runner::check_dep_list(&list, &avail), Some(0));
}

#[test]
fn no_candidate_available_fails_with_dependency_error() {
    let runners = Runners::new(vec![plain_runner("cc", &["gcc", "clang"], &["c"], &["c"])]).unwrap();
    let avail: Vec<String> = Vec::new();
    match runners.determine(None, "c", &avail) {
        Err(DetermineError::MissingDeps(deps)) => {
            assert_eq!(deps, strings(&["gcc", "clang"]));
            assert_eq!(join_or(&deps), "gcc or clang");
            assert_eq!(DetermineError::MissingDeps(deps).code(), Codes::DependencyError);
        }
        _ => panic!("expected missing dependencies"),
    }
}

#[test]
fn default_runner_lookup_picks_the_declaring_runner() {
    let runners = Runners::new(vec![
        plain_runner("A", &["python3"], &["python"], &["python"]),
        plain_runner("B", &["go"], &["go"], &["go"]),
    ])
    .unwrap();
    let avail = strings(&["python3", "go"]);
    let r = runners.determine(None, "python", &avail).unwrap();
    assert_eq!(r.name, "A");
    assert_eq!(r.exe, ExeChoice::Chosen(0));
}

#[test]
fn no_default_runner_is_an_internal_error() {
    let runners = Runners::new(vec![
        plain_runner("A", &["python3"], &["python"], &["python"]),
        plain_runner("B", &["go"], &["go"], &["go"]),
    ])
    .unwrap();
    let avail = strings(&["python3", "go"]);
    match runners.determine(None, "rust", &avail) {
        Err(e) => {
            assert!(matches!(e, DetermineError::NoDefault));
            assert_eq!(e.code(), Codes::InternalError);
        }
        Ok(_) => panic!("expected no default runner"),
    }
}

#[test]
fn explicit_runner_not_supporting_language_is_a_runner_error() {
    let runners = Runners::new(vec![
        plain_runner("A", &["python3"], &["python"], &["python"]),
        plain_runner("B", &["go"], &["go"], &["go"]),
    ])
    .unwrap();
    // Every executable is available, so the failure cannot come from
    // dependency resolution.
    let avail = strings(&["python3", "go"]);
    let name = "B".to_string();
    match runners.determine(Some(&name), "python", &avail) {
        Err(e) => {
            assert!(matches!(e, DetermineError::NotForLanguage));
            assert_eq!(e.code(), Codes::RunnerError);
            assert_ne!(e.code(), Codes::DependencyError);
        }
        Ok(_) => panic!("expected a runner error"),
    }
}

#[test]
fn unknown_explicit_runner_is_a_runner_error() {
    let runners = Runners::new(vec![plain_runner("A", &["python3"], &["python"], &["python"])])
        .unwrap();
    let avail = strings(&["python3"]);
    let name = "Z".to_string();
    match runners.determine(Some(&name), "python", &avail) {
        Err(e) => {
            assert!(matches!(e, DetermineError::UnknownRunner));
            assert_eq!(e.code(), Codes::RunnerError);
        }
        Ok(_) => panic!("expected a runner error"),
    }
}

#[test]
fn empty_candidate_list_resolves_to_native() {
    let mut r = plain_runner("zig", &[], &["zig"], &["zig"]);
    let avail: Vec<String> = Vec::new();
    assert!(r.check_deps(&avail).is_ok());
    assert_eq!(r.exe, ExeChoice::Native);
    match r.get_exe() {
        Ok(Exe::Native) => {}
        _ => panic!("expected a native executable"),
    }
    assert_eq!(Exe::Native.as_str(), "");
}

#[test]
fn native_runner_with_leading_args_is_an_internal_error() {
    let mut r = plain_runner("zig", &[], &["zig"], &["zig"]);
    r.exe_args_pre = strings(&["--lead"]);
    let avail: Vec<String> = Vec::new();
    assert!(r.check_deps(&avail).is_ok());
    assert_eq!(r.get_exe().unwrap_err(), Codes::InternalError);
}

#[test]
fn chosen_executable_out_of_range_is_an_internal_error() {
    let mut r = plain_runner("cc", &["gcc"], &["c"], &["c"]);
    r.exe = ExeChoice::Chosen(5);
    assert_eq!(r.get_exe().unwrap_err(), Codes::InternalError);
}

#[test]
fn unresolved_runner_has_no_executable() {
    let r = plain_runner("cc", &["gcc"], &["c"], &["c"]);
    assert_eq!(r.exe, ExeChoice::Unresolved);
    assert_eq!(r.get_exe().unwrap_err(), Codes::InternalError);
}

#[test]
fn chosen_executable_name_comes_back() {
    let mut r = plain_runner("cc", &["gcc", "clang"], &["c"], &["c"]);
    let avail = strings(&["clang"]);
    assert!(r.check_deps(&avail).is_ok());
    match r.get_exe() {
        Ok(Exe::Str(s)) => assert_eq!(s, "clang"),
        _ => panic!("expected a concrete executable"),
    }
}

#[test]
fn auxiliary_group_failure_reports_that_group() {
    let mut r = plain_runner("cc", &["gcc"], &["c"], &["c"]);
    r.other_deps = vec![strings(&["ld", "lld"]), strings(&["as"])];
    let avail = strings(&["gcc", "ld"]);
    assert_eq!(r.check_deps(&avail), Err(strings(&["as"])));
    assert_eq!(r.exe, ExeChoice::Chosen(0));
}

#[test]
fn duplicate_default_language_is_rejected_at_construction() {
    let r = Runners::new(vec![
        plain_runner("A", &["python3"], &["python"], &["python"]),
        plain_runner("B", &["pypy"], &["python"], &["python"]),
    ]);
    assert_eq!(r.err(), Some(Codes::InternalError));
}

#[test]
fn empty_dependency_list_failure_is_internal() {
    let deps: Vec<String> = Vec::new();
    assert_eq!(DetermineError::MissingDeps(deps).code(), Codes::InternalError);
}

#[test]
fn join_or_single_name_stands_alone() {
    assert_eq!(join_or(&strings(&["gcc"])), "gcc");
    assert_eq!(join_or(&strings(&[])), "");
    assert_eq!(join_or(&strings(&["a", "b", "c"])), "a or b or c");
}

#[test]
fn exit_codes_match_the_contract() {
    assert_eq!(Codes::InternalError.to_exit(), -1);
    assert_eq!(Codes::Success.to_exit(), 0);
    assert_eq!(Codes::ArgumentError.to_exit(), 1);
    assert_eq!(Codes::LanguageError.to_exit(), 2);
    assert_eq!(Codes::RunnerError.to_exit(), 3);
    assert_eq!(Codes::DependencyError.to_exit(), 4);
    assert_eq!(Codes::EditorError.to_exit(), 5);
    assert_eq!(Codes::FileError.to_exit(), 6);
    assert_eq!(Codes::CodeError.to_exit(), 7);
}
