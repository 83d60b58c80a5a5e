use ruc::codes::Codes;
use ruc::pipeline::{command_line, Phase, Pipeline, Step};
use ruc::runner::{ExeChoice, Runner};

fn strings(v: &[&str]) -> Vec<String> {
    v.iter().map(|s| s.to_string()).collect()
}

fn lists(v: &[&[&str]]) -> Vec<Vec<String>> {
    v.iter().map(|l| strings(l)).collect()
}

fn runner_with(exe: ExeChoice, exe_deps: &[&str], setup: &[&[&str]], teardown: &[&[&str]]) -> Runner {
    Runner {
        name: "test".to_string(),
        extension: String::new(),
        exe,
        exe_deps: strings(exe_deps),
        other_deps: Vec::new(),
        supported_langs: strings(&["lang"]),
        default_for: strings(&["lang"]),
        setup: lists(setup),
        exe_args_pre: Vec::new(),
        exe_args_post: Vec::new(),
        teardown: lists(teardown),
    }
}

fn expect_run(p: &mut Pipeline) -> (Vec<String>, usize) {
    match p.next_command() {
        Ok(Step::Run(argv, dl)) => (argv, dl),
        _ => panic!("expected a command to run"),
    }
}

fn expect_finished(p: &mut Pipeline) {
    match p.next_command() {
        Ok(Step::Finished) => {}
        _ => panic!("expected the pipeline to be finished"),
    }
}

#[test]
fn failing_setup_short_circuits_everything() {
    let runner = runner_with(
        ExeChoice::Chosen(0),
        &["python3"],
        &[&["first", "%INPUT_FILE%"], &["second"]],
        &[&["cleanup"]],
    );
    let mut p = Pipeline::new(
        runner,
        "src.py".to_string(),
        "/tmp/out".to_string(),
        Vec::new(),
        Vec::new(),
    );
    let (argv, _) = expect_run(&mut p);
    assert_eq!(argv, strings(&["first", "src.py"]));
    // The first setup command exits non-zero: the run aborts at once.
    assert_eq!(p.report(false), Err(Codes::CodeError));
    assert_eq!(p.phase, Phase::Done);
    // Neither the second setup command, nor the main execution, nor
    // teardown is ever issued.
    expect_finished(&mut p);
}

#[test]
fn main_failure_still_runs_teardown() {
    let runner = runner_with(
        ExeChoice::Chosen(0),
        &["python3"],
        &[],
        &[&["rm", "%INPUT_FILE%"]],
    );
    let mut p = Pipeline::new(
        runner,
        "src.py".to_string(),
        "/tmp/out".to_string(),
        Vec::new(),
        Vec::new(),
    );
    // No setup: the first command is the main execution.
    let (argv, dl) = expect_run(&mut p);
    assert_eq!(argv, strings(&["python3", "src.py"]));
    assert_eq!(dl, 2);
    // The main execution fails; the failure is swallowed.
    assert_eq!(p.report(false), Ok(()));
    // Teardown still runs, with its template substituted.
    let (argv, _) = expect_run(&mut p);
    assert_eq!(argv, strings(&["rm", "src.py"]));
    // Teardown succeeds: the run as a whole succeeds.
    assert_eq!(p.report(true), Ok(()));
    expect_finished(&mut p);
}

#[test]
fn failing_teardown_surfaces_as_code_error() {
    let runner = runner_with(ExeChoice::Chosen(0), &["python3"], &[], &[&["rm", "x"]]);
    let mut p = Pipeline::new(
        runner,
        "src.py".to_string(),
        "/tmp/out".to_string(),
        Vec::new(),
        Vec::new(),
    );
    let _ = expect_run(&mut p);
    assert_eq!(p.report(true), Ok(()));
    let _ = expect_run(&mut p);
    assert_eq!(p.report(false), Err(Codes::CodeError));
    expect_finished(&mut p);
}

#[test]
fn captured_artifact_becomes_the_main_target() {
    let runner = runner_with(
        ExeChoice::Native,
        &[],
        &[&["gcc", "%INPUT_FILE%", "-o", "%OUTPUT_FILE%.exe"]],
        &[],
    );
    let mut p = Pipeline::new(
        runner,
        "main.c".to_string(),
        "/tmp/out".to_string(),
        Vec::new(),
        Vec::new(),
    );
    let (argv, _) = expect_run(&mut p);
    assert_eq!(argv, strings(&["gcc", "main.c", "-o", "/tmp/out.exe"]));
    assert_eq!(p.report(true), Ok(()));
    // Native runner: the captured artifact itself is executed.
    let (argv, dl) = expect_run(&mut p);
    assert_eq!(argv, strings(&["/tmp/out.exe"]));
    assert_eq!(dl, 1);
    assert_eq!(p.report(true), Ok(()));
    expect_finished(&mut p);
}

#[test]
fn interpreter_without_setup_runs_the_source() {
    let runner = runner_with(ExeChoice::Chosen(0), &["python3"], &[], &[]);
    let mut p = Pipeline::new(
        runner,
        "src.py".to_string(),
        "/tmp/out".to_string(),
        strings(&["-O"]),
        strings(&["arg1", "arg2"]),
    );
    let (argv, dl) = expect_run(&mut p);
    assert_eq!(argv, strings(&["python3", "src.py", "arg1", "arg2"]));
    // The failure report leaves the program's own arguments out.
    assert_eq!(dl, 2);
    assert_eq!(command_line(&argv, dl), "python3 src.py ");
    assert_eq!(p.report(true), Ok(()));
    expect_finished(&mut p);
}

#[test]
fn compiler_args_are_appended_to_the_last_setup_command() {
    let runner = runner_with(
        ExeChoice::Native,
        &[],
        &[&["prepare"], &["gcc", "%INPUT_FILE%", "-o", "%OUTPUT_FILE%"]],
        &[],
    );
    let mut p = Pipeline::new(
        runner,
        "main.c".to_string(),
        "/tmp/out".to_string(),
        strings(&["-O2", "-Wall"]),
        Vec::new(),
    );
    let (argv, _) = expect_run(&mut p);
    assert_eq!(argv, strings(&["prepare"]));
    assert_eq!(p.report(true), Ok(()));
    let (argv, _) = expect_run(&mut p);
    assert_eq!(
        argv,
        strings(&["gcc", "main.c", "-o", "/tmp/out", "-O2", "-Wall"])
    );
}

#[test]
fn misdeclared_main_command_is_skipped_not_fatal() {
    let mut runner = runner_with(ExeChoice::Native, &[], &[], &[&["cleanup"]]);
    runner.exe_args_pre = strings(&["--lead"]);
    let mut p = Pipeline::new(
        runner,
        "src".to_string(),
        "/tmp/out".to_string(),
        Vec::new(),
        Vec::new(),
    );
    match p.next_command() {
        Ok(Step::Skip(c)) => assert_eq!(c, Codes::InternalError),
        _ => panic!("expected the main execution to be skipped"),
    }
    // Teardown still runs after the skipped main execution.
    let (argv, _) = expect_run(&mut p);
    assert_eq!(argv, strings(&["cleanup"]));
    assert_eq!(p.report(true), Ok(()));
    expect_finished(&mut p);
}

#[test]
fn empty_setup_command_aborts_the_run() {
    let runner = runner_with(ExeChoice::Chosen(0), &["python3"], &[&[]], &[&["cleanup"]]);
    let mut p = Pipeline::new(
        runner,
        "src.py".to_string(),
        "/tmp/out".to_string(),
        Vec::new(),
        Vec::new(),
    );
    assert_eq!(p.next_command().unwrap_err(), Codes::InternalError);
    expect_finished(&mut p);
}

#[test]
fn command_line_skips_empty_tokens() {
    let argv = strings(&["", "a", "", "b"]);
    assert_eq!(command_line(&argv, 4), "a b ");
    assert_eq!(command_line(&argv, 2), "a ");
    assert_eq!(command_line(&argv, 0), "");
}
