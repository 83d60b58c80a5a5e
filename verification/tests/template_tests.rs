use ruc::template::{sub, substitute, Conf, Rep};

fn conf_io(input: &str, output: &str) -> Conf {
    let mut conf = Conf::new();
    conf.add("%INPUT_FILE%", Rep::new(input));
    conf.add("%OUTPUT_FILE%", Rep::out(output));
    conf
}

#[test]
fn no_matching_placeholder_passes_through() {
    let conf = conf_io("/tmp/in.c", "/tmp/out");
    let tokens = vec![
        "gcc".to_string(),
        "-Wall".to_string(),
        "plain token with spaces".to_string(),
        String::new(),
    ];
    let (materialized, captured) = substitute(&tokens, &conf);
    assert_eq!(materialized, tokens);
    assert!(captured.is_none());
}

#[test]
fn input_placeholder_is_replaced() {
    let conf = conf_io("/tmp/in.c", "/tmp/out");
    let mut out_name = String::new();
    let r = sub("%INPUT_FILE%", &conf, &mut out_name).unwrap();
    assert_eq!(r, "/tmp/in.c");
    assert_eq!(out_name, "");
}

#[test]
fn output_capture_includes_suffix_after_placeholder() {
    let conf = conf_io("/tmp/in.c", "/tmp/x");
    let tokens = vec!["-o %OUTPUT_FILE%.exe".to_string()];
    let (materialized, captured) = substitute(&tokens, &conf);
    assert_eq!(materialized, vec!["-o /tmp/x.exe".to_string()]);
    assert_eq!(captured, Some("/tmp/x.exe".to_string()));
}

#[test]
fn capture_stops_at_next_space() {
    let conf = conf_io("/tmp/in.c", "/tmp/x");
    let mut out_name = String::new();
    let r = sub("%OUTPUT_FILE%.bin --verbose", &conf, &mut out_name).unwrap();
    assert_eq!(r, "/tmp/x.bin --verbose");
    assert_eq!(out_name, "/tmp/x.bin");
}

#[test]
fn later_capture_overwrites_earlier_one() {
    let conf = conf_io("/tmp/in.c", "/tmp/x");
    let tokens = vec!["%OUTPUT_FILE%.first".to_string(), "%OUTPUT_FILE%.second".to_string()];
    let (materialized, captured) = substitute(&tokens, &conf);
    assert_eq!(
        materialized,
        vec!["/tmp/x.first".to_string(), "/tmp/x.second".to_string()]
    );
    assert_eq!(captured, Some("/tmp/x.second".to_string()));
}

#[test]
fn every_occurrence_is_replaced() {
    let conf = conf_io("in", "out");
    let mut out_name = String::new();
    let r = sub("%INPUT_FILE% and %INPUT_FILE%", &conf, &mut out_name).unwrap();
    assert_eq!(r, "in and in");
}

#[test]
fn capture_starts_at_first_occurrence() {
    let conf = conf_io("in", "o");
    let mut out_name = String::new();
    let r = sub("x %OUTPUT_FILE%y %OUTPUT_FILE%z", &conf, &mut out_name).unwrap();
    assert_eq!(r, "x oy oz");
    assert_eq!(out_name, "oy");
}

#[test]
fn non_producing_entry_does_not_capture() {
    let conf = conf_io("/tmp/in.c", "/tmp/x");
    let tokens = vec!["%INPUT_FILE%".to_string()];
    let (materialized, captured) = substitute(&tokens, &conf);
    assert_eq!(materialized, vec!["/tmp/in.c".to_string()]);
    assert!(captured.is_none());
}

#[test]
fn sub_keeps_existing_out_name_when_nothing_matches() {
    let conf = conf_io("/tmp/in.c", "/tmp/x");
    let mut out_name = "kept".to_string();
    let r = sub("nothing here", &conf, &mut out_name).unwrap();
    assert_eq!(r, "nothing here");
    assert_eq!(out_name, "kept");
}

#[test]
fn empty_context_changes_nothing() {
    let conf = Conf::new();
    let tokens = vec!["%INPUT_FILE%".to_string()];
    let (materialized, captured) = substitute(&tokens, &conf);
    assert_eq!(materialized, tokens);
    assert!(captured.is_none());
}
