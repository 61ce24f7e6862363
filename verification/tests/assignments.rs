use tenv::{parse_key_val, CommandArgs, TenvError};

#[test]
fn parse_splits_at_first_eq() {
    let r = parse_key_val("A=1").unwrap();
    assert_eq!(r.0, "A");
    assert_eq!(r.1, "1");
}

#[test]
fn parse_value_may_contain_eq() {
    let r = parse_key_val("B=x=y").unwrap();
    assert_eq!(r.0, "B");
    assert_eq!(r.1, "x=y");
}

#[test]
fn parse_leading_eq_gives_empty_name() {
    let r = parse_key_val("=v").unwrap();
    assert_eq!(r.0, "");
    assert_eq!(r.1, "v");
}

#[test]
fn parse_without_eq_is_invalid() {
    match parse_key_val("noeq") {
        Err(TenvError::InvalidAssignment(t)) => {
            assert_eq!(t, "noeq");
            assert_eq!(
                TenvError::InvalidAssignment(t).message(),
                "invalid KEY=value: no `=` found in `noeq`"
            );
        }
        other => panic!("expected an invalid-assignment error, got {:?}", other),
    }
}

#[test]
fn new_trims_names_and_paths_only() {
    let cmd = CommandArgs::new(
        vec![(" A ".to_string(), " 1 ".to_string())],
        vec![" /opt/tool ".to_string()],
        "prog".to_string(),
        vec![" keep me ".to_string()],
    )
    .unwrap();
    assert_eq!(cmd.env_vars[0].0, "A");
    assert_eq!(cmd.env_vars[0].1, " 1 ");
    assert_eq!(cmd.path_additions[0], "/opt/tool");
    assert_eq!(cmd.args[0], " keep me ");
}

#[test]
fn new_without_program_is_missing_command() {
    match CommandArgs::new(vec![], vec![], "".to_string(), vec![]) {
        Err(e) => {
            assert!(matches!(e, TenvError::MissingCommand));
            assert_eq!(e.message(), "no program was given");
        }
        Ok(_) => panic!("an empty program must be rejected"),
    }
}

#[test]
fn argfile_error_message_names_the_cause() {
    let e = TenvError::ArgfileError("no such file".to_string());
    assert_eq!(e.message(), "could not read argument file: no such file");
}
