use tenv::CommandArgs;

fn request_with_env(env: Vec<(&str, &str)>) -> CommandArgs {
    let pairs = env.into_iter().map(|(k, v)| (k.to_string(), v.to_string())).collect();
    CommandArgs::new(pairs, vec![], "prog".to_string(), vec![]).unwrap()
}

#[test]
fn earlier_assignment_visible_to_later() {
    let cmd = request_with_env(vec![("A", "1"), ("B", "${A}x")]);
    let env = cmd.resolve_env(&None);
    assert_eq!(env.get_value("A"), Some("1".to_string()));
    assert_eq!(env.get_value("B"), Some("1x".to_string()));
}

#[test]
fn forward_reference_stays_literal() {
    let cmd = request_with_env(vec![("B", "${A}x"), ("A", "1")]);
    let env = cmd.resolve_env(&None);
    assert_eq!(env.get_value("B"), Some("${A}x".to_string()));
    assert_eq!(env.get_value("A"), Some("1".to_string()));
}

#[test]
fn later_duplicate_overwrites_in_map() {
    let cmd = request_with_env(vec![("A", "first"), ("A", "second")]);
    let env = cmd.resolve_env(&None);
    assert_eq!(env.get_value("A"), Some("second".to_string()));
    assert_eq!(env.pairs.len(), 2);
}

#[test]
fn empty_value_expands_to_empty() {
    let cmd = request_with_env(vec![("A", "")]);
    let env = cmd.resolve_env(&None);
    assert_eq!(env.get_value("A"), Some("".to_string()));
}

#[test]
fn value_without_placeholder_is_copied() {
    let cmd = request_with_env(vec![("A", "plain  value")]);
    let env = cmd.resolve_env(&None);
    assert_eq!(env.get_value("A"), Some("plain  value".to_string()));
}

#[test]
fn tilde_value_expands_from_given_home() {
    let cmd = request_with_env(vec![("A", "~/bin")]);
    let env = cmd.resolve_env(&Some("/home/someone".to_string()));
    assert_eq!(env.get_value("A"), Some("/home/someone/bin".to_string()));
}

#[test]
fn unknown_name_is_absent() {
    let cmd = request_with_env(vec![("A", "1")]);
    let env = cmd.resolve_env(&None);
    assert_eq!(env.get_value("NOT_THERE"), None);
}
