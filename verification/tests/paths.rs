use tenv::{build_search_path, join_components, split_path_string, CommandArgs, Platform, TenvError};

fn request_with_paths(env: Vec<(&str, &str)>, paths: Vec<&str>) -> CommandArgs {
    let pairs = env.into_iter().map(|(k, v)| (k.to_string(), v.to_string())).collect();
    let adds = paths.into_iter().map(|p| p.to_string()).collect();
    CommandArgs::new(pairs, adds, "prog".to_string(), vec![]).unwrap()
}

#[test]
fn rebuild_keeps_order_and_duplicates() {
    let additions = vec!["/opt/tool".to_string(), "/opt/tool".to_string()];
    let r = build_search_path(&additions, "/usr/bin:/bin", ":").unwrap();
    assert_eq!(r, "/opt/tool:/opt/tool:/usr/bin:/bin");
}

#[test]
fn addition_with_separator_is_fatal() {
    let additions = vec!["/a:b".to_string()];
    match build_search_path(&additions, "/bin", ":") {
        Err(TenvError::Other(m)) => {
            assert_eq!(m, "a path addition contains the list separator: /a:b");
        }
        other => panic!("expected a fatal join error, got {:?}", other),
    }
}

#[test]
fn empty_additions_mean_no_override() {
    let cmd = request_with_paths(vec![], vec![]);
    let env = cmd.resolve_env(&None);
    let r = cmd.get_prepended_path(&env, "/usr/bin:/bin", Platform::Posix).unwrap();
    assert_eq!(r, None);
}

#[test]
fn additions_searched_before_inherited() {
    let cmd = request_with_paths(vec![], vec!["/opt/tool", "/opt/tool"]);
    let env = cmd.resolve_env(&None);
    let r = cmd.get_prepended_path(&env, "/usr/bin:/bin", Platform::Posix).unwrap();
    assert_eq!(r, Some("/opt/tool:/opt/tool:/usr/bin:/bin".to_string()));
}

#[test]
fn addition_expands_declared_variable() {
    let cmd = request_with_paths(vec![("TOOLS", "/opt/tools")], vec!["${TOOLS}/bin"]);
    let env = cmd.resolve_env(&None);
    let r = cmd.get_prepended_path(&env, "/usr/bin", Platform::Posix).unwrap();
    assert_eq!(r, Some("/opt/tools/bin:/usr/bin".to_string()));
}

#[test]
fn addition_keeps_home_reference_literal() {
    let cmd = request_with_paths(vec![], vec!["~/bin"]);
    let env = cmd.resolve_env(&None);
    let r = cmd.get_prepended_path(&env, "/usr/bin", Platform::Posix).unwrap();
    assert_eq!(r, Some("~/bin:/usr/bin".to_string()));
}

#[test]
fn separator_in_addition_fails_whole_override() {
    let cmd = request_with_paths(vec![], vec!["/a:b"]);
    let env = cmd.resolve_env(&None);
    let r = cmd.get_prepended_path(&env, "/bin", Platform::Posix);
    assert!(matches!(r, Err(TenvError::Other(_))));
}

#[test]
fn splitting_empty_path_gives_no_components() {
    let r = split_path_string("", ':');
    assert_eq!(r.len(), 0);
}

#[test]
fn splitting_keeps_empty_components() {
    let r = split_path_string("a::b", ':');
    assert_eq!(r, vec!["a".to_string(), "".to_string(), "b".to_string()]);
}

#[test]
fn joining_interleaves_separator() {
    let parts = vec!["a".to_string(), "b".to_string(), "c".to_string()];
    assert_eq!(join_components(&parts, ":"), "a:b:c");
}

#[test]
fn joining_one_component_adds_nothing() {
    let parts = vec!["alone".to_string()];
    assert_eq!(join_components(&parts, ":"), "alone");
}
