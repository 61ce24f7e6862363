use tenv::{
    get_shell_and_flag, initial_strategy, list_separator, next_dispatch, spawn_plan, ChildExit,
    CommandArgs, DispatchStep, DispatchStrategy, Platform, SpawnOutcome, TenvError,
};

fn request() -> CommandArgs {
    CommandArgs::new(
        vec![],
        vec![],
        "prog".to_string(),
        vec!["a1".to_string(), "a2".to_string()],
    )
    .unwrap()
}

#[test]
fn posix_shell_is_bash() {
    let (shell, flag) = get_shell_and_flag(Platform::Posix);
    assert_eq!(shell, "bash");
    assert_eq!(flag, "-c");
}

#[test]
fn windows_shell_is_powershell() {
    let (shell, flag) = get_shell_and_flag(Platform::Windows);
    assert_eq!(shell, "powershell");
    assert_eq!(flag, "-Command");
}

#[test]
fn separators_follow_platform() {
    assert_eq!(list_separator(Platform::Posix), ":");
    assert_eq!(list_separator(Platform::Windows), ";");
}

#[test]
fn runs_start_direct() {
    assert_eq!(initial_strategy(), DispatchStrategy::Direct);
}

#[test]
fn direct_not_found_falls_back_to_shell() {
    let step = next_dispatch(
        DispatchStrategy::Direct,
        SpawnOutcome::NotFound("prog not on the search path".to_string()),
    );
    assert!(matches!(step, DispatchStep::Run(DispatchStrategy::Shell)));
}

#[test]
fn exit_status_is_returned_verbatim() {
    let step = next_dispatch(DispatchStrategy::Direct, SpawnOutcome::Exited(ChildExit::Code(3)));
    assert!(matches!(step, DispatchStep::Done(ChildExit::Code(3))));
    let step = next_dispatch(DispatchStrategy::Shell, SpawnOutcome::Exited(ChildExit::Signal));
    assert!(matches!(step, DispatchStep::Done(ChildExit::Signal)));
}

#[test]
fn direct_other_failure_is_terminal() {
    let step = next_dispatch(DispatchStrategy::Direct, SpawnOutcome::Failed("denied".to_string()));
    match step {
        DispatchStep::Fail(TenvError::SpawnError(m)) => assert_eq!(m, "denied"),
        other => panic!("expected a terminal spawn error, got {:?}", other),
    }
}

#[test]
fn shell_not_found_is_terminal() {
    let step = next_dispatch(DispatchStrategy::Shell, SpawnOutcome::NotFound("gone".to_string()));
    match step {
        DispatchStep::Fail(TenvError::SpawnError(m)) => assert_eq!(m, "gone"),
        other => panic!("expected a terminal spawn error, got {:?}", other),
    }
}

#[test]
fn direct_plan_uses_program_and_args() {
    let cmd = request();
    let (program, argv) = spawn_plan(&cmd, Platform::Posix, DispatchStrategy::Direct);
    assert_eq!(program, "prog");
    assert_eq!(argv, vec!["a1".to_string(), "a2".to_string()]);
}

#[test]
fn shell_plan_wraps_program_after_flag() {
    let cmd = request();
    let (program, argv) = spawn_plan(&cmd, Platform::Posix, DispatchStrategy::Shell);
    assert_eq!(program, "bash");
    assert_eq!(argv, vec!["-c".to_string(), "prog".to_string(), "a1".to_string(), "a2".to_string()]);
}

#[test]
fn arg_list_places_flag_first() {
    let cmd = request();
    let argv = cmd.get_arg_list(Platform::Windows);
    assert_eq!(
        argv,
        vec!["-Command".to_string(), "prog".to_string(), "a1".to_string(), "a2".to_string()]
    );
}
