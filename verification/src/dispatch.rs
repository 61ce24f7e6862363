use vstd::prelude::*;
use crate::errors::TenvError;
use crate::request::CommandArgs;

verus! {

/// The platform family the launcher runs on; it decides the shell and the
/// search-path list-separator.
#[derive(Clone, Copy, Debug, PartialEq, Eq, Structural)]
pub enum Platform {
    Windows,
    Posix,
}

/// The shell used on `p`.
pub open spec fn shell_name_spec(p: Platform) -> Seq<char> {
    match p {
        Platform::Windows => "powershell"@,
        Platform::Posix => "bash"@,
    }
}

/// The flag that makes the shell of `p` run a command line.
pub open spec fn shell_flag_spec(p: Platform) -> Seq<char> {
    match p {
        Platform::Windows => "-Command"@,
        Platform::Posix => "-c"@,
    }
}

/// The character that separates entries of the search-path string on `p`.
pub open spec fn separator_char(p: Platform) -> char {
    match p {
        Platform::Windows => ';',
        Platform::Posix => ':',
    }
}

/// Shell and command flag for the platform: `powershell -Command` on
/// Windows, `bash -c` elsewhere.
pub fn get_shell_and_flag(platform: Platform) -> (r: (String, String))
    ensures
        r.0@ == shell_name_spec(platform),
        r.1@ == shell_flag_spec(platform),
{
    match platform {
        Platform::Windows => (String::from_str("powershell"), String::from_str("-Command")),
        Platform::Posix => (String::from_str("bash"), String::from_str("-c")),
    }
}

/// The list-separator of the platform, as a one-character string.
pub fn list_separator(platform: Platform) -> (r: String)
    ensures
        r@ == seq![separator_char(platform)],
{
    match platform {
        Platform::Windows => {
            let s = String::from_str(";");
            proof {
                reveal_strlit(";");
                assert(s@ =~~= seq![';']);
            }
            s
        },
        Platform::Posix => {
            let s = String::from_str(":");
            proof {
                reveal_strlit(":");
                assert(s@ =~~= seq![':']);
            }
            s
        },
    }
}

/// How the child is launched: the program itself, or the platform shell
/// handed the program as a command.
#[derive(Clone, Copy, Debug, PartialEq, Eq, Structural)]
pub enum DispatchStrategy {
    Direct,
    Shell,
}

/// How a spawned child ended, where the platform distinguishes an exit code
/// from termination by a signal.
#[derive(Clone, Copy, Debug, PartialEq, Eq, Structural)]
pub enum ChildExit {
    Code(i32),
    Signal,
}

/// What came back from one attempt to spawn the child.
#[derive(Debug, Clone)]
pub enum SpawnOutcome {
    /// The child ran and terminated.
    Exited(ChildExit),
    /// The program was not found; holds the underlying description.
    NotFound(String),
    /// Any other spawn failure; holds the underlying description.
    Failed(String),
}

/// What the dispatcher does next after one spawn attempt.
#[derive(Debug, Clone)]
pub enum DispatchStep {
    /// Try again with this strategy.
    Run(DispatchStrategy),
    /// The child terminated; report its exit verbatim.
    Done(ChildExit),
    /// Stop with this error.
    Fail(TenvError),
}

/// Every run starts by spawning the program directly.
pub fn initial_strategy() -> (r: DispatchStrategy)
    ensures
        r is Direct,
{
    DispatchStrategy::Direct
}

/// What the dispatcher must do after one spawn attempt: a child that
/// terminated is reported verbatim; a direct spawn that failed because the
/// program was not found falls back to the shell, exactly once; every other
/// failure is terminal.
pub open spec fn dispatch_transition(
    strategy: DispatchStrategy,
    outcome: SpawnOutcome,
    r: DispatchStep,
) -> bool {
    match (strategy, outcome) {
        (_, SpawnOutcome::Exited(st)) => r == DispatchStep::Done(st),
        (DispatchStrategy::Direct, SpawnOutcome::NotFound(_)) => r == DispatchStep::Run(
            DispatchStrategy::Shell,
        ),
        (DispatchStrategy::Direct, SpawnOutcome::Failed(m)) => r == DispatchStep::Fail(
            TenvError::SpawnError(m),
        ),
        (DispatchStrategy::Shell, SpawnOutcome::NotFound(m)) => r == DispatchStep::Fail(
            TenvError::SpawnError(m),
        ),
        (DispatchStrategy::Shell, SpawnOutcome::Failed(m)) => r == DispatchStep::Fail(
            TenvError::SpawnError(m),
        ),
    }
}

/// The one transition rule of the dispatcher; see `dispatch_transition`.
pub fn next_dispatch(strategy: DispatchStrategy, outcome: SpawnOutcome) -> (r: DispatchStep)
    ensures
        dispatch_transition(strategy, outcome, r),
    {
    match outcome {
        SpawnOutcome::Exited(st) => DispatchStep::Done(st),
        SpawnOutcome::NotFound(m) => match strategy {
            DispatchStrategy::Direct => DispatchStep::Run(DispatchStrategy::Shell),
            DispatchStrategy::Shell => DispatchStep::Fail(TenvError::SpawnError(m)),
        },
        SpawnOutcome::Failed(m) => DispatchStep::Fail(TenvError::SpawnError(m)),
    }
}

/// The program and argument vector that one spawn attempt uses: the target
/// itself under `Direct`, and `[shell, flag, program, args...]` under
/// `Shell`.
pub fn spawn_plan(cmd: &CommandArgs, platform: Platform, strategy: DispatchStrategy) -> (r: (
    String,
    Vec<String>,
))
    ensures
        strategy is Direct ==> r.0@ == cmd.program@ && r.1.deep_view() == cmd.args.deep_view(),
        strategy is Shell ==> r.0@ == shell_name_spec(platform) && r.1.deep_view() == seq![
            shell_flag_spec(platform),
            cmd.program@,
        ] + cmd.args.deep_view(),
{
    match strategy {
        DispatchStrategy::Direct => {
            let mut v: Vec<String> = Vec::new();
            let mut i: usize = 0;
            while i < cmd.args.len()
                invariant
                    i <= cmd.args.len(),
                    v.deep_view() =~~= cmd.args.deep_view().take(i as int),
                decreases cmd.args.len() - i,
            {
                let ghost pre = v.deep_view();
                v.push(cmd.args[i].clone());
                proof {
                    assert(v.deep_view() =~~= pre.push(cmd.args@[i as int]@));
                    assert(v.deep_view() =~~= cmd.args.deep_view().take(i + 1 as int));
                }
                i += 1;
            }
            proof {
                assert(cmd.args.deep_view().take(cmd.args@.len() as int) =~~= cmd.args.deep_view());
            }
            (cmd.program.clone(), v)
        },
        DispatchStrategy::Shell => {
            let (shell, _) = get_shell_and_flag(platform);
            let argv = cmd.get_arg_list(platform);
            (shell, argv)
        },
    }
}

} // verus!
