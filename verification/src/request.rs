use vstd::prelude::*;
use crate::dispatch::{shell_flag_spec, Platform};
use crate::errors::TenvError;
use crate::strutil::{find_char_in, lemma_find_char, trim_str, trimmed};

verus! {

/// `i` is the position of the first `=` in `s`.
pub open spec fn is_first_eq_index(s: Seq<char>, i: int) -> bool {
    &&& 0 <= i < s.len()
    &&& s[i] == '='
    &&& forall|j: int| 0 <= j < i ==> s[j] != '='
}

/// Splits an assignment token `NAME=VALUE` at its first `=`; the value may
/// itself contain `=` and is kept unaltered. A token without `=` is an
/// invalid assignment.
pub fn parse_key_val(s: &str) -> (r: Result<(String, String), TenvError>)
    ensures
        r is Ok <==> (exists|i: int| 0 <= i < s@.len() && s@[i] == '='),
        r matches Ok(kv) ==> exists|i: int|
            is_first_eq_index(s@, i) && kv.0@ == s@.subrange(0, i) && kv.1@ == s@.subrange(
                i + 1,
                s@.len() as int,
            ),
        r matches Err(e) ==> e matches TenvError::InvalidAssignment(t) && t@ == s@,
{
    proof {
        lemma_find_char(s@, '=');
    }
    match find_char_in(s, '=') {
        Some(i) => {
            let n = s.unicode_len();
            let key = String::from_str(s.substring_char(0, i));
            let value = String::from_str(s.substring_char(i + 1, n));
            proof {
                assert(is_first_eq_index(s@, i as int));
            }
            Ok((key, value))
        },
        None => Err(TenvError::InvalidAssignment(String::from_str(s))),
    }
}

/// The parsed, validated request: ordered environment assignments, path
/// additions, the target program and its literal arguments. Values are kept
/// raw here; they are expanded only when the child is dispatched.
#[derive(Debug, Clone)]
pub struct CommandArgs {
    /// Ordered `(name, raw value)` assignments; names are trimmed, duplicate
    /// names are legal and later entries overwrite earlier ones only in the
    /// resolved map.
    pub env_vars: Vec<(String, String)>,
    /// Ordered raw path strings to search before the inherited path.
    pub path_additions: Vec<String>,
    /// The target executable or shell line; never empty.
    pub program: String,
    /// Literal arguments handed to the child unmodified.
    pub args: Vec<String>,
}

impl CommandArgs {
    /// Builds a request from raw parts: assignment names and path additions
    /// are trimmed of surrounding whitespace, values and arguments are kept
    /// verbatim, and an absent (empty) program is a validation error.
    pub fn new(
        env_vars: Vec<(String, String)>,
        path_additions: Vec<String>,
        program: String,
        args: Vec<String>,
    ) -> (r: Result<CommandArgs, TenvError>)
        ensures
            program@.len() == 0 ==> (r matches Err(e) && e is MissingCommand),
            program@.len() > 0 ==> (r matches Ok(c) && c.program@ == program@ && c.args.deep_view()
                == args.deep_view() && c.env_vars.deep_view() == env_vars.deep_view().map(
                |i: int, p: (Seq<char>, Seq<char>)| (trimmed(p.0), p.1),
            ) && c.path_additions.deep_view() == path_additions.deep_view().map(
                |i: int, s: Seq<char>| trimmed(s),
            )),
    {
        if program.as_str().unicode_len() == 0 {
            return Err(TenvError::MissingCommand);
        }
        let ghost env_goal = env_vars.deep_view().map(
            |i: int, p: (Seq<char>, Seq<char>)| (trimmed(p.0), p.1),
        );
        let mut trimmed_env: Vec<(String, String)> = Vec::new();
        let mut i: usize = 0;
        while i < env_vars.len()
            invariant
                i <= env_vars.len(),
                env_goal == env_vars.deep_view().map(
                    |i: int, p: (Seq<char>, Seq<char>)| (trimmed(p.0), p.1),
                ),
                trimmed_env.deep_view() =~~= env_goal.take(i as int),
            decreases env_vars.len() - i,
        {
            let name = trim_str(env_vars[i].0.as_str());
            let ghost pre = trimmed_env.deep_view();
            trimmed_env.push((name, env_vars[i].1.clone()));
            proof {
                assert(trimmed_env.deep_view() =~~= pre.push(
                    (trimmed(env_vars@[i as int].0@), env_vars@[i as int].1@),
                ));
                assert(trimmed_env.deep_view() =~~= env_goal.take(i + 1 as int));
            }
            i += 1;
        }
        proof {
            assert(env_goal.take(env_vars@.len() as int) =~~= env_goal);
        }
        let ghost path_goal = path_additions.deep_view().map(|i: int, s: Seq<char>| trimmed(s));
        let mut trimmed_paths: Vec<String> = Vec::new();
        let mut j: usize = 0;
        while j < path_additions.len()
            invariant
                j <= path_additions.len(),
                path_goal == path_additions.deep_view().map(|i: int, s: Seq<char>| trimmed(s)),
                trimmed_paths.deep_view() =~~= path_goal.take(j as int),
            decreases path_additions.len() - j,
        {
            let p = trim_str(path_additions[j].as_str());
            let ghost pre = trimmed_paths.deep_view();
            trimmed_paths.push(p);
            proof {
                assert(trimmed_paths.deep_view() =~~= pre.push(trimmed(path_additions@[j as int]@)));
                assert(trimmed_paths.deep_view() =~~= path_goal.take(j + 1 as int));
            }
            j += 1;
        }
        proof {
            assert(path_goal.take(path_additions@.len() as int) =~~= path_goal);
        }
        Ok(
            CommandArgs {
                env_vars: trimmed_env,
                path_additions: trimmed_paths,
                program,
                args,
            },
        )
    }

    /// The argument vector handed to the platform shell:
    /// `[flag, program, args...]`. The program and its arguments are kept as
    /// separate vector elements after the command flag — the shell sees the
    /// trailing arguments as positional parameters, not as part of the
    /// command text; they are deliberately not concatenated into one quoted
    /// command string.
    pub fn get_arg_list(&self, platform: Platform) -> (r: Vec<String>)
        ensures
            r.deep_view() == seq![shell_flag_spec(platform), self.program@]
                + self.args.deep_view(),
    {
        let (_, flag) = crate::dispatch::get_shell_and_flag(platform);
        let mut v: Vec<String> = Vec::new();
        v.push(flag);
        v.push(self.program.clone());
        let mut i: usize = 0;
        while i < self.args.len()
            invariant
                i <= self.args.len(),
                v.deep_view() =~~= seq![shell_flag_spec(platform), self.program@]
                    + self.args.deep_view().take(i as int),
            decreases self.args.len() - i,
        {
            let ghost pre = v.deep_view();
            v.push(self.args[i].clone());
            proof {
                assert(v.deep_view() =~~= pre.push(self.args@[i as int]@));
                assert(v.deep_view() =~~= seq![shell_flag_spec(platform), self.program@]
                    + self.args.deep_view().take(i + 1 as int));
            }
            i += 1;
        }
        proof {
            assert(self.args.deep_view().take(self.args@.len() as int) =~~= self.args.deep_view());
            assert(v.deep_view() =~~= seq![shell_flag_spec(platform), self.program@]
                + self.args.deep_view());
        }
        v
    }
}

} // verus!
