use vstd::prelude::*;

verus! {

/// Relies on `argfile::PREFIX`: the conventional marker that makes a token
/// name an argument file, `@`.
#[verifier::external_body]
pub(crate) fn argfile_prefix() -> (c: char)
    ensures
        c == '@',
{
    argfile::PREFIX
}

/// Relies on `shellexpand::full`: expands a leading `~` from the user's home
/// directory and `$NAME` / `${NAME}` from the process environment; `None`
/// when a referenced name cannot be looked up. The result depends on the
/// process environment, so nothing more is assumed of it.
#[verifier::external_body]
pub(crate) fn shell_expand_full(input: &str) -> (r: Option<String>) {
    match shellexpand::full(input) {
        Ok(expanded) => Some(expanded.to_string()),
        Err(_) => None,
    }
}

/// True when the token would be skipped as a comment line inside an argument
/// file: its text begins with `#`.
pub fn is_argfile_comment(arg: &String) -> (r: bool)
    ensures
        r == (arg@.len() > 0 && arg@[0] == '#'),
{
    if arg.as_str().unicode_len() == 0 {
        return false;
    }
    arg.as_str().get_char(0) == '#'
}

/// Reattaches the argfile marker in front of an expanded path portion, so a
/// reference such as `@~/flags.txt` becomes the marker plus the expansion of
/// `~/flags.txt`.
pub fn reattach_marker(expanded: String) -> (r: String)
    ensures
        r@ == seq!['@'] + expanded@,
{
    let marker = String::from_str("@");
    proof {
        reveal_strlit("@");
        assert(marker@ =~~= seq!['@']);
    }
    marker.concat(expanded.as_str())
}

/// For a marker token `@path`, expands `path` against the process
/// environment and home directory and reattaches the marker via
/// `reattach_marker`; any other token, and a marker token whose expansion
/// fails, comes back unchanged.
pub fn expand_argfile_path(arg: String) -> (r: String)
    ensures
        !(arg@.len() > 0 && arg@[0] == '@') ==> r@ == arg@,
        arg@.len() > 0 && arg@[0] == '@' ==> r@.len() > 0 && r@[0] == '@',
{
    let prefix = argfile_prefix();
    let n = arg.as_str().unicode_len();
    if n == 0 || arg.as_str().get_char(0) != prefix {
        return arg;
    }
    let path = arg.as_str().substring_char(1, n);
    match shell_expand_full(path) {
        Some(expanded) => reattach_marker(expanded),
        None => arg,
    }
}

/// Whether a token is dropped as an argument-file comment.
pub open spec fn is_comment_spec(s: Seq<char>) -> bool {
    s.len() > 0 && s[0] == '#'
}

/// `args` with every comment token removed; the order of the other tokens is
/// untouched.
pub open spec fn without_comments(args: Seq<Seq<char>>) -> Seq<Seq<char>>
    decreases args.len(),
{
    if args.len() == 0 {
        Seq::empty()
    } else if is_comment_spec(args.last()) {
        without_comments(args.drop_last())
    } else {
        without_comments(args.drop_last()).push(args.last())
    }
}

/// Drops every token that begins with `#`, keeping the rest in order; the
/// comment lines of spliced argument files are inert.
pub fn strip_argfile_comments(args: Vec<String>) -> (r: Vec<String>)
    ensures
        r.deep_view() == without_comments(args.deep_view()),
{
    let mut out: Vec<String> = Vec::new();
    let mut i: usize = 0;
    while i < args.len()
        invariant
            i <= args@.len(),
            out.deep_view() =~~= without_comments(args.deep_view().take(i as int)),
        decreases args@.len() - i,
    {
        let ghost pre = out.deep_view();
        if !is_argfile_comment(&args[i]) {
            out.push(args[i].clone());
            proof {
                assert(out.deep_view() =~~= pre.push(args.deep_view()[i as int]));
            }
        }
        proof {
            let dv = args.deep_view();
            assert(dv.take(i + 1 as int).drop_last() =~~= dv.take(i as int));
            assert(dv.take(i + 1 as int).last() == dv[i as int]);
        }
        i += 1;
    }
    proof {
        assert(args.deep_view().take(args@.len() as int) =~~= args.deep_view());
    }
    out
}

} // verus!
