use vstd::prelude::*;
use crate::dispatch::{list_separator, separator_char, Platform};
use crate::errors::TenvError;
use crate::expand::{expand_with_lookup, shell_expanded, ResolvedEnv};
use crate::request::CommandArgs;
use crate::strutil::{contains_char, find_char, find_char_in, lemma_find_char, trim_str, trimmed};

verus! {

/// `s` split at every occurrence of `sep`; empty components are kept, and a
/// string without `sep` is one component.
pub open spec fn split_on(s: Seq<char>, sep: char) -> Seq<Seq<char>>
    decreases s.len(),
{
    let i = find_char(s, sep);
    if i < 0 || i >= s.len() {
        seq![s]
    } else {
        seq![s.subrange(0, i)] + split_on(s.subrange(i + 1, s.len() as int), sep)
    }
}

/// The directories of an inherited search-path string: none for the empty
/// string, otherwise the components between separators.
pub open spec fn split_path_list(s: Seq<char>, sep: char) -> Seq<Seq<char>> {
    if s.len() == 0 {
        Seq::empty()
    } else {
        split_on(s, sep)
    }
}

/// `parts[k..]` joined with `sep` between components.
pub open spec fn join_from(parts: Seq<Seq<char>>, k: int, sep: char) -> Seq<char>
    decreases parts.len() - k,
{
    if k < 0 || k >= parts.len() {
        Seq::empty()
    } else if k == parts.len() - 1 {
        parts[k]
    } else {
        parts[k] + seq![sep] + join_from(parts, k + 1, sep)
    }
}

/// All of `parts` joined with `sep` between components.
pub open spec fn join_with(parts: Seq<Seq<char>>, sep: char) -> Seq<char> {
    join_from(parts, 0, sep)
}

proof fn lemma_split_on_len(s: Seq<char>, sep: char)
    ensures
        split_on(s, sep).len() >= 1,
    decreases s.len(),
{
    let i = find_char(s, sep);
    if !(i < 0 || i >= s.len()) {
        lemma_split_on_len(s.subrange(i + 1, s.len() as int), sep);
    }
}

proof fn lemma_join_from_shift(a: Seq<Seq<char>>, b: Seq<Seq<char>>, k: int, sep: char)
    requires
        0 <= k,
    ensures
        join_from(a + b, a.len() + k, sep) == join_from(b, k, sep),
    decreases b.len() - k,
{
    if k >= b.len() {
    } else if k == b.len() - 1 {
        assert((a + b)[a.len() + k] == b[k]);
    } else {
        lemma_join_from_shift(a, b, k + 1, sep);
        assert((a + b)[a.len() + k] == b[k]);
    }
}

/// Splitting and rejoining a search-path string is the identity: every
/// character of an inherited, nonempty path survives the rebuild untouched,
/// separators included.
pub proof fn lemma_join_split_round_trip(s: Seq<char>, sep: char)
    requires
        s.len() > 0,
    ensures
        join_with(split_on(s, sep), sep) == s,
    decreases s.len(),
{
    lemma_find_char(s, sep);
    let i = find_char(s, sep);
    if i < 0 || i >= s.len() {
        assert(join_with(seq![s], sep) == s);
    } else {
        let head = s.subrange(0, i);
        let tail = s.subrange(i + 1, s.len() as int);
        let rest = split_on(tail, sep);
        lemma_split_on_len(tail, sep);
        let combined = seq![head] + rest;
        assert(combined[0] == head);
        lemma_join_from_shift(seq![head], rest, 0, sep);
        if tail.len() == 0 {
            assert(join_with(rest, sep) == tail);
        } else {
            lemma_join_split_round_trip(tail, sep);
        }
        assert(join_with(split_on(s, sep), sep) == head + seq![sep] + tail);
        assert(head + seq![sep] + tail =~= s);
    }
}

/// Splits a search-path string on `sep`, keeping empty components; the empty
/// string has no components.
pub fn split_path_string(s: &str, sep: char) -> (r: Vec<String>)
    ensures
        r.deep_view() == split_path_list(s@, sep),
{
    if s.unicode_len() == 0 {
        let r: Vec<String> = Vec::new();
        proof {
            assert(r.deep_view() =~~= Seq::<Seq<char>>::empty());
        }
        return r;
    }
    let r = split_nonempty(s, sep);
    r
}

/// Splits any string on `sep`: the components before the first separator and
/// within the rest, in order.
fn split_nonempty(s: &str, sep: char) -> (r: Vec<String>)
    ensures
        r.deep_view() == split_on(s@, sep),
    decreases s@.len(),
{
    proof {
        lemma_find_char(s@, sep);
    }
    match find_char_in(s, sep) {
        None => {
            let mut r: Vec<String> = Vec::new();
            r.push(String::from_str(s));
            proof {
                assert(r.deep_view() =~~= seq![s@]);
            }
            r
        },
        Some(i) => {
            let n = s.unicode_len();
            let head = s.substring_char(0, i);
            let tail = s.substring_char(i + 1, n);
            let mut r = split_nonempty(tail, sep);
            let ghost pre = r.deep_view();
            r.insert(0, String::from_str(head));
            proof {
                assert(r.deep_view() =~~= seq![s@.subrange(0, i as int)] + pre);
                assert(r.deep_view() =~~= split_on(s@, sep));
            }
            r
        },
    }
}

/// Joins `parts[k..]` with the one-character separator `sep_str`.
fn join_rec(parts: &Vec<String>, k: usize, sep_str: &str) -> (r: String)
    requires
        sep_str@.len() == 1,
    ensures
        r@ == join_from(parts.deep_view(), k as int, sep_str@[0]),
    decreases parts@.len() - k,
{
    if k >= parts.len() {
        String::new()
    } else if k == parts.len() - 1 {
        parts[k].clone()
    } else {
        let rest = join_rec(parts, k + 1, sep_str);
        let r = parts[k].clone().concat(sep_str).concat(rest.as_str());
        proof {
            assert(sep_str@ =~~= seq![sep_str@[0]]);
        }
        r
    }
}

/// Joins path components with the one-character separator `sep_str`.
pub fn join_components(parts: &Vec<String>, sep_str: &str) -> (r: String)
    requires
        sep_str@.len() == 1,
    ensures
        r@ == join_with(parts.deep_view(), sep_str@[0]),
{
    join_rec(parts, 0, sep_str)
}

/// The rebuilt search-path string: the additions first, in order and without
/// deduplication, then the inherited directories in their original order.
/// Fails when an addition itself contains the separator, which cannot be
/// escaped in the joined string.
pub fn build_search_path(additions: &Vec<String>, inherited: &str, sep_str: &str) -> (r: Result<
    String,
    TenvError,
>)
    requires
        sep_str@.len() == 1,
    ensures
        (r is Ok <==> (forall|i: int|
            0 <= i < additions.deep_view().len() ==> !additions.deep_view()[i].contains(
                sep_str@[0],
            ))),
        r matches Ok(p) ==> p@ == join_with(
            additions.deep_view() + split_path_list(inherited@, sep_str@[0]),
            sep_str@[0],
        ),
        r matches Err(e) ==> e is Other,
{
    let sep = sep_str.get_char(0);
    let mut i: usize = 0;
    while i < additions.len()
        invariant
            i <= additions@.len(),
            sep == sep_str@[0],
            forall|j: int| 0 <= j < i ==> !additions.deep_view()[j].contains(sep_str@[0]),
        decreases additions@.len() - i,
    {
        if contains_char(additions[i].as_str(), sep) {
            proof {
                assert(additions.deep_view()[i as int].contains(sep_str@[0]));
            }
            return Err(
                TenvError::Other(
                    String::from_str("a path addition contains the list separator: ").concat(
                        additions[i].as_str(),
                    ),
                ),
            );
        }
        i += 1;
    }
    let mut all: Vec<String> = Vec::new();
    let mut j: usize = 0;
    while j < additions.len()
        invariant
            j <= additions@.len(),
            all.deep_view() =~~= additions.deep_view().take(j as int),
        decreases additions@.len() - j,
    {
        let ghost pre = all.deep_view();
        all.push(additions[j].clone());
        proof {
            assert(all.deep_view() =~~= pre.push(additions.deep_view()[j as int]));
            assert(all.deep_view() =~~= additions.deep_view().take(j + 1 as int));
        }
        j += 1;
    }
    proof {
        assert(additions.deep_view().take(additions@.len() as int) =~~= additions.deep_view());
    }
    let mut rest = split_path_string(inherited, sep);
    let ghost before = all.deep_view();
    let ghost rest_dv = rest.deep_view();
    all.append(&mut rest);
    proof {
        assert(all.deep_view() =~~= before + rest_dv);
    }
    let joined = join_components(&all, sep_str);
    Ok(joined)
}

/// `s` begins with the Windows verbatim prefix `\\?\`.
pub open spec fn has_verbatim_prefix(s: Seq<char>) -> bool {
    s.len() >= 4 && s[0] == '\\' && s[1] == '\\' && s[2] == '?' && s[3] == '\\'
}

/// No entry of `adds` begins with the Windows verbatim prefix.
pub open spec fn verbatim_free(adds: Seq<Seq<char>>) -> bool {
    forall|i: int| 0 <= i < adds.len() ==> !has_verbatim_prefix(#[trigger] adds[i])
}

/// Relies on `dunce::simplified`: a pure lexical function that either
/// returns the path unchanged or, only for a path that begins with the
/// Windows verbatim prefix `\\?\` and only on Windows, returns it with
/// those four characters stripped.
#[verifier::external_body]
pub(crate) fn simplify_path(s: &str) -> (r: String)
    ensures
        r@ == s@ || (s@.len() >= 4 && r@ == s@.subrange(4, s@.len() as int)),
        !has_verbatim_prefix(s@) ==> r@ == s@,
{
    dunce::simplified(std::path::Path::new(s)).to_string_lossy().to_string()
}

/// One path addition after the verified middle of the pipeline: trimmed,
/// then expanded against the resolved environment with no home-directory
/// fallback.
pub open spec fn expanded_addition_spec(s: Seq<char>, vars: Map<Seq<char>, Seq<char>>) -> Seq<
    char,
> {
    shell_expanded(trimmed(s), Option::<Seq<char>>::None, vars)
}

/// Every path addition taken through `expanded_addition_spec`.
pub open spec fn expanded_additions_spec(
    simp: Seq<Seq<char>>,
    vars: Map<Seq<char>, Seq<char>>,
) -> Seq<Seq<char>> {
    simp.map(|k: int, s: Seq<char>| expanded_addition_spec(s, vars))
}

impl CommandArgs {
    /// The `PATH` override for this run: each addition is lexically
    /// simplified, trimmed, and expanded against the resolved environment
    /// (with no home-directory fallback), and the inherited directories are
    /// appended after the additions. No additions means no override, so the
    /// child inherits the parent's search path untouched. For additions free
    /// of the Windows verbatim prefix — where simplification is the
    /// identity — the contract is exact: the override is owed, component by
    /// component, unless an expanded addition contains the separator, and
    /// that collision is the only error.
    pub fn get_prepended_path(
        &self,
        env: &ResolvedEnv,
        inherited: &str,
        platform: Platform,
    ) -> (r: Result<Option<String>, TenvError>)
        ensures
            (r matches Ok(p) && p is None) <==> self.path_additions@.len() == 0,
            r matches Ok(p) ==> (p matches Some(q) ==> exists|simp: Seq<Seq<char>>|
                (#[trigger] simp.len()) == self.path_additions@.len() && q@ == join_with(
                    expanded_additions_spec(simp, env.as_map()) + split_path_list(
                        inherited@,
                        separator_char(platform),
                    ),
                    separator_char(platform),
                )),
            r matches Err(e) ==> e is Other && self.path_additions@.len() > 0,
            verbatim_free(self.path_additions.deep_view()) ==> (r is Err <==> exists|i: int|
                0 <= i < self.path_additions@.len() && (#[trigger] expanded_additions_spec(
                    self.path_additions.deep_view(),
                    env.as_map(),
                )[i]).contains(separator_char(platform))),
            verbatim_free(self.path_additions.deep_view()) ==> (r matches Ok(p) ==> (p matches Some(
                q,
            ) ==> q@ == join_with(
                expanded_additions_spec(self.path_additions.deep_view(), env.as_map())
                    + split_path_list(inherited@, separator_char(platform)),
                separator_char(platform),
            ))),
    {
        if self.path_additions.len() == 0 {
            return Ok(None);
        }
        let sep_str = list_separator(platform);
        let mut expanded: Vec<String> = Vec::new();
        let ghost mut simp: Seq<Seq<char>> = Seq::empty();
        let mut i: usize = 0;
        let none_home: Option<String> = None;
        while i < self.path_additions.len()
            invariant
                i <= self.path_additions@.len(),
                simp.len() == i,
                none_home is None,
                expanded.deep_view() =~~= expanded_additions_spec(simp, env.as_map()),
                verbatim_free(self.path_additions.deep_view()) ==> simp
                    =~~= self.path_additions.deep_view().take(i as int),
            decreases self.path_additions@.len() - i,
        {
            let simplified = simplify_path(self.path_additions[i].as_str());
            let cleaned = trim_str(simplified.as_str());
            let value = expand_with_lookup(cleaned.as_str(), &none_home, env);
            let ghost pre = expanded.deep_view();
            expanded.push(value);
            proof {
                simp = simp.push(simplified@);
                assert(expanded.deep_view() =~~= pre.push(value@));
                assert(value@ == expanded_addition_spec(simplified@, env.as_map()));
                assert(expanded.deep_view() =~~= expanded_additions_spec(simp, env.as_map()));
                if verbatim_free(self.path_additions.deep_view()) {
                    assert(!has_verbatim_prefix(self.path_additions.deep_view()[i as int]));
                    assert(simplified@ == self.path_additions.deep_view()[i as int]);
                    assert(simp =~~= self.path_additions.deep_view().take(i + 1 as int));
                }
            }
            i += 1;
        }
        proof {
            if verbatim_free(self.path_additions.deep_view()) {
                assert(simp =~~= self.path_additions.deep_view());
                assert(expanded.deep_view() =~~= expanded_additions_spec(
                    self.path_additions.deep_view(),
                    env.as_map(),
                ));
            }
        }
        match build_search_path(&expanded, inherited, sep_str.as_str()) {
            Ok(p) => {
                proof {
                    assert(simp.len() == self.path_additions@.len());
                    assert(p@ == join_with(
                        expanded.deep_view() + split_path_list(
                            inherited@,
                            separator_char(platform),
                        ),
                        separator_char(platform),
                    ));
                }
                Ok(Some(p))
            },
            Err(e) => Err(e),
        }
    }
}

} // verus!
