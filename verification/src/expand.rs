use vstd::prelude::*;
use crate::request::CommandArgs;

verus! {

/// What `shellexpand::full_with_context_no_errors` returns for `input` when
/// `~` is resolved from `home` and `$NAME` / `${NAME}` from `vars`; names
/// absent from `vars` are left verbatim. The result depends on these three
/// arguments alone.
pub uninterp spec fn shell_expanded(
    input: Seq<char>,
    home: Option<Seq<char>>,
    vars: Map<Seq<char>, Seq<char>>,
) -> Seq<char>;

/// The ephemeral name-to-value environment built for one run: every resolved
/// assignment in declaration order, read as a map in which later entries
/// overwrite earlier ones. It is handed to the child and then discarded;
/// the host process environment is never touched.
pub struct ResolvedEnv {
    /// Resolved `(name, value)` pairs in declaration order.
    pub pairs: Vec<(String, String)>,
}

/// The mapping denoted by an association list: later entries overwrite
/// earlier ones.
pub open spec fn map_of_pairs(ps: Seq<(Seq<char>, Seq<char>)>) -> Map<Seq<char>, Seq<char>>
    decreases ps.len(),
{
    if ps.len() == 0 {
        Map::empty()
    } else {
        map_of_pairs(ps.drop_last()).insert(ps.last().0, ps.last().1)
    }
}

proof fn lemma_map_of_pairs_membership(ps: Seq<(Seq<char>, Seq<char>)>, k: Seq<char>)
    ensures
        map_of_pairs(ps).contains_key(k) <==> exists|i: int| 0 <= i < ps.len() && ps[i].0 == k,
    decreases ps.len(),
{
    if ps.len() > 0 {
        lemma_map_of_pairs_membership(ps.drop_last(), k);
        if ps.last().0 == k {
            assert(ps[ps.len() - 1].0 == k);
        } else if map_of_pairs(ps).contains_key(k) {
            let i = choose|i: int| 0 <= i < ps.drop_last().len() && ps.drop_last()[i].0 == k;
            assert(ps[i].0 == k);
        } else if exists|i: int| 0 <= i < ps.len() && ps[i].0 == k {
            let i = choose|i: int| 0 <= i < ps.len() && ps[i].0 == k;
            assert(i < ps.len() - 1);
            assert(ps.drop_last()[i].0 == k);
        }
    }
}

proof fn lemma_map_of_pairs_get(ps: Seq<(Seq<char>, Seq<char>)>, i: int)
    requires
        0 <= i < ps.len(),
        forall|j: int| i < j < ps.len() ==> ps[j].0 != ps[i].0,
    ensures
        map_of_pairs(ps).contains_key(ps[i].0),
        map_of_pairs(ps)[ps[i].0] == ps[i].1,
    decreases ps.len(),
{
    if i == ps.len() - 1 {
        assert(ps.last() == ps[i]);
    } else {
        assert(forall|j: int| i < j < ps.drop_last().len() ==> ps.drop_last()[j].0 != ps.drop_last()[
            i
        ].0);
        lemma_map_of_pairs_get(ps.drop_last(), i);
        assert(ps.last().0 != ps[i].0);
        assert(ps.drop_last()[i] == ps[i]);
    }
}

impl ResolvedEnv {
    /// Every resolved `(name, value)` entry, in declaration order.
    pub open spec fn entries(self) -> Seq<(Seq<char>, Seq<char>)> {
        self.pairs.deep_view()
    }

    /// The environment read as a map; later duplicate names win.
    pub open spec fn as_map(self) -> Map<Seq<char>, Seq<char>> {
        map_of_pairs(self.entries())
    }

    /// An environment with nothing resolved yet.
    pub fn new() -> (r: Self)
        ensures
            r.entries() == Seq::<(Seq<char>, Seq<char>)>::empty(),
            r.as_map() == Map::<Seq<char>, Seq<char>>::empty(),
    {
        let r = ResolvedEnv { pairs: Vec::new() };
        proof {
            assert(r.entries() =~~= Seq::<(Seq<char>, Seq<char>)>::empty());
        }
        r
    }

    /// Appends one resolved assignment; in the map it overwrites any earlier
    /// entry of the same name, while the entry sequence keeps both.
    pub fn insert(&mut self, name: String, value: String)
        ensures
            final(self).entries() == old(self).entries().push((name@, value@)),
            final(self).as_map() == old(self).as_map().insert(name@, value@),
    {
        let ghost pre = self.pairs.deep_view();
        self.pairs.push((name, value));
        proof {
            assert(self.pairs.deep_view() =~~= pre.push((name@, value@)));
            assert(self.pairs.deep_view().drop_last() =~~= pre);
            assert(self.pairs.deep_view().last() == (name@, value@));
        }
    }

    /// The value the environment holds for `name`, if any: the value of the
    /// last assignment of that name.
    pub fn get_value(&self, name: &str) -> (r: Option<String>)
        ensures
            r matches Some(v) ==> self.as_map().contains_key(name@) && self.as_map()[name@] == v@,
            r is None ==> !self.as_map().contains_key(name@),
    {
        let key = String::from_str(name);
        let mut i: usize = self.pairs.len();
        while i > 0
            invariant
                i <= self.pairs@.len(),
                key@ == name@,
                forall|j: int| i <= j < self.pairs@.len() ==> self.pairs.deep_view()[j].0 != name@,
            decreases i,
        {
            i -= 1;
            if self.pairs[i].0 == key {
                proof {
                    lemma_map_of_pairs_get(self.pairs.deep_view(), i as int);
                }
                return Some(self.pairs[i].1.clone());
            }
        }
        proof {
            lemma_map_of_pairs_membership(self.pairs.deep_view(), name@);
        }
        None
    }

    /// The resolved entries as owned pairs, in declaration order, for
    /// whoever spawns the child.
    pub fn to_pairs(&self) -> (r: Vec<(String, String)>)
        ensures
            r.deep_view() == self.entries(),
    {
        let mut out: Vec<(String, String)> = Vec::new();
        let mut i: usize = 0;
        while i < self.pairs.len()
            invariant
                i <= self.pairs@.len(),
                out.deep_view() =~~= self.pairs.deep_view().take(i as int),
            decreases self.pairs@.len() - i,
        {
            let ghost pre = out.deep_view();
            out.push((self.pairs[i].0.clone(), self.pairs[i].1.clone()));
            proof {
                assert(out.deep_view() =~~= pre.push(self.pairs.deep_view()[i as int]));
                assert(out.deep_view() =~~= self.pairs.deep_view().take(i + 1 as int));
            }
            i += 1;
        }
        proof {
            assert(self.pairs.deep_view().take(self.pairs@.len() as int) =~~= self.pairs.deep_view());
        }
        out
    }
}

/// Relies on `shellexpand::full_with_context_no_errors`: expands a leading
/// `~` from `home` and `$NAME` / `${NAME}` from `vars`, leaving unknown
/// names verbatim; deterministic in its three arguments.
#[verifier::external_body]
pub(crate) fn expand_with_lookup(input: &str, home: &Option<String>, vars: &ResolvedEnv) -> (r:
    String)
    ensures
        r@ == shell_expanded(input@, home.deep_view(), vars.as_map()),
{
    shellexpand::full_with_context_no_errors(input, || home.clone(), |name: &str|
        vars.get_value(name)).to_string()
}

/// Relies on `dirs::home_dir`: the user's home directory as reported by the
/// platform, if any; nothing is assumed of the value.
#[verifier::external_body]
pub(crate) fn home_dir() -> (r: Option<String>) {
    dirs::home_dir().map(|p| p.to_string_lossy().to_string())
}

/// The environment that a sequence of raw assignments resolves to: strictly
/// left to right, each value expanded against the entries already resolved
/// (plus the home directory), so a forward reference stays verbatim.
pub open spec fn resolve_env_spec(
    assigns: Seq<(Seq<char>, Seq<char>)>,
    home: Option<Seq<char>>,
) -> Map<Seq<char>, Seq<char>>
    decreases assigns.len(),
{
    if assigns.len() == 0 {
        Map::empty()
    } else {
        let prior = resolve_env_spec(assigns.drop_last(), home);
        prior.insert(assigns.last().0, shell_expanded(assigns.last().1, home, prior))
    }
}

impl CommandArgs {
    /// Expands the declared assignments into the run's environment, in
    /// declaration order, against `home` and the entries resolved so far.
    pub fn resolve_env(&self, home: &Option<String>) -> (r: ResolvedEnv)
        ensures
            r.as_map() == resolve_env_spec(self.env_vars.deep_view(), home.deep_view()),
    {
        let mut env = ResolvedEnv::new();
        let mut i: usize = 0;
        while i < self.env_vars.len()
            invariant
                i <= self.env_vars@.len(),
                env.as_map() == resolve_env_spec(
                    self.env_vars.deep_view().take(i as int),
                    home.deep_view(),
                ),
            decreases self.env_vars@.len() - i,
        {
            let value = expand_with_lookup(self.env_vars[i].1.as_str(), home, &env);
            env.insert(self.env_vars[i].0.clone(), value);
            proof {
                let dv = self.env_vars.deep_view();
                assert(dv.take(i + 1 as int).drop_last() =~~= dv.take(i as int));
                assert(dv.take(i + 1 as int).last() == dv[i as int]);
            }
            i += 1;
        }
        proof {
            assert(self.env_vars.deep_view().take(self.env_vars@.len() as int)
                =~~= self.env_vars.deep_view());
        }
        env
    }

    /// The run's environment, resolved against the platform's home
    /// directory.
    pub fn get_env_vars(&self) -> (r: ResolvedEnv)
        ensures
            exists|h: Option<Seq<char>>|
                r.as_map() == resolve_env_spec(self.env_vars.deep_view(), h),
    {
        let home = home_dir();
        let r = self.resolve_env(&home);
        proof {
            let h = home.deep_view();
            assert(r.as_map() == resolve_env_spec(self.env_vars.deep_view(), h));
        }
        r
    }
}

} // verus!
