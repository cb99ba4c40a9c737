//! The environment that a command is given.
//!
//! An `Env` says whether the command inherits the environment of the process
//! that runs it, which variables are taken out of it and which are set.

use crate::text::{lemma_views_push, views};
use crate::vars::{as_map, lemma_empty_map, lemma_take_step, sorted, EnvVars, Pair};
use vstd::prelude::*;

verus! {

/// Describes a command's environment.
#[derive(Clone, Debug, PartialEq, Eq)]
pub struct Env {
    /// Whether the surrounding environment is handed on; unset means that it is.
    pub inherit: Option<bool>,
    /// Variables to set.
    pub add: EnvVars,
    /// Names of variables to take out.
    pub remove: Vec<String>,
}

/// An `Env` as mathematical values.
pub struct EnvView {
    pub inherit: Option<bool>,
    pub add: Map<Seq<char>, Seq<char>>,
    pub remove: Seq<Seq<char>>,
}

impl View for Env {
    type V = EnvView;

    open spec fn view(&self) -> EnvView {
        EnvView { inherit: self.inherit, add: self.add@, remove: views(self.remove@) }
    }
}

impl EnvView {
    /// An `Env` that changes nothing.
    pub open spec fn empty() -> EnvView {
        EnvView { inherit: None, add: Map::empty(), remove: Seq::empty() }
    }

    /// Whether the surrounding environment is handed on.
    pub open spec fn inherits(self) -> bool {
        match self.inherit {
            Some(b) => b,
            None => true,
        }
    }

    /// What the command starts from: the surrounding environment or nothing.
    pub open spec fn base(self, parent: Map<Seq<char>, Seq<char>>) -> Map<Seq<char>, Seq<char>> {
        if self.inherits() {
            parent
        } else {
            Map::empty()
        }
    }

    /// The environment of the command when `parent` is the surrounding one:
    /// the removals are taken out of what it starts from, then the additions
    /// are set.
    pub open spec fn applied(self, parent: Map<Seq<char>, Seq<char>>) -> Map<
        Seq<char>,
        Seq<char>,
    > {
        self.base(parent).remove_keys(self.remove.to_set()).union_prefer_right(self.add)
    }

    /// `self` layered over the defaults `other`: a setting of `self` stands,
    /// an addition of `other` comes in only under a name that `self` does not
    /// set, and the removals of `other` follow those of `self`.
    pub open spec fn merged(self, other: EnvView) -> EnvView {
        EnvView {
            inherit: if self.inherit is Some {
                self.inherit
            } else {
                other.inherit
            },
            add: other.add.union_prefer_right(self.add),
            remove: self.remove + other.remove,
        }
    }
}

impl Default for Env {
    fn default() -> (r: Self)
        ensures
            r@ == EnvView::empty(),
    {
        let r = Env { inherit: None, add: EnvVars::new(), remove: Vec::new() };
        assert(views(r.remove@) =~= Seq::<Seq<char>>::empty());
        r
    }
}

impl Env {
    /// Whether the surrounding environment is handed on.
    pub fn inherit(&self) -> (b: bool)
        ensures
            b == self@.inherits(),
    {
        match self.inherit {
            Some(b) => b,
            None => true,
        }
    }

    /// Layers `self` over the defaults in `other`: what `self` sets stands,
    /// and `other` fills in what `self` leaves open.
    pub fn update(&mut self, other: &Env)
        ensures
            final(self)@ == old(self)@.merged(other@),
    {
        if self.inherit.is_none() {
            self.inherit = other.inherit;
        }
        let ghost mine = self.add@;
        let ghost theirs = other.add.pairs();
        proof {
            other.add.lemma_model();
            use_type_invariant(&other.add);
            lemma_empty_map();
            assert(theirs.take(0) =~= Seq::<Pair>::empty());
            assert(mine =~= Map::<Seq<char>, Seq<char>>::empty().union_prefer_right(mine));
        }
        let n: usize = other.add.len();
        let mut i: usize = 0;
        while i < n
            invariant
                i <= n,
                n == theirs.len(),
                theirs == other.add.pairs(),
                sorted(theirs),
                self.inherit == old(self)@.merged(other@).inherit,
                self.remove == old(self).remove,
                self.add@ == as_map(theirs.take(i as int)).union_prefer_right(mine),
            decreases n - i,
        {
            let name = other.add.name_at(i);
            proof {
                lemma_take_step(theirs, i as int);
            }
            if !self.add.contains_key(name.as_str()) {
                self.add.insert(name.clone(), other.add.value_at(i).clone());
            }
            assert(self.add@ =~= as_map(theirs.take(i + 1)).union_prefer_right(mine));
            i += 1;
        }
        assert(theirs.take(n as int) =~= theirs);
        let ghost removed = self.remove@;
        let ghost after_add = self.add;
        let ghost more = views(other.remove@);
        assert(views(removed) =~= views(removed) + more.take(0));
        let mut j: usize = 0;
        while j < other.remove.len()
            invariant
                j <= other.remove.len(),
                more == views(other.remove@),
                self.inherit == old(self)@.merged(other@).inherit,
                self.add == after_add,
                views(self.remove@) == views(removed) + more.take(j as int),
            decreases other.remove.len() - j,
        {
            let ghost before = self.remove@;
            let name = other.remove[j].clone();
            proof {
                lemma_views_push(before, name);
                assert(name@ == more[j as int]);
            }
            self.remove.push(name);
            assert(views(self.remove@) =~= views(removed) + more.take(j + 1));
            j += 1;
        }
        assert(more.take(j as int) =~= more);
    }

    /// Turns the surrounding environment `vars` into the command's.
    pub fn apply(&self, vars: &mut EnvVars)
        ensures
            final(vars)@ == self@.applied(old(vars)@),
    {
        if !self.inherit() {
            vars.clear();
        }
        let ghost base = vars@;
        let ghost names = views(self.remove@);
        assert(names.take(0).to_set() =~= Set::<Seq<char>>::empty());
        assert(base.remove_keys(Set::<Seq<char>>::empty()) =~= base);
        let mut i: usize = 0;
        while i < self.remove.len()
            invariant
                i <= self.remove.len(),
                names == views(self.remove@),
                vars@ == base.remove_keys(names.take(i as int).to_set()),
            decreases self.remove.len() - i,
        {
            vars.remove(self.remove[i].as_str());
            proof {
                let t0 = names.take(i as int);
                let t1 = names.take(i + 1);
                assert(t1 =~= t0.push(names[i as int]));
                assert forall|x: Seq<char>| t1.to_set().contains(x) <==> t0.to_set().insert(
                    names[i as int],
                ).contains(x) by {
                    if t1.contains(x) {
                        let a = choose|a: int| 0 <= a < t1.len() && #[trigger] t1[a] == x;
                        if a < i {
                            assert(t0[a] == x);
                        }
                    }
                    if t0.contains(x) {
                        let a = choose|a: int| 0 <= a < t0.len() && #[trigger] t0[a] == x;
                        assert(t1[a] == x);
                    }
                    if x == names[i as int] {
                        assert(t1[i as int] == x);
                    }
                }
                assert(t1.to_set() =~= t0.to_set().insert(names[i as int]));
                assert(base.remove_keys(t0.to_set()).remove(names[i as int]) =~= base.remove_keys(
                    t1.to_set(),
                ));
            }
            i += 1;
        }
        assert(names.take(i as int) =~= names);
        let ghost cut = vars@;
        let ghost adds = self.add.pairs();
        proof {
            self.add.lemma_model();
            use_type_invariant(&self.add);
            lemma_empty_map();
            assert(adds.take(0) =~= Seq::<Pair>::empty());
            assert(cut =~= cut.union_prefer_right(Map::<Seq<char>, Seq<char>>::empty()));
        }
        let n: usize = self.add.len();
        let mut j: usize = 0;
        while j < n
            invariant
                j <= n,
                n == adds.len(),
                adds == self.add.pairs(),
                sorted(adds),
                vars@ == cut.union_prefer_right(as_map(adds.take(j as int))),
            decreases n - j,
        {
            proof {
                lemma_take_step(adds, j as int);
            }
            vars.insert(self.add.name_at(j).clone(), self.add.value_at(j).clone());
            assert(vars@ =~= cut.union_prefer_right(as_map(adds.take(j + 1))));
            j += 1;
        }
        assert(adds.take(n as int) =~= adds);
    }
}

/// An `Env` with nothing set hands the surrounding environment on unchanged.
pub proof fn unset_env_keeps_parent(env: EnvView, parent: Map<Seq<char>, Seq<char>>)
    requires
        env.inherit is None,
        env.add == Map::<Seq<char>, Seq<char>>::empty(),
        env.remove.len() == 0,
    ensures
        env.applied(parent) == parent,
{
    assert(env.remove.to_set() =~= Set::<Seq<char>>::empty());
    assert(env.applied(parent) =~= parent);
}

/// Without inheritance the command's environment holds the additions and
/// nothing else, whatever surrounds it and whatever is removed.
pub proof fn without_inherit_only_additions(env: EnvView, parent: Map<Seq<char>, Seq<char>>)
    requires
        env.inherit == Some(false),
    ensures
        env.applied(parent) == env.add,
{
    assert(env.applied(parent) =~= env.add);
}

/// An addition is in the command's environment with its value, also under a
/// name that is removed.
pub proof fn additions_take_effect(
    env: EnvView,
    parent: Map<Seq<char>, Seq<char>>,
    name: Seq<char>,
)
    requires
        env.add.contains_key(name),
    ensures
        env.applied(parent).contains_key(name),
        env.applied(parent)[name] == env.add[name],
{
}

/// A name that is removed and not added is not in the command's
/// environment; a name that is neither is there as it was in what the
/// command starts from.
pub proof fn removals_take_effect(
    env: EnvView,
    parent: Map<Seq<char>, Seq<char>>,
    name: Seq<char>,
)
    requires
        !env.add.contains_key(name),
    ensures
        env.remove.contains(name) ==> !env.applied(parent).contains_key(name),
        !env.remove.contains(name) ==> (env.applied(parent).contains_key(name)
            <==> env.base(parent).contains_key(name)),
        !env.remove.contains(name) && env.base(parent).contains_key(name) ==> env.applied(
            parent,
        )[name] == env.base(parent)[name],
{
}

/// Removing is idempotent and takes no notice of order: two lists that name
/// the same variables give the same environment.
pub proof fn removal_order_is_irrelevant(
    a: EnvView,
    b: EnvView,
    parent: Map<Seq<char>, Seq<char>>,
)
    requires
        a.inherit == b.inherit,
        a.add == b.add,
        a.remove.to_set() == b.remove.to_set(),
    ensures
        a.applied(parent) == b.applied(parent),
{
}

/// Layering never overwrites: an addition of the case stands, and a default
/// comes in only under a name that the case does not set.
pub proof fn merge_keeps_own_additions(a: EnvView, b: EnvView, name: Seq<char>)
    ensures
        a.add.contains_key(name) ==> a.merged(b).add.contains_key(name) && a.merged(b).add[name]
            == a.add[name],
        !a.add.contains_key(name) && b.add.contains_key(name) ==> a.merged(b).add.contains_key(
            name,
        ) && a.merged(b).add[name] == b.add[name],
        a.merged(b).add.contains_key(name) ==> a.add.contains_key(name) || b.add.contains_key(
            name,
        ),
{
}

/// Layering over defaults that set nothing changes nothing.
pub proof fn merge_with_unset_defaults(a: EnvView)
    ensures
        a.merged(EnvView::empty()) == a,
{
    let m = a.merged(EnvView::empty());
    assert(m.add =~= a.add);
    assert(m.remove =~= a.remove);
}

} // verus!
