//! A table of named string values, kept sorted by name.
//!
//! The table is viewed as a `Map` from names to values. Each name occurs at
//! most once and the entries stand in strictly increasing order of their
//! names, so two tables with the same view hold the same entries in the same
//! order.

use crate::text::{
    lemma_lex_asymmetric, lemma_lex_irreflexive, lemma_lex_total, lemma_lex_transitive, lex_less,
    lex_lt, to_chars,
};
use vstd::prelude::*;

verus! {

/// A name with its value, both as character sequences.
pub type Pair = (Seq<char>, Seq<char>);

/// The names stand in strictly increasing order.
pub open spec fn sorted(p: Seq<Pair>) -> bool {
    forall|i: int, j: int| 0 <= i < j < p.len() ==> lex_lt(#[trigger] p[i].0, #[trigger] p[j].0)
}

/// Whether `k` is the name of some pair.
pub open spec fn has_key(p: Seq<Pair>, k: Seq<char>) -> bool {
    exists|i: int| 0 <= i < p.len() && (#[trigger] p[i]).0 == k
}

/// Some position at which `k` is the name.
pub open spec fn key_index(p: Seq<Pair>, k: Seq<char>) -> int {
    choose|i: int| 0 <= i < p.len() && (#[trigger] p[i]).0 == k
}

/// The map that a sequence of pairs stands for.
pub open spec fn as_map(p: Seq<Pair>) -> Map<Seq<char>, Seq<char>> {
    Map::new(|k: Seq<char>| has_key(p, k), |k: Seq<char>| p[key_index(p, k)].1)
}

/// In a sorted sequence a name is found at one position only.
pub proof fn lemma_key_index(p: Seq<Pair>, i: int)
    requires
        sorted(p),
        0 <= i < p.len(),
    ensures
        has_key(p, p[i].0),
        key_index(p, p[i].0) == i,
        as_map(p).contains_key(p[i].0),
        as_map(p)[p[i].0] == p[i].1,
{
    let k = p[i].0;
    assert(has_key(p, k));
    let j = key_index(p, k);
    if j < i {
        lemma_lex_asymmetric(p[j].0, p[i].0);
    } else if i < j {
        lemma_lex_asymmetric(p[i].0, p[j].0);
    }
}

/// A name that sorts between two neighbours is not in the sequence.
pub proof fn lemma_absent(p: Seq<Pair>, i: int, k: Seq<char>)
    requires
        sorted(p),
        0 <= i <= p.len(),
        forall|j: int| 0 <= j < i ==> lex_lt(#[trigger] p[j].0, k),
        i < p.len() ==> lex_lt(k, p[i].0),
    ensures
        !has_key(p, k),
        !as_map(p).contains_key(k),
{
    if has_key(p, k) {
        let j = key_index(p, k);
        lemma_lex_irreflexive(k);
        if j >= i {
            if j > i {
                lemma_lex_transitive(k, p[i].0, p[j].0);
            }
        }
    }
}

/// A pair put where its name belongs keeps the order and adds the pair to the map.
pub proof fn lemma_insert(p: Seq<Pair>, i: int, k: Seq<char>, v: Seq<char>)
    requires
        sorted(p),
        0 <= i <= p.len(),
        forall|j: int| 0 <= j < i ==> lex_lt(#[trigger] p[j].0, k),
        i < p.len() ==> lex_lt(k, p[i].0),
    ensures
        sorted(p.insert(i, (k, v))),
        as_map(p.insert(i, (k, v))) == as_map(p).insert(k, v),
{
    let q = p.insert(i, (k, v));
    assert forall|a: int, b: int| 0 <= a < b < q.len() implies lex_lt(
        #[trigger] q[a].0,
        #[trigger] q[b].0,
    ) by {
        if b == i {
            assert(q[a] == p[a]);
        } else if a == i {
            assert(q[b] == p[b - 1]);
            if b - 1 > i {
                lemma_lex_transitive(k, p[i].0, p[b - 1].0);
            }
        } else {
            let a0 = if a < i { a } else { a - 1 };
            let b0 = if b < i { b } else { b - 1 };
            assert(q[a] == p[a0] && q[b] == p[b0]);
        }
    }
    lemma_absent(p, i, k);
    let m = as_map(p).insert(k, v);
    assert forall|x: Seq<char>| as_map(q).contains_key(x) <==> m.contains_key(x) by {
        if has_key(q, x) {
            let j = key_index(q, x);
            if j < i {
                assert(q[j] == p[j]);
            } else if j > i {
                assert(q[j] == p[j - 1]);
            }
        }
        if has_key(p, x) {
            let j = key_index(p, x);
            let j1 = if j < i { j } else { j + 1 };
            assert(q[j1] == p[j]);
        }
        if x == k {
            assert(q[i].0 == k);
        }
    }
    assert forall|x: Seq<char>| as_map(q).contains_key(x) implies as_map(q)[x] == m[x] by {
        if x == k {
            lemma_key_index(q, i);
        } else {
            let j = key_index(p, x);
            let j1 = if j < i { j } else { j + 1 };
            assert(q[j1] == p[j]);
            lemma_key_index(p, j);
            lemma_key_index(q, j1);
        }
    }
    assert(as_map(q) =~= m);
}

/// A new value under a name that is there keeps the order and sets the value in the map.
pub proof fn lemma_update(p: Seq<Pair>, i: int, v: Seq<char>)
    requires
        sorted(p),
        0 <= i < p.len(),
    ensures
        sorted(p.update(i, (p[i].0, v))),
        as_map(p.update(i, (p[i].0, v))) == as_map(p).insert(p[i].0, v),
{
    let k = p[i].0;
    let q = p.update(i, (k, v));
    assert forall|a: int, b: int| 0 <= a < b < q.len() implies lex_lt(
        #[trigger] q[a].0,
        #[trigger] q[b].0,
    ) by {
        assert(q[a].0 == p[a].0 && q[b].0 == p[b].0);
    }
    let m = as_map(p).insert(k, v);
    assert forall|x: Seq<char>| as_map(q).contains_key(x) <==> m.contains_key(x) by {
        if has_key(q, x) {
            let j = key_index(q, x);
            assert(p[j].0 == x);
        }
        if has_key(p, x) {
            let j = key_index(p, x);
            assert(q[j].0 == x);
        }
        if x == k {
            assert(q[i].0 == k);
        }
    }
    assert forall|x: Seq<char>| as_map(q).contains_key(x) implies as_map(q)[x] == m[x] by {
        assert(has_key(q, x));
        let j = key_index(q, x);
        assert(q[j].0 == p[j].0);
        lemma_key_index(q, j);
        lemma_key_index(p, j);
        lemma_key_index(p, i);
    }
    assert(as_map(q) =~= m);
}

/// Taking a pair out keeps the order and takes its name out of the map.
pub proof fn lemma_remove(p: Seq<Pair>, i: int)
    requires
        sorted(p),
        0 <= i < p.len(),
    ensures
        sorted(p.remove(i)),
        as_map(p.remove(i)) == as_map(p).remove(p[i].0),
{
    let k = p[i].0;
    let q = p.remove(i);
    assert forall|a: int, b: int| 0 <= a < b < q.len() implies lex_lt(
        #[trigger] q[a].0,
        #[trigger] q[b].0,
    ) by {
        let a0 = if a < i { a } else { a + 1 };
        let b0 = if b < i { b } else { b + 1 };
        assert(q[a] == p[a0] && q[b] == p[b0]);
    }
    let m = as_map(p).remove(k);
    assert forall|x: Seq<char>| as_map(q).contains_key(x) <==> m.contains_key(x) by {
        if has_key(q, x) {
            let j = key_index(q, x);
            let j0 = if j < i { j } else { j + 1 };
            assert(q[j] == p[j0]);
            lemma_key_index(p, j0);
            lemma_key_index(p, i);
        }
        if has_key(p, x) && x != k {
            let j = key_index(p, x);
            let j1 = if j < i { j } else { j - 1 };
            assert(q[j1] == p[j]);
        }
    }
    assert forall|x: Seq<char>| as_map(q).contains_key(x) implies as_map(q)[x] == m[x] by {
        assert(has_key(q, x));
        let j = key_index(q, x);
        let j0 = if j < i { j } else { j + 1 };
        assert(q[j] == p[j0]);
        lemma_key_index(q, j);
        lemma_key_index(p, j0);
        lemma_key_index(p, i);
    }
    assert(as_map(q) =~= m);
}

/// Taking one more entry of a sorted sequence adds that entry to the map,
/// under a name that was not in it.
pub proof fn lemma_take_step(p: Seq<Pair>, i: int)
    requires
        sorted(p),
        0 <= i < p.len(),
    ensures
        sorted(p.take(i)),
        !as_map(p.take(i)).contains_key(p[i].0),
        as_map(p.take(i + 1)) == as_map(p.take(i)).insert(p[i].0, p[i].1),
{
    let t = p.take(i);
    assert forall|a: int, b: int| 0 <= a < b < t.len() implies lex_lt(
        #[trigger] t[a].0,
        #[trigger] t[b].0,
    ) by {
        assert(t[a] == p[a] && t[b] == p[b]);
    }
    assert forall|j: int| 0 <= j < i implies lex_lt(#[trigger] t[j].0, p[i].0) by {
        assert(t[j] == p[j]);
    }
    lemma_absent(t, i, p[i].0);
    lemma_insert(t, i, p[i].0, p[i].1);
    assert(t.insert(i, p[i]) =~= p.take(i + 1));
}

/// No entries, no names.
pub proof fn lemma_empty_map()
    ensures
        as_map(Seq::<Pair>::empty()) == Map::<Seq<char>, Seq<char>>::empty(),
{
    assert(as_map(Seq::<Pair>::empty()) =~= Map::<Seq<char>, Seq<char>>::empty());
}

/// Two sorted sequences that stand for the same map are the same sequence.
pub proof fn lemma_sorted_unique(p: Seq<Pair>, q: Seq<Pair>)
    requires
        sorted(p),
        sorted(q),
        as_map(p) == as_map(q),
    ensures
        p == q,
    decreases p.len(),
{
    if p.len() == 0 {
        if q.len() > 0 {
            lemma_key_index(q, 0);
            assert(as_map(p).contains_key(q[0].0));
        }
        assert(p =~= q);
    } else if q.len() == 0 {
        lemma_key_index(p, 0);
        assert(as_map(q).contains_key(p[0].0));
    } else {
        let n = p.len() - 1;
        let m = q.len() - 1;
        lemma_key_index(p, n);
        lemma_key_index(q, m);
        // the greatest names agree
        assert(has_key(q, p[n].0));
        let a = key_index(q, p[n].0);
        assert(has_key(p, q[m].0));
        let b = key_index(p, q[m].0);
        if a < m {
            lemma_lex_asymmetric(q[a].0, q[m].0);
            if b < n {
                lemma_lex_asymmetric(p[b].0, p[n].0);
            }
        }
        assert(p[n].0 == q[m].0);
        lemma_key_index(q, m);
        assert(p[n] == q[m]);
        lemma_remove(p, n);
        lemma_remove(q, m);
        lemma_sorted_unique(p.remove(n), q.remove(m));
        assert(p =~= p.remove(n).push(p[n]));
        assert(q =~= q.remove(m).push(q[m]));
    }
}

/// The map that a sequence of pairs builds when each is set in turn: a later
/// pair stands in place of an earlier one with the same name.
pub open spec fn overlaid(p: Seq<Pair>) -> Map<Seq<char>, Seq<char>>
    decreases p.len(),
{
    if p.len() == 0 {
        Map::empty()
    } else {
        overlaid(p.drop_last()).insert(p.last().0, p.last().1)
    }
}

/// The stored strings as character sequences.
pub open spec fn pairs_of(e: Seq<(String, String)>) -> Seq<Pair> {
    Seq::new(e.len(), |i: int| (e[i].0@, e[i].1@))
}

/// A table of named values: at most one value for a name, entries in
/// increasing order of their names.
#[derive(Debug, PartialEq, Eq)]
pub struct EnvVars {
    entries: Vec<(String, String)>,
}

impl View for EnvVars {
    type V = Map<Seq<char>, Seq<char>>;

    closed spec fn view(&self) -> Map<Seq<char>, Seq<char>> {
        as_map(self.pairs())
    }
}

impl Clone for EnvVars {
    fn clone(&self) -> (r: Self)
        ensures
            r@ == self@,
            r.pairs() == self.pairs(),
    {
        let mut entries: Vec<(String, String)> = Vec::new();
        let mut i: usize = 0;
        while i < self.entries.len()
            invariant
                i <= self.entries.len(),
                entries@.len() == i,
                pairs_of(entries@) == pairs_of(self.entries@).take(i as int),
            decreases self.entries.len() - i,
        {
            let ghost before = entries@;
            let name = self.entries[i].0.clone();
            let value = self.entries[i].1.clone();
            entries.push((name, value));
            assert forall|j: int| 0 <= j < i + 1 implies pairs_of(entries@)[j] == pairs_of(
                self.entries@,
            ).take(i + 1)[j] by {
                if j < i {
                    assert(entries@[j] == before[j]);
                    assert(pairs_of(before)[j] == pairs_of(self.entries@).take(i as int)[j]);
                }
            }
            assert(pairs_of(entries@) =~= pairs_of(self.entries@).take(i + 1));
            i += 1;
        }
        proof {
            use_type_invariant(self);
            assert(pairs_of(self.entries@).take(i as int) =~= pairs_of(self.entries@));
        }
        EnvVars { entries }
    }
}

impl Default for EnvVars {
    fn default() -> (r: Self)
        ensures
            r@ == Map::<Seq<char>, Seq<char>>::empty(),
    {
        EnvVars::new()
    }
}

impl EnvVars {
    /// The entries in the order in which they are stored.
    pub closed spec fn pairs(&self) -> Seq<Pair> {
        pairs_of(self.entries@)
    }

    /// The table's invariant: its entries are sorted by name.
    #[verifier::type_invariant]
    pub closed spec fn wf(&self) -> bool {
        sorted(self.pairs())
    }

    /// What the invariant and the view mean, in terms of the stored pairs.
    pub proof fn lemma_model(&self)
        ensures
            self.wf() == sorted(self.pairs()),
            self@ == as_map(self.pairs()),
    {
    }

    /// Two tables with the same view hold the same entries in the same order.
    pub proof fn same_view_same_entries(self, other: EnvVars)
        requires
            self.wf(),
            other.wf(),
            self@ == other@,
        ensures
            self.pairs() == other.pairs(),
    {
        lemma_sorted_unique(self.pairs(), other.pairs());
    }

    /// An empty table.
    pub fn new() -> (r: Self)
        ensures
            r@ == Map::<Seq<char>, Seq<char>>::empty(),
            r.pairs() == Seq::<Pair>::empty(),
            r.wf(),
    {
        let r = EnvVars { entries: Vec::new() };
        assert(r.pairs() =~= Seq::<Pair>::empty());
        assert(r@ =~= Map::<Seq<char>, Seq<char>>::empty());
        r
    }

    /// The table that holds `pairs`, a later pair in place of an earlier one
    /// with the same name.
    pub fn from_pairs(pairs: Vec<(String, String)>) -> (r: Self)
        ensures
            r@ == overlaid(pairs_of(pairs@)),
            r.wf(),
    {
        let ghost all = pairs_of(pairs@);
        let mut r = EnvVars::new();
        let mut i: usize = 0;
        assert(all.take(0) =~= Seq::<Pair>::empty());
        while i < pairs.len()
            invariant
                i <= pairs.len(),
                all == pairs_of(pairs@),
                r@ == overlaid(all.take(i as int)),
                r.wf(),
            decreases pairs.len() - i,
        {
            let name = pairs[i].0.clone();
            let value = pairs[i].1.clone();
            proof {
                assert(all.take(i + 1).drop_last() =~= all.take(i as int));
                assert(all.take(i + 1).last() == (name@, value@));
            }
            r.insert(name, value);
            i += 1;
        }
        assert(all.take(i as int) =~= all);
        r
    }

    /// The number of entries.
    pub fn len(&self) -> (n: usize)
        ensures
            n == self.pairs().len(),
    {
        self.entries.len()
    }

    /// Whether the table holds no entry.
    pub fn is_empty(&self) -> (b: bool)
        ensures
            b == (self.pairs().len() == 0),
            b == (self@ == Map::<Seq<char>, Seq<char>>::empty()),
    {
        let b = self.entries.len() == 0;
        proof {
            use_type_invariant(self);
            if b {
                assert(self@ =~= Map::<Seq<char>, Seq<char>>::empty());
            } else {
                lemma_key_index(self.pairs(), 0);
            }
        }
        b
    }

    /// The name of the entry at position `i`.
    pub fn name_at(&self, i: usize) -> (r: &String)
        requires
            i < self.pairs().len(),
        ensures
            r@ == self.pairs()[i as int].0,
    {
        &self.entries[i].0
    }

    /// The value of the entry at position `i`.
    pub fn value_at(&self, i: usize) -> (r: &String)
        requires
            i < self.pairs().len(),
        ensures
            r@ == self.pairs()[i as int].1,
    {
        &self.entries[i].1
    }

    /// The position at which `key` stands or would have to stand, and whether it stands there.
    fn locate(&self, key: &Vec<char>) -> (r: (usize, bool))
        ensures
            r.0 <= self.pairs().len(),
            forall|j: int| 0 <= j < r.0 ==> lex_lt(#[trigger] self.pairs()[j].0, key@),
            r.1 ==> r.0 < self.pairs().len() && self.pairs()[r.0 as int].0 == key@,
            !r.1 && r.0 < self.pairs().len() ==> lex_lt(key@, self.pairs()[r.0 as int].0),
    {
        let mut i: usize = 0;
        while i < self.entries.len()
            invariant
                i <= self.entries.len(),
                self.entries.len() == self.pairs().len(),
                forall|j: int| 0 <= j < i ==> lex_lt(#[trigger] self.pairs()[j].0, key@),
            decreases self.entries.len() - i,
        {
            let name = to_chars(self.entries[i].0.as_str());
            assert(name@ == self.pairs()[i as int].0);
            if !lex_less(&name, key) {
                let found = !lex_less(key, &name);
                proof {
                    lemma_lex_total(name@, key@);
                }
                return (i, found);
            }
            i += 1;
        }
        (i, false)
    }

    /// The value stored for `key`, if there is one.
    pub fn get(&self, key: &str) -> (r: Option<&String>)
        ensures
            match r {
                Some(v) => self@.contains_key(key@) && self@[key@] == v@,
                None => !self@.contains_key(key@),
            },
    {
        let k = to_chars(key);
        let (i, found) = self.locate(&k);
        proof {
            use_type_invariant(self);
            if found {
                lemma_key_index(self.pairs(), i as int);
            } else {
                lemma_absent(self.pairs(), i as int, key@);
            }
        }
        if found {
            Some(&self.entries[i].1)
        } else {
            None
        }
    }

    /// Whether a value is stored for `key`.
    pub fn contains_key(&self, key: &str) -> (b: bool)
        ensures
            b == self@.contains_key(key@),
    {
        self.get(key).is_some()
    }

    /// Stores `value` for `key`, in place of any value that was stored for it.
    pub fn insert(&mut self, key: String, value: String)
        ensures
            final(self)@ == old(self)@.insert(key@, value@),
            final(self).wf(),
    {
        let k = to_chars(key.as_str());
        let (i, found) = self.locate(&k);
        let ghost p = self.pairs();
        proof {
            use_type_invariant(&*self);
        }
        let mut entries: Vec<(String, String)> = Vec::new();
        assert(pairs_of(entries@) =~= Seq::<Pair>::empty());
        core::mem::swap(&mut self.entries, &mut entries);
        if found {
            proof {
                lemma_update(p, i as int, value@);
            }
            entries.set(i, (key, value));
            assert(pairs_of(entries@) =~= p.update(i as int, (p[i as int].0, value@)));
        } else {
            proof {
                lemma_insert(p, i as int, key@, value@);
            }
            entries.insert(i, (key, value));
            assert(pairs_of(entries@) =~= p.insert(i as int, (key@, value@)));
        }
        core::mem::swap(&mut self.entries, &mut entries);
    }

    /// Drops the entry for `key`, if there is one.
    pub fn remove(&mut self, key: &str)
        ensures
            final(self)@ == old(self)@.remove(key@),
            final(self).wf(),
    {
        let k = to_chars(key);
        let (i, found) = self.locate(&k);
        let ghost p = self.pairs();
        proof {
            use_type_invariant(&*self);
        }
        if found {
            proof {
                lemma_remove(p, i as int);
            }
            let mut entries: Vec<(String, String)> = Vec::new();
            assert(pairs_of(entries@) =~= Seq::<Pair>::empty());
            core::mem::swap(&mut self.entries, &mut entries);
            entries.remove(i);
            assert(pairs_of(entries@) =~= p.remove(i as int));
            core::mem::swap(&mut self.entries, &mut entries);
        } else {
            proof {
                lemma_absent(p, i as int, key@);
                assert(self@ =~= self@.remove(key@));
            }
        }
    }

    /// Drops every entry.
    pub fn clear(&mut self)
        ensures
            final(self)@ == Map::<Seq<char>, Seq<char>>::empty(),
            final(self).pairs() == Seq::<Pair>::empty(),
            final(self).wf(),
    {
        let mut entries: Vec<(String, String)> = Vec::new();
        assert(pairs_of(entries@) =~= Seq::<Pair>::empty());
        core::mem::swap(&mut self.entries, &mut entries);
        assert(self@ =~= Map::<Seq<char>, Seq<char>>::empty());
    }
}

} // verus!
