use vstd::prelude::*;
use crate::order::{lemma_lex_irreflexive, lemma_lex_total, lemma_lex_transitive, lex_lt, name_less};

verus! {

/// Each text of `s` comes before every later one.
pub open spec fn strictly_sorted(s: Seq<Seq<char>>) -> bool {
    forall|i: int, j: int| 0 <= i < j < s.len() ==> lex_lt(#[trigger] s[i], #[trigger] s[j])
}

/// The texts of a list of strings.
pub open spec fn texts(v: Seq<String>) -> Seq<Seq<char>> {
    v.map_values(|s: String| s@)
}

/// Named cases, each name at most once, kept in lexicographic order of the names.
pub struct Registry<C> {
    entries: Vec<(String, C)>,
    cases: Ghost<Map<Seq<char>, C>>,
}

impl<C> View for Registry<C> {
    type V = Map<Seq<char>, C>;

    closed spec fn view(&self) -> Map<Seq<char>, C> {
        self.cases@
    }
}

impl<C> Registry<C> {
    /// The registered names, in lexicographic order.
    pub closed spec fn listing(&self) -> Seq<Seq<char>> {
        self.entries@.map_values(|e: (String, C)| e.0@)
    }

    pub closed spec fn wf(&self) -> bool {
        &&& strictly_sorted(self.listing())
        &&& forall|i: int|
            0 <= i < self.entries@.len() ==> {
                &&& self.cases@.contains_key(#[trigger] self.entries@[i].0@)
                &&& self.cases@[self.entries@[i].0@] == self.entries@[i].1
            }
        &&& forall|k: Seq<char>|
            #[trigger] self.cases@.contains_key(k) ==> exists|i: int|
                0 <= i < self.entries@.len() && #[trigger] self.entries@[i].0@ == k
    }

    /// An empty registry.
    pub fn new() -> (r: Registry<C>)
        ensures
            r.wf(),
            r@ == Map::<Seq<char>, C>::empty(),
    {
        Registry { entries: Vec::new(), cases: Ghost(Map::empty()) }
    }

    /// The first position whose name does not come before `name`.
    fn position(&self, name: &str) -> (i: usize)
        requires
            self.wf(),
        ensures
            i <= self.entries@.len(),
            forall|k: int| 0 <= k < i ==> lex_lt(#[trigger] self.listing()[k], name@),
            i < self.entries@.len() ==> !lex_lt(self.listing()[i as int], name@),
    {
        let mut i: usize = 0;
        while i < self.entries.len() && name_less(self.entries[i].0.as_str(), name)
            invariant
                i <= self.entries@.len(),
                forall|k: int| 0 <= k < i ==> lex_lt(#[trigger] self.listing()[k], name@),
            decreases self.entries@.len() - i,
        {
            i += 1;
        }
        i
    }

    proof fn lemma_absent_at(&self, name: Seq<char>, i: int)
        requires
            self.wf(),
            0 <= i <= self.entries@.len(),
            forall|k: int| 0 <= k < i ==> lex_lt(#[trigger] self.listing()[k], name),
            i < self.entries@.len() ==> lex_lt(name, self.listing()[i]),
        ensures
            !self@.contains_key(name),
            forall|k: int| i <= k < self.entries@.len() ==> lex_lt(name, #[trigger] self.listing()[k]),
    {
        assert forall|k: int| i <= k < self.entries@.len() implies lex_lt(name, #[trigger] self.listing()[k]) by {
            if k > i {
                lemma_lex_transitive(name, self.listing()[i], self.listing()[k]);
            }
        }
        if self.cases@.contains_key(name) {
            let k = choose|k: int| 0 <= k < self.entries@.len() && #[trigger] self.entries@[k].0@ == name;
            assert(self.listing()[k] == name);
            lemma_lex_irreflexive(name);
        }
    }

    proof fn lemma_present_at(&self, i: int)
        requires
            self.wf(),
            0 <= i < self.entries@.len(),
        ensures
            forall|k: int| 0 <= k < self.entries@.len() && k != i ==> #[trigger] self.listing()[k] != self.listing()[i],
    {
        assert forall|k: int| 0 <= k < self.entries@.len() && k != i implies #[trigger] self.listing()[k] != self.listing()[i] by {
            lemma_lex_irreflexive(self.listing()[i]);
        }
    }

    /// Adds `case` under `name`, or hands `case` back, changing nothing, where `name` is
    /// taken already.
    pub fn register(&mut self, name: String, case: C) -> (r: Result<(), C>)
        requires
            old(self).wf(),
        ensures
            final(self).wf(),
            old(self)@.contains_key(name@) ==> r == Err::<(), C>(case) && final(self)@ == old(self)@,
            !old(self)@.contains_key(name@) ==> r is Ok && final(self)@ == old(self)@.insert(name@, case),
    {
        let i = self.position(name.as_str());
        if i < self.entries.len() && !name_less(name.as_str(), self.entries[i].0.as_str()) {
            proof {
                lemma_lex_total(name@, self.listing()[i as int]);
                assert(self.cases@.contains_key(self.entries@[i as int].0@));
            }
            return Err(case);
        }
        proof {
            if i < self.entries.len() {
                lemma_lex_total(name@, self.listing()[i as int]);
            }
            self.lemma_absent_at(name@, i as int);
        }
        let ghost old_entries = self.entries@;
        let ghost key = name@;
        let ghost c = case;
        self.entries.insert(i, (name, case));
        self.cases = Ghost(self.cases@.insert(key, c));
        proof {
            assert(self.listing() =~= old(self).listing().insert(i as int, key));
            assert forall|k: int| 0 <= k < self.entries@.len() implies {
                &&& self.cases@.contains_key(#[trigger] self.entries@[k].0@)
                &&& self.cases@[self.entries@[k].0@] == self.entries@[k].1
            } by {
                if k < i {
                    assert(self.entries@[k] == old_entries[k]);
                } else if k > i {
                    assert(self.entries@[k] == old_entries[k - 1]);
                    assert(old(self).listing()[k - 1] != key);
                }
            }
            assert forall|q: Seq<char>| #[trigger] self.cases@.contains_key(q) implies exists|k: int|
                0 <= k < self.entries@.len() && #[trigger] self.entries@[k].0@ == q by {
                if q == key {
                    assert(self.entries@[i as int].0@ == q);
                } else {
                    let k = choose|k: int| 0 <= k < old_entries.len() && #[trigger] old_entries[k].0@ == q;
                    if k < i {
                        assert(self.entries@[k].0@ == q);
                    } else {
                        assert(self.entries@[k + 1].0@ == q);
                    }
                }
            }
        }
        Ok(())
    }

    /// Removes the case registered under `name` and hands it out, or `None` where no case
    /// has that name.
    pub fn take(&mut self, name: &str) -> (r: Option<C>)
        requires
            old(self).wf(),
        ensures
            final(self).wf(),
            old(self)@.contains_key(name@) ==> r == Some(old(self)@[name@]) && final(self)@ == old(self)@.remove(name@),
            !old(self)@.contains_key(name@) ==> r is None && final(self)@ == old(self)@,
    {
        let i = self.position(name);
        if i < self.entries.len() && !name_less(name, self.entries[i].0.as_str()) {
            proof {
                lemma_lex_total(name@, self.listing()[i as int]);
                self.lemma_present_at(i as int);
            }
            let ghost old_entries = self.entries@;
            let e = self.entries.remove(i);
            self.cases = Ghost(self.cases@.remove(name@));
            proof {
                assert(self.listing() =~= old(self).listing().remove(i as int));
                assert forall|k: int| 0 <= k < self.entries@.len() implies {
                    &&& self.cases@.contains_key(#[trigger] self.entries@[k].0@)
                    &&& self.cases@[self.entries@[k].0@] == self.entries@[k].1
                } by {
                    if k < i {
                        assert(self.entries@[k] == old_entries[k]);
                        assert(old(self).listing()[k] != name@);
                    } else {
                        assert(self.entries@[k] == old_entries[k + 1]);
                        assert(old(self).listing()[k + 1] != name@);
                    }
                }
                assert forall|q: Seq<char>| #[trigger] self.cases@.contains_key(q) implies exists|k: int|
                    0 <= k < self.entries@.len() && #[trigger] self.entries@[k].0@ == q by {
                    let k = choose|k: int| 0 <= k < old_entries.len() && #[trigger] old_entries[k].0@ == q;
                    assert(k != i);
                    if k < i {
                        assert(self.entries@[k].0@ == q);
                    } else {
                        assert(self.entries@[k - 1].0@ == q);
                    }
                }
            }
            Some(e.1)
        } else {
            proof {
                if i < self.entries.len() {
                    lemma_lex_total(name@, self.listing()[i as int]);
                }
                self.lemma_absent_at(name@, i as int);
            }
            None
        }
    }

    /// Every registered name, in lexicographic order.
    pub fn names(&self) -> (r: Vec<String>)
        requires
            self.wf(),
        ensures
            texts(r@) == self.listing(),
            strictly_sorted(texts(r@)),
            forall|k: Seq<char>| self@.contains_key(k) <==> texts(r@).contains(k),
    {
        let mut r: Vec<String> = Vec::new();
        let mut i: usize = 0;
        while i < self.entries.len()
            invariant
                i <= self.entries@.len(),
                r@.len() == i,
                texts(r@) == self.listing().subrange(0, i as int),
            decreases self.entries@.len() - i,
        {
            let s = self.entries[i].0.clone();
            assert(s@ == self.listing()[i as int]);
            let ghost before = r@;
            r.push(s);
            assert(r@ == before.push(s));
            assert forall|k: int| 0 <= k <= i implies texts(r@)[k] == self.listing().subrange(0, i + 1)[k] by {
                if k < i {
                    assert(texts(before)[k] == self.listing().subrange(0, i as int)[k]);
                    assert(r@[k] == before[k]);
                }
            }
            assert(texts(r@) =~= self.listing().subrange(0, i + 1));
            i += 1;
        }
        assert(self.listing().subrange(0, i as int) =~= self.listing());
        assert forall|k: Seq<char>| self@.contains_key(k) <==> texts(r@).contains(k) by {
            if self@.contains_key(k) {
                let j = choose|j: int| 0 <= j < self.entries@.len() && #[trigger] self.entries@[j].0@ == k;
                assert(texts(r@)[j] == k);
            }
            if texts(r@).contains(k) {
                let j = choose|j: int| 0 <= j < texts(r@).len() && texts(r@)[j] == k;
                assert(self.entries@[j].0@ == k);
            }
        }
        r
    }
}

} // verus!

verus! {

/// A case taken out by name is the very case registered under that name, whatever cases
/// were registered under other names before or after it; so running it gives exactly what
/// running the registered case would give.
pub proof fn lemma_take_after_register<C: FnOnce() -> Option<String>>(
    before: Map<Seq<char>, C>,
    name: Seq<char>,
    case: C,
    later: Map<Seq<char>, C>,
)
    requires
        !before.contains_key(name),
        !later.contains_key(name),
    ensures
        ({
            let m = before.insert(name, case).union_prefer_right(later);
            &&& m.contains_key(name)
            &&& m[name] == case
            &&& forall|o: Option<String>| call_ensures(m[name], (), o) <==> call_ensures(case, (), o)
        }),
{
}

/// Two lists of names, each in strict lexicographic order, that hold the same names are
/// the same list: the listing of a registry depends on its names alone, not on the order in
/// which they were registered.
pub proof fn lemma_listing_determined(s1: Seq<Seq<char>>, s2: Seq<Seq<char>>)
    requires
        strictly_sorted(s1),
        strictly_sorted(s2),
        forall|k: Seq<char>| s1.contains(k) <==> s2.contains(k),
    ensures
        s1 == s2,
    decreases s1.len(),
{
    if s1.len() == 0 {
        if s2.len() > 0 {
            assert(s2.contains(s2[0]));
        }
        assert(s1 =~= s2);
    } else {
        assert(s1.contains(s1[0]));
        let j = choose|j: int| 0 <= j < s2.len() && s2[j] == s1[0];
        assert(s2.contains(s2[0]));
        let i = choose|i: int| 0 <= i < s1.len() && s1[i] == s2[0];
        if j > 0 {
            assert(lex_lt(s2[0], s2[j]));
            if i > 0 {
                assert(lex_lt(s1[0], s1[i]));
                lemma_lex_transitive(s1[0], s2[0], s1[0]);
            }
            lemma_lex_irreflexive(s1[0]);
        }
        let t1 = s1.drop_first();
        let t2 = s2.drop_first();
        assert forall|k: Seq<char>| t1.contains(k) implies t2.contains(k) by {
            let a = choose|a: int| 0 <= a < t1.len() && t1[a] == k;
            assert(s1[a + 1] == k);
            assert(s1.contains(k));
            let b = choose|b: int| 0 <= b < s2.len() && s2[b] == k;
            assert(lex_lt(s1[0], s1[a + 1]));
            if b == 0 {
                lemma_lex_irreflexive(k);
            }
            assert(t2[b - 1] == k);
        }
        assert forall|k: Seq<char>| t2.contains(k) implies t1.contains(k) by {
            let a = choose|a: int| 0 <= a < t2.len() && t2[a] == k;
            assert(s2[a + 1] == k);
            assert(s2.contains(k));
            let b = choose|b: int| 0 <= b < s1.len() && s1[b] == k;
            assert(lex_lt(s2[0], s2[a + 1]));
            if b == 0 {
                lemma_lex_irreflexive(k);
            }
            assert(t1[b - 1] == k);
        }
        lemma_listing_determined(t1, t2);
        assert(s1 =~= seq![s1[0]] + t1);
        assert(s2 =~= seq![s2[0]] + t2);
    }
}

} // verus!

verus! {

impl<C> Registry<C> {
    /// Two registries that hold the same names list them in the same order, however and in
    /// whatever order the names were registered.
    pub proof fn lemma_same_names_same_listing(&self, other: &Registry<C>)
        requires
            self.wf(),
            other.wf(),
            self@.dom() == other@.dom(),
        ensures
            self.listing() == other.listing(),
    {
        assert forall|k: Seq<char>| self.listing().contains(k) <==> other.listing().contains(k) by {
            if self.listing().contains(k) {
                let i = choose|i: int| 0 <= i < self.listing().len() && self.listing()[i] == k;
                assert(self.entries@[i].0@ == k);
                assert(other@.dom().contains(k));
                let j = choose|j: int| 0 <= j < other.entries@.len() && #[trigger] other.entries@[j].0@ == k;
                assert(other.listing()[j] == k);
            }
            if other.listing().contains(k) {
                let i = choose|i: int| 0 <= i < other.listing().len() && other.listing()[i] == k;
                assert(other.entries@[i].0@ == k);
                assert(self@.dom().contains(k));
                let j = choose|j: int| 0 <= j < self.entries@.len() && #[trigger] self.entries@[j].0@ == k;
                assert(self.listing()[j] == k);
            }
        }
        lemma_listing_determined(self.listing(), other.listing());
    }
}

} // verus!
