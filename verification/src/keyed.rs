//! A small string-keyed map over a vector of entries with distinct keys,
//! used for the per-window runtime state (active subspace per app, tabs per
//! subspace, backgrounded and locked apps).
use vstd::prelude::*;
use crate::text::{chars_of, str_eq, starts_with_exec};

verus! {

pub struct KeyedList<V> {
    entries: Vec<(String, V)>,
}

/// Some entry has key `k`.
pub open spec fn has_key<V>(e: Seq<(String, V)>, k: Seq<char>) -> bool {
    exists|i: int| 0 <= i < e.len() && (#[trigger] e[i]).0@ == k
}

/// The value of the entry with key `k` (meaningful when there is one).
pub open spec fn value_at<V: View>(e: Seq<(String, V)>, k: Seq<char>) -> V::V {
    e[choose|i: int| 0 <= i < e.len() && (#[trigger] e[i]).0@ == k].1@
}

pub open spec fn distinct_keys<V>(e: Seq<(String, V)>) -> bool {
    forall|a: int, b: int| 0 <= a < e.len() && 0 <= b < e.len() && a != b ==> (#[trigger] e[a]).0@ != (#[trigger] e[b]).0@
}

pub open spec fn entries_view<V: View>(e: Seq<(String, V)>) -> Map<Seq<char>, V::V> {
    Map::new(|k: Seq<char>| has_key(e, k), |k: Seq<char>| value_at(e, k))
}

proof fn lemma_value_at<V: View>(e: Seq<(String, V)>, i: int)
    requires
        distinct_keys(e),
        0 <= i < e.len(),
    ensures
        has_key(e, e[i].0@),
        value_at(e, e[i].0@) == e[i].1@,
{
    let k = e[i].0@;
    assert(has_key(e, k));
    let c = choose|j: int| 0 <= j < e.len() && (#[trigger] e[j]).0@ == k;
    if c != i {
        assert(e[c].0@ == e[i].0@);
    }
}

impl<V: View> View for KeyedList<V> {
    type V = Map<Seq<char>, V::V>;

    closed spec fn view(&self) -> Map<Seq<char>, V::V> {
        entries_view(self.entries@)
    }
}

impl<V: View> KeyedList<V> {
    /// Keys are distinct.
    pub closed spec fn wf(&self) -> bool {
        distinct_keys(self.entries@)
    }

    pub fn new() -> (r: Self)
        ensures
            r.wf(),
            r@ == Map::<Seq<char>, V::V>::empty(),
    {
        let r = KeyedList { entries: Vec::new() };
        assert(r@ =~= Map::<Seq<char>, V::V>::empty());
        r
    }

    fn find(&self, k: &str) -> (r: Option<usize>)
        ensures
            match r {
                Some(i) => i < self.entries@.len() && self.entries@[i as int].0@ == k@,
                None => !has_key(self.entries@, k@),
            },
    {
        let mut i: usize = 0;
        while i < self.entries.len()
            invariant
                i <= self.entries.len(),
                forall|m: int| 0 <= m < i ==> (#[trigger] self.entries@[m]).0@ != k@,
            decreases self.entries.len() - i,
        {
            if str_eq(self.entries[i].0.as_str(), k) {
                return Some(i);
            }
            i = i + 1;
        }
        None
    }

    /// Whether `k` has a value.
    pub fn contains_key(&self, k: &str) -> (b: bool)
        ensures
            b == self@.contains_key(k@),
    {
        self.find(k).is_some()
    }

    /// The value of `k`, if any.
    pub fn get(&self, k: &str) -> (r: Option<&V>)
        requires
            self.wf(),
        ensures
            match r {
                Some(v) => self@.contains_key(k@) && v@ == self@[k@],
                None => !self@.contains_key(k@),
            },
    {
        match self.find(k) {
            Some(i) => {
                proof {
                    lemma_value_at(self.entries@, i as int);
                }
                Some(&self.entries[i].1)
            },
            None => None,
        }
    }

    /// Sets the value of `k`.
    pub fn insert(&mut self, k: String, v: V)
        requires
            old(self).wf(),
        ensures
            final(self).wf(),
            final(self)@ == old(self)@.insert(k@, v@),
    {
        let ghost kv = k@;
        let ghost vv = v@;
        let ghost old_e = self.entries@;
        match self.find(k.as_str()) {
            Some(i) => {
                self.entries.set(i, (k, v));
                proof {
                    let e = self.entries@;
                    assert(distinct_keys(e)) by {
                        assert forall|a: int, b: int| 0 <= a < e.len() && 0 <= b < e.len() && a != b implies (#[trigger] e[a]).0@ != (#[trigger] e[b]).0@ by {
                            assert(old_e[a].0@ != old_e[b].0@);
                        }
                    }
                    assert forall|q: Seq<char>| #[trigger] has_key(e, q) == has_key(old_e, q) by {
                        if has_key(old_e, q) {
                            let j = choose|j: int| 0 <= j < old_e.len() && (#[trigger] old_e[j]).0@ == q;
                            assert(e[j].0@ == q);
                        }
                        if has_key(e, q) {
                            let j = choose|j: int| 0 <= j < e.len() && (#[trigger] e[j]).0@ == q;
                            assert(old_e[j].0@ == q);
                        }
                    }
                    assert forall|q: Seq<char>| has_key(e, q) implies #[trigger] value_at(e, q) == (if q == kv { vv } else { value_at(old_e, q) }) by {
                        let j = choose|j: int| 0 <= j < e.len() && (#[trigger] e[j]).0@ == q;
                        lemma_value_at(e, j);
                        lemma_value_at(old_e, j);
                    }
                    assert(entries_view(e) =~= entries_view(old_e).insert(kv, vv));
                }
            },
            None => {
                self.entries.push((k, v));
                proof {
                    let e = self.entries@;
                    let n = old_e.len() as int;
                    assert(distinct_keys(e)) by {
                        assert forall|a: int, b: int| 0 <= a < e.len() && 0 <= b < e.len() && a != b implies (#[trigger] e[a]).0@ != (#[trigger] e[b]).0@ by {
                            if a < n && b < n {
                                assert(old_e[a].0@ != old_e[b].0@);
                            } else if a < n {
                                assert(old_e[a] == e[a]);
                            } else {
                                assert(old_e[b] == e[b]);
                            }
                        }
                    }
                    assert forall|q: Seq<char>| #[trigger] has_key(e, q) == (has_key(old_e, q) || q == kv) by {
                        if has_key(old_e, q) {
                            let j = choose|j: int| 0 <= j < old_e.len() && (#[trigger] old_e[j]).0@ == q;
                            assert(e[j].0@ == q);
                        }
                        if q == kv {
                            assert(e[n].0@ == q);
                        }
                        if has_key(e, q) {
                            let j = choose|j: int| 0 <= j < e.len() && (#[trigger] e[j]).0@ == q;
                            if j < n {
                                assert(old_e[j].0@ == q);
                            }
                        }
                    }
                    assert forall|q: Seq<char>| has_key(e, q) implies #[trigger] value_at(e, q) == (if q == kv { vv } else { value_at(old_e, q) }) by {
                        let j = choose|j: int| 0 <= j < e.len() && (#[trigger] e[j]).0@ == q;
                        lemma_value_at(e, j);
                        if j < n {
                            assert(old_e[j] == e[j]);
                            lemma_value_at(old_e, j);
                        }
                    }
                    assert(entries_view(e) =~= entries_view(old_e).insert(kv, vv));
                }
            },
        }
    }

    /// Removes `k` and returns its value.
    pub fn remove(&mut self, k: &str) -> (r: Option<V>)
        requires
            old(self).wf(),
        ensures
            final(self).wf(),
            final(self)@ == old(self)@.remove(k@),
            match r {
                Some(v) => old(self)@.contains_key(k@) && v@ == old(self)@[k@],
                None => !old(self)@.contains_key(k@),
            },
    {
        let ghost old_e = self.entries@;
        match self.find(k) {
            Some(i) => {
                proof {
                    lemma_value_at(old_e, i as int);
                }
                let (_key, v) = self.entries.remove(i);
                proof {
                    let e = self.entries@;
                    assert forall|m: int| 0 <= m < e.len() implies #[trigger] e[m] == old_e[if m < i { m } else { m + 1 }] by {}
                    assert(distinct_keys(e)) by {
                        assert forall|a: int, b: int| 0 <= a < e.len() && 0 <= b < e.len() && a != b implies (#[trigger] e[a]).0@ != (#[trigger] e[b]).0@ by {
                            let a2 = if a < i { a } else { a + 1 };
                            let b2 = if b < i { b } else { b + 1 };
                            assert(old_e[a2].0@ != old_e[b2].0@);
                        }
                    }
                    assert forall|q: Seq<char>| #[trigger] has_key(e, q) == (has_key(old_e, q) && q != k@) by {
                        if has_key(old_e, q) && q != k@ {
                            let j = choose|j: int| 0 <= j < old_e.len() && (#[trigger] old_e[j]).0@ == q;
                            if j < i {
                                assert(e[j].0@ == q);
                            } else {
                                assert(j != i);
                                assert(e[j - 1].0@ == q);
                            }
                        }
                        if has_key(e, q) {
                            let j = choose|j: int| 0 <= j < e.len() && (#[trigger] e[j]).0@ == q;
                            let j2 = if j < i { j } else { j + 1 };
                            assert(old_e[j2].0@ == q);
                            assert(old_e[i as int].0@ != old_e[j2].0@);
                        }
                    }
                    assert forall|q: Seq<char>| has_key(e, q) implies #[trigger] value_at(e, q) == value_at(old_e, q) by {
                        let j = choose|j: int| 0 <= j < e.len() && (#[trigger] e[j]).0@ == q;
                        lemma_value_at(e, j);
                        let j2 = if j < i { j } else { j + 1 };
                        lemma_value_at(old_e, j2);
                    }
                    assert(entries_view(e) =~= entries_view(old_e).remove(k@));
                }
                Some(v)
            },
            None => {
                assert(entries_view(old_e) =~= entries_view(old_e).remove(k@));
                None
            },
        }
    }

    /// Every key that starts with `prefix`, each once.
    pub fn keys_with_prefix(&self, prefix: &str) -> (r: Vec<String>)
        requires
            self.wf(),
        ensures
            forall|j: int| 0 <= j < r@.len() ==> self@.contains_key(#[trigger] r@[j]@) && prefix@.is_prefix_of(r@[j]@),
            forall|q: Seq<char>| self@.contains_key(q) && prefix@.is_prefix_of(q) ==> exists|j: int| 0 <= j < r@.len() && #[trigger] r@[j]@ == q,
            forall|a: int, b: int| 0 <= a < r@.len() && 0 <= b < r@.len() && a != b ==> r@[a]@ != r@[b]@,
    {
        let p = chars_of(prefix);
        let mut r: Vec<String> = Vec::new();
        let mut i: usize = 0;
        let ghost e = self.entries@;
        while i < self.entries.len()
            invariant
                i <= self.entries.len(),
                e == self.entries@,
                distinct_keys(e),
                p@ == prefix@,
                r@.len() <= i,
                forall|j: int| 0 <= j < r@.len() ==> exists|m: int| 0 <= m < i && (#[trigger] r@[j])@ == e[m].0@,
                forall|j: int| 0 <= j < r@.len() ==> prefix@.is_prefix_of(#[trigger] r@[j]@),
                forall|m: int| 0 <= m < i && prefix@.is_prefix_of((#[trigger] e[m]).0@) ==> exists|j: int| 0 <= j < r@.len() && r@[j]@ == e[m].0@,
                forall|a: int, b: int| 0 <= a < r@.len() && 0 <= b < r@.len() && a != b ==> r@[a]@ != r@[b]@,
            decreases self.entries.len() - i,
        {
            let kc = chars_of(self.entries[i].0.as_str());
            let ghost r0 = r@;
            let took = starts_with_exec(&kc, &p);
            if took {
                proof {
                    assert forall|j: int| 0 <= j < r@.len() implies r@[j]@ != e[i as int].0@ by {
                        let m = choose|m: int| 0 <= m < i && (#[trigger] r@[j])@ == e[m].0@;
                        assert(e[m].0@ != e[i as int].0@);
                    }
                }
                r.push(self.entries[i].0.clone());
            }
            proof {
                assert forall|m: int| 0 <= m < i + 1 && prefix@.is_prefix_of((#[trigger] e[m]).0@) implies exists|j: int| 0 <= j < r@.len() && r@[j]@ == e[m].0@ by {
                    if m < i {
                        let j = choose|j: int| 0 <= j < r0.len() && r0[j]@ == e[m].0@;
                        assert(r@[j] == r0[j]);
                    } else {
                        assert(took);
                        assert(r@[r@.len() - 1]@ == e[m].0@);
                    }
                }
                assert forall|j: int| 0 <= j < r@.len() implies exists|m: int| 0 <= m < i + 1 && (#[trigger] r@[j])@ == e[m].0@ by {
                    if j < r0.len() {
                        assert(r@[j] == r0[j]);
                        let m = choose|m: int| 0 <= m < i && (#[trigger] r0[j])@ == e[m].0@;
                    } else {
                        assert(r@[j]@ == e[i as int].0@);
                    }
                }
            }
            i = i + 1;
        }
        proof {
            assert forall|j: int| 0 <= j < r@.len() implies entries_view(e).contains_key(#[trigger] r@[j]@) by {
                let m = choose|m: int| 0 <= m < i && (#[trigger] r@[j])@ == e[m].0@;
                assert(has_key(e, r@[j]@));
            }
            assert forall|q: Seq<char>| entries_view(e).contains_key(q) && prefix@.is_prefix_of(q) implies exists|j: int| 0 <= j < r@.len() && #[trigger] r@[j]@ == q by {
                let m = choose|m: int| 0 <= m < e.len() && (#[trigger] e[m]).0@ == q;
                assert(prefix@.is_prefix_of(e[m].0@));
            }
        }
        r
    }
}

} // verus!
