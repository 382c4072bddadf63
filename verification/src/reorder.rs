//! Reordering an app's subspaces after a drag in the sidebar: a stable sort
//! by each subspace's position in the requested id order, unlisted ones last.
use vstd::prelude::*;
use crate::config::update_app;
use crate::models::{app_pos, apps_view, find_app, subs_view, AppConfig, AppConfigV, Subspace, SubspaceV, WebAppV};
use crate::text::str_eq;

verus! {

/// The position of the first `x` in `ids`, or `ids.len()` when `x` is not
/// there (the sort key; any listed position sorts before "not listed").
pub open spec fn order_key(ids: Seq<Seq<char>>, x: Seq<char>) -> nat
    decreases ids.len(),
{
    if ids.len() == 0 {
        0
    } else if ids[0] == x {
        0
    } else {
        1 + order_key(ids.drop_first(), x)
    }
}

/// The subspaces of `subs` whose key is `k`, in the order they stand in `subs`.
pub open spec fn with_key(subs: Seq<SubspaceV>, ids: Seq<Seq<char>>, k: nat) -> Seq<SubspaceV>
    decreases subs.len(),
{
    if subs.len() == 0 {
        Seq::empty()
    } else {
        let rest = with_key(subs.drop_last(), ids, k);
        if order_key(ids, subs.last().id) == k {
            rest.push(subs.last())
        } else {
            rest
        }
    }
}

/// The subspaces with keys below `k`: key 0 first, then key 1, ..., each
/// group in the order it stands in `subs`.
pub open spec fn keys_below(subs: Seq<SubspaceV>, ids: Seq<Seq<char>>, k: nat) -> Seq<SubspaceV>
    decreases k,
{
    if k == 0 {
        Seq::empty()
    } else {
        keys_below(subs, ids, (k - 1) as nat) + with_key(subs, ids, (k - 1) as nat)
    }
}

/// `subs` stably sorted by `order_key`: what `sort_by_key` with the position
/// in `ids` (unlisted last) produces.
pub open spec fn reordered(subs: Seq<SubspaceV>, ids: Seq<Seq<char>>) -> Seq<SubspaceV> {
    keys_below(subs, ids, ids.len() + 1)
}

proof fn lemma_order_key(ids: Seq<Seq<char>>, x: Seq<char>, i: int)
    requires
        0 <= i <= ids.len(),
        forall|k: int| 0 <= k < i ==> ids[k] != x,
        i == ids.len() || ids[i] == x,
    ensures
        order_key(ids, x) == i,
    decreases i,
{
    if i > 0 {
        let t = ids.drop_first();
        assert forall|k: int| 0 <= k < i - 1 implies t[k] != x by {
            assert(t[k] == ids[k + 1]);
        }
        if i < ids.len() {
            assert(t[i - 1] == ids[i]);
        }
        assert(ids[0] != x);
        lemma_order_key(t, x, i - 1);
    }
}

proof fn lemma_order_key_bound(ids: Seq<Seq<char>>, x: Seq<char>)
    ensures
        order_key(ids, x) <= ids.len(),
    decreases ids.len(),
{
    if ids.len() > 0 {
        lemma_order_key_bound(ids.drop_first(), x);
    }
}

fn key_of(ids: &Vec<String>, id: &str) -> (k: usize)
    ensures
        k as nat == order_key(ids@.map_values(|s: String| s@), id@),
{
    let ghost iv = ids@.map_values(|s: String| s@);
    let mut i: usize = 0;
    while i < ids.len()
        invariant
            i <= ids.len(),
            iv == ids@.map_values(|s: String| s@),
            forall|k: int| 0 <= k < i ==> iv[k] != id@,
        decreases ids.len() - i,
    {
        if str_eq(ids[i].as_str(), id) {
            proof {
                lemma_order_key(iv, id@, i as int);
            }
            return i;
        }
        i = i + 1;
    }
    proof {
        lemma_order_key(iv, id@, i as int);
    }
    i
}

/// Appends, in order, the subspaces whose key is `k`.
fn push_with_key(out: &mut Vec<Subspace>, subs: &Vec<Subspace>, keys: &Vec<usize>, k: usize, Ghost(ids): Ghost<Seq<Seq<char>>>)
    requires
        keys@.len() == subs@.len(),
        forall|j: int| 0 <= j < keys@.len() ==> keys@[j] as nat == order_key(ids, (#[trigger] subs@[j]).id@),
    ensures
        subs_view(final(out)@) == subs_view(old(out)@) + with_key(subs_view(subs@), ids, k as nat),
{
    let ghost start = subs_view(out@);
    let ghost sv = subs_view(subs@);
    let mut j: usize = 0;
    while j < subs.len()
        invariant
            j <= subs.len(),
            keys@.len() == subs@.len(),
            sv == subs_view(subs@),
            forall|m: int| 0 <= m < keys@.len() ==> keys@[m] as nat == order_key(ids, (#[trigger] subs@[m]).id@),
            subs_view(out@) == start + with_key(sv.take(j as int), ids, k as nat),
        decreases subs.len() - j,
    {
        assert(sv.take(j + 1).drop_last() =~= sv.take(j as int));
        assert(sv[j as int].id == subs@[j as int].id@);
        if keys[j] == k {
            let ghost prev = out@;
            let c = subs[j].copy();
            out.push(c);
            assert(subs_view(out@) =~= subs_view(prev).push(sv[j as int]));
            assert(subs_view(out@) =~= start + with_key(sv.take(j as int), ids, k as nat).push(sv[j as int]));
        }
        j = j + 1;
    }
    assert(sv.take(subs.len() as int) =~= sv);
}

/// The subspaces of `subs` stably sorted by their position in `ids`.
pub fn reorder(subs: &Vec<Subspace>, ids: &Vec<String>) -> (r: Vec<Subspace>)
    ensures
        subs_view(r@) == reordered(subs_view(subs@), ids@.map_values(|s: String| s@)),
{
    let ghost iv = ids@.map_values(|s: String| s@);
    let mut keys: Vec<usize> = Vec::new();
    let mut j: usize = 0;
    while j < subs.len()
        invariant
            j <= subs.len(),
            iv == ids@.map_values(|s: String| s@),
            keys@.len() == j,
            forall|m: int| 0 <= m < j ==> keys@[m] as nat == order_key(iv, (#[trigger] subs@[m]).id@),
        decreases subs.len() - j,
    {
        keys.push(key_of(ids, subs[j].id.as_str()));
        j = j + 1;
    }
    let mut out: Vec<Subspace> = Vec::new();
    let mut k: usize = 0;
    while k < ids.len()
        invariant
            k <= ids.len(),
            iv == ids@.map_values(|s: String| s@),
            keys@.len() == subs@.len(),
            forall|m: int| 0 <= m < keys@.len() ==> keys@[m] as nat == order_key(iv, (#[trigger] subs@[m]).id@),
            subs_view(out@) == keys_below(subs_view(subs@), iv, k as nat),
        decreases ids.len() - k,
    {
        push_with_key(&mut out, subs, &keys, k, Ghost(iv));
        k = k + 1;
    }
    push_with_key(&mut out, subs, &keys, k, Ghost(iv));
    out
}

impl AppConfig {
    /// Reorders the first app `app_id`'s subspaces by their position in
    /// `subspace_ids`; subspaces whose id is not listed keep their relative
    /// order after all listed ones.
    pub fn reorder_subspaces(&mut self, app_id: &str, subspace_ids: &Vec<String>)
        ensures
            final(self)@ == update_app(
                old(self)@,
                app_id@,
                |a: WebAppV| WebAppV { subspaces: reordered(a.subspaces, subspace_ids@.map_values(|s: String| s@)), ..a },
            ),
    {
        if let Some(i) = find_app(&self.apps, app_id) {
            let sorted = reorder(&self.apps[i].subspaces, subspace_ids);
            self.apps[i].subspaces = sorted;
            proof {
                assert(apps_view(self.apps@) =~= apps_view(old(self).apps@).update(i as int, self.apps@[i as int]@));
            }
        }
    }
}

/// Number of occurrences of `x` in `s`.
pub open spec fn count_of(s: Seq<SubspaceV>, x: SubspaceV) -> nat
    decreases s.len(),
{
    if s.len() == 0 {
        0
    } else {
        count_of(s.drop_last(), x) + if s.last() == x {
            1nat
        } else {
            0nat
        }
    }
}

proof fn lemma_count_concat(a: Seq<SubspaceV>, b: Seq<SubspaceV>, x: SubspaceV)
    ensures
        count_of(a + b, x) == count_of(a, x) + count_of(b, x),
    decreases b.len(),
{
    if b.len() == 0 {
        assert(a + b =~= a);
    } else {
        assert((a + b).drop_last() =~= a + b.drop_last());
        lemma_count_concat(a, b.drop_last(), x);
    }
}

proof fn lemma_count_with_key(subs: Seq<SubspaceV>, ids: Seq<Seq<char>>, k: nat, x: SubspaceV)
    ensures
        count_of(with_key(subs, ids, k), x) == if order_key(ids, x.id) == k {
            count_of(subs, x)
        } else {
            0
        },
    decreases subs.len(),
{
    if subs.len() > 0 {
        lemma_count_with_key(subs.drop_last(), ids, k, x);
        let rest = with_key(subs.drop_last(), ids, k);
        assert(rest.push(subs.last()).drop_last() =~= rest);
        assert(rest.push(subs.last()).last() == subs.last());
    }
}

proof fn lemma_count_keys_below(subs: Seq<SubspaceV>, ids: Seq<Seq<char>>, k: nat, x: SubspaceV)
    ensures
        count_of(keys_below(subs, ids, k), x) == if order_key(ids, x.id) < k {
            count_of(subs, x)
        } else {
            0
        },
    decreases k,
{
    if k > 0 {
        lemma_count_keys_below(subs, ids, (k - 1) as nat, x);
        lemma_count_concat(keys_below(subs, ids, (k - 1) as nat), with_key(subs, ids, (k - 1) as nat), x);
        lemma_count_with_key(subs, ids, (k - 1) as nat, x);
    }
}

/// Reordering never adds, drops or duplicates a subspace: every subspace
/// occurs as often after it as before, whatever id list is given.
pub proof fn law_reorder_is_permutation(subs: Seq<SubspaceV>, ids: Seq<Seq<char>>, x: SubspaceV)
    ensures
        count_of(reordered(subs, ids), x) == count_of(subs, x),
{
    lemma_order_key_bound(ids, x.id);
    lemma_count_keys_below(subs, ids, ids.len() + 1, x);
}

} // verus!
