//! Session groups of an app: subspaces sharing a group share one browser
//! profile folder. Lists the distinct groups (first-seen order) with the
//! names of the subspaces in each, and what a session reset has to touch.
use vstd::prelude::*;
use crate::models::{app_pos, find_app, subs_view, AppConfig, AppConfigV, Subspace, SubspaceV};
use crate::text::{chars_eq, chars_of, push_all};

verus! {

/// One session group and the names of its subspaces, in subspace order.
pub type GroupEntry = (Seq<char>, Seq<Seq<char>>);

/// The distinct session groups of `subs` in order of first appearance, each
/// with the names of the subspaces in it.
pub open spec fn groups_of(subs: Seq<SubspaceV>) -> Seq<GroupEntry>
    decreases subs.len(),
{
    if subs.len() == 0 {
        Seq::empty()
    } else {
        let g = groups_of(subs.drop_last());
        let s = subs.last();
        if exists|j: int| 0 <= j < g.len() && g[j].0 == s.session_group {
            let j = choose|j: int| 0 <= j < g.len() && g[j].0 == s.session_group;
            g.update(j, (g[j].0, g[j].1.push(s.name)))
        } else {
            g.push((s.session_group, seq![s.name]))
        }
    }
}

/// No two entries share a group.
pub open spec fn distinct_groups(g: Seq<GroupEntry>) -> bool {
    forall|a: int, b: int| 0 <= a < g.len() && 0 <= b < g.len() && a != b ==> g[a].0 != g[b].0
}

/// The strings of `parts` joined with `sep` between them.
pub open spec fn join(parts: Seq<Seq<char>>, sep: Seq<char>) -> Seq<char>
    decreases parts.len(),
{
    if parts.len() == 0 {
        Seq::empty()
    } else if parts.len() == 1 {
        parts[0]
    } else {
        join(parts.drop_last(), sep) + sep + parts.last()
    }
}

/// Every group entry is some subspace's group.
pub open spec fn groups_sound(subs: Seq<SubspaceV>, g: Seq<GroupEntry>) -> bool {
    forall|j: int| 0 <= j < g.len() ==> exists|i: int| 0 <= i < subs.len() && subs[i].session_group == (#[trigger] g[j]).0
}

/// Every subspace's group has an entry.
pub open spec fn groups_complete(subs: Seq<SubspaceV>, g: Seq<GroupEntry>) -> bool {
    forall|i: int| 0 <= i < subs.len() ==> exists|j: int| 0 <= j < g.len() && g[j].0 == (#[trigger] subs[i]).session_group
}

pub proof fn lemma_groups_of(subs: Seq<SubspaceV>)
    ensures
        distinct_groups(groups_of(subs)),
        groups_sound(subs, groups_of(subs)),
        groups_complete(subs, groups_of(subs)),
    decreases subs.len(),
{
    if subs.len() > 0 {
        let prev = subs.drop_last();
        lemma_groups_of(prev);
        let g = groups_of(prev);
        let s = subs.last();
        let r = groups_of(subs);
        if exists|j: int| 0 <= j < g.len() && g[j].0 == s.session_group {
            let jj = choose|j: int| 0 <= j < g.len() && g[j].0 == s.session_group;
            assert(r.len() == g.len());
            assert forall|j: int| 0 <= j < r.len() implies r[j].0 == g[j].0 by {}
            assert forall|j: int| 0 <= j < r.len() implies exists|i: int| 0 <= i < subs.len() && subs[i].session_group == (#[trigger] r[j]).0 by {
                let i = choose|i: int| 0 <= i < prev.len() && prev[i].session_group == (#[trigger] g[j]).0;
                assert(subs[i] == prev[i]);
            }
            assert forall|i: int| 0 <= i < subs.len() implies exists|j: int| 0 <= j < r.len() && r[j].0 == (#[trigger] subs[i]).session_group by {
                if i < prev.len() {
                    assert(subs[i] == prev[i]);
                    let j = choose|j: int| 0 <= j < g.len() && g[j].0 == (#[trigger] prev[i]).session_group;
                    assert(r[j].0 == g[j].0);
                } else {
                    assert(r[jj].0 == g[jj].0);
                }
            }
        } else {
            assert(r == g.push((s.session_group, seq![s.name])));
            assert forall|j: int| 0 <= j < r.len() implies exists|i: int| 0 <= i < subs.len() && subs[i].session_group == (#[trigger] r[j]).0 by {
                if j < g.len() {
                    assert(r[j] == g[j]);
                    let i = choose|i: int| 0 <= i < prev.len() && prev[i].session_group == (#[trigger] g[j]).0;
                    assert(subs[i] == prev[i]);
                } else {
                    assert(subs[subs.len() - 1].session_group == r[j].0);
                }
            }
            assert forall|i: int| 0 <= i < subs.len() implies exists|j: int| 0 <= j < r.len() && r[j].0 == (#[trigger] subs[i]).session_group by {
                if i < prev.len() {
                    assert(subs[i] == prev[i]);
                    let j = choose|j: int| 0 <= j < g.len() && g[j].0 == (#[trigger] prev[i]).session_group;
                    assert(r[j] == g[j]);
                } else {
                    assert(r[r.len() - 1].0 == subs[i].session_group);
                }
            }
            assert forall|a: int, b: int| 0 <= a < r.len() && 0 <= b < r.len() && a != b implies r[a].0 != r[b].0 by {
                if a < g.len() && b < g.len() {
                } else if a < g.len() {
                    assert(r[a] == g[a]);
                } else if b < g.len() {
                    assert(r[b] == g[b]);
                }
            }
        }
    }
}

/// Position of the group `x` among distinct group entries.
fn find_group(keys: &Vec<Vec<char>>, x: &Vec<char>) -> (r: Option<usize>)
    ensures
        match r {
            Some(j) => j < keys@.len() && keys@[j as int]@ == x@,
            None => forall|k: int| 0 <= k < keys@.len() ==> (#[trigger] keys@[k])@ != x@,
        },
{
    let mut k: usize = 0;
    while k < keys.len()
        invariant
            k <= keys.len(),
            forall|m: int| 0 <= m < k ==> (#[trigger] keys@[m])@ != x@,
        decreases keys.len() - k,
    {
        if chars_eq(&keys[k], x) {
            return Some(k);
        }
        k = k + 1;
    }
    None
}

/// Computes `groups_of` for a list of subspaces.
pub fn compute_groups(subs: &Vec<Subspace>) -> (r: (Vec<Vec<char>>, Vec<Vec<Vec<char>>>))
    ensures
        r.0@.len() == r.1@.len(),
        r.0@.len() == groups_of(subs_view(subs@)).len(),
        forall|j: int| 0 <= j < r.0@.len() ==> (#[trigger] r.0@[j])@ == groups_of(subs_view(subs@))[j].0,
        forall|j: int| 0 <= j < r.1@.len() ==> (#[trigger] r.1@[j])@.map_values(|n: Vec<char>| n@)
            == groups_of(subs_view(subs@))[j].1,
{
    let ghost sv = subs_view(subs@);
    let mut keys: Vec<Vec<char>> = Vec::new();
    let mut names: Vec<Vec<Vec<char>>> = Vec::new();
    let mut i: usize = 0;
    while i < subs.len()
        invariant
            i <= subs.len(),
            sv == subs_view(subs@),
            keys@.len() == names@.len(),
            keys@.len() == groups_of(sv.take(i as int)).len(),
            forall|j: int| 0 <= j < keys@.len() ==> (#[trigger] keys@[j])@ == groups_of(sv.take(i as int))[j].0,
            forall|j: int| 0 <= j < names@.len() ==> (#[trigger] names@[j])@.map_values(|n: Vec<char>| n@)
                == groups_of(sv.take(i as int))[j].1,
        decreases subs.len() - i,
    {
        let ghost g = groups_of(sv.take(i as int));
        proof {
            lemma_groups_of(sv.take(i as int));
            assert(sv.take(i + 1).drop_last() =~= sv.take(i as int));
            assert(sv.take(i + 1).last() == sv[i as int]);
        }
        let group = chars_of(subs[i].session_group.as_str());
        let name = chars_of(subs[i].name.as_str());
        match find_group(&keys, &group) {
            Some(j) => {
                proof {
                    assert(g[j as int].0 == sv[i as int].session_group);
                    let jj = choose|jj: int| 0 <= jj < g.len() && g[jj].0 == sv[i as int].session_group;
                    if jj != j {
                        assert(g[jj].0 == g[j as int].0);
                    }
                }
                let ghost before = names@[j as int]@;
                names[j].push(name);
                proof {
                    let ng = groups_of(sv.take(i + 1));
                    assert(ng == g.update(j as int, (g[j as int].0, g[j as int].1.push(sv[i as int].name))));
                    assert(names@[j as int]@.map_values(|n: Vec<char>| n@) =~= before.map_values(|n: Vec<char>| n@).push(name@));
                }
            },
            None => {
                proof {
                    assert(!(exists|j: int| 0 <= j < g.len() && g[j].0 == sv[i as int].session_group)) by {
                        if exists|j: int| 0 <= j < g.len() && g[j].0 == sv[i as int].session_group {
                            let j = choose|j: int| 0 <= j < g.len() && g[j].0 == sv[i as int].session_group;
                            assert(keys@[j]@ == group@);
                        }
                    }
                }
                keys.push(group);
                let mut one: Vec<Vec<char>> = Vec::new();
                one.push(name);
                names.push(one);
                proof {
                    assert(names@.last()@.map_values(|n: Vec<char>| n@) =~= seq![sv[i as int].name]);
                }
            },
        }
        i = i + 1;
    }
    assert(sv.take(subs.len() as int) =~= sv);
    (keys, names)
}

/// `parts` joined with `sep`.
pub fn join_exec(parts: &Vec<Vec<char>>, sep: &Vec<char>) -> (r: Vec<char>)
    ensures
        r@ == join(parts@.map_values(|n: Vec<char>| n@), sep@),
{
    let ghost pv = parts@.map_values(|n: Vec<char>| n@);
    let mut r: Vec<char> = Vec::new();
    let mut i: usize = 0;
    while i < parts.len()
        invariant
            i <= parts.len(),
            pv == parts@.map_values(|n: Vec<char>| n@),
            r@ == join(pv.take(i as int), sep@),
        decreases parts.len() - i,
    {
        assert(pv.take(i + 1).drop_last() =~= pv.take(i as int));
        if i > 0 {
            let mut k: usize = 0;
            let ghost start = r@;
            while k < sep.len()
                invariant
                    k <= sep.len(),
                    r@ == start + sep@.take(k as int),
                decreases sep.len() - k,
            {
                r.push(sep[k]);
                assert(sep@.take(k + 1) =~= sep@.take(k as int).push(sep@[k as int]));
                k = k + 1;
            }
            assert(sep@.take(sep.len() as int) =~= sep@);
        }
        let ghost start2 = r@;
        let mut k: usize = 0;
        while k < parts[i].len()
            invariant
                i < parts.len(),
                k <= parts@[i as int].len(),
                r@ == start2 + parts@[i as int]@.take(k as int),
            decreases parts@[i as int].len() - k,
        {
            r.push(parts[i][k]);
            assert(parts@[i as int]@.take(k + 1) =~= parts@[i as int]@.take(k as int).push(parts@[i as int]@[k as int]));
            k = k + 1;
        }
        assert(parts@[i as int]@.take(parts@[i as int]@.len() as int) =~= parts@[i as int]@);
        proof {
            if i == 0 {
                assert(pv.take(1) =~= seq![pv[0]]);
                assert(r@ =~= pv[0]);
            } else {
                assert(r@ =~= join(pv.take(i as int), sep@) + sep@ + pv[i as int]);
            }
        }
        i = i + 1;
    }
    assert(pv.take(parts.len() as int) =~= pv);
    r
}

/// A session group offered when adding a subspace, labelled with the names
/// of the subspaces already in it.
pub struct SessionGroupInfo {
    pub group: String,
    pub label: String,
}

impl AppConfig {
    /// The app's distinct session groups, in order of first appearance, each
    /// labelled with its subspaces' names joined by ", " (none when the app
    /// does not exist).
    pub fn list_session_groups(&self, app_id: &str) -> (r: Vec<SessionGroupInfo>)
        ensures
            ({
                let i = app_pos(self@.apps, app_id@);
                if i < 0 {
                    r@.len() == 0
                } else {
                    let g = groups_of(self@.apps[i].subspaces);
                    &&& r@.len() == g.len()
                    &&& forall|j: int| 0 <= j < r@.len() ==> (#[trigger] r@[j]).group@ == g[j].0 && r@[j].label@
                        == join(g[j].1, ", "@)
                }
            }),
    {
        let mut out: Vec<SessionGroupInfo> = Vec::new();
        let i = match find_app(&self.apps, app_id) {
            Some(i) => i,
            None => return out,
        };
        let (keys, names) = compute_groups(&self.apps[i].subspaces);
        let sep = chars_of(", ");
        let mut j: usize = 0;
        while j < keys.len()
            invariant
                j <= keys.len(),
                keys@.len() == names@.len(),
                out@.len() == j,
                forall|m: int| 0 <= m < j ==> (#[trigger] out@[m]).group@ == keys@[m]@ && out@[m].label@ == join(
                    names@[m]@.map_values(|n: Vec<char>| n@),
                    sep@,
                ),
            decreases keys.len() - j,
        {
            let label = join_exec(&names[j], &sep);
            out.push(SessionGroupInfo {
                group: crate::text::string_of(&keys[j]),
                label: crate::text::string_of(&label),
            });
            j = j + 1;
        }
        out
    }

    /// What resetting an app's sessions touches: its data slug, its distinct
    /// session groups (first-appearance order) and its subspace ids in order;
    /// "app not found" when there is no such app.
    pub fn session_reset_plan(&self, app_id: &str) -> (r: Result<(String, Vec<String>, Vec<String>), String>)
        ensures
            ({
                let i = app_pos(self@.apps, app_id@);
                match r {
                    Ok(t) => i >= 0 && t.0@ == self@.apps[i].data_slug && t.1@.len() == groups_of(
                        self@.apps[i].subspaces,
                    ).len() && (forall|j: int| 0 <= j < t.1@.len() ==> (#[trigger] t.1@[j])@ == groups_of(
                        self@.apps[i].subspaces,
                    )[j].0) && t.2@.len() == self@.apps[i].subspaces.len() && (forall|j: int|
                        0 <= j < t.2@.len() ==> (#[trigger] t.2@[j])@ == self@.apps[i].subspaces[j].id),
                    Err(e) => i < 0 && e@ == "app not found"@,
                }
            }),
    {
        let i = match find_app(&self.apps, app_id) {
            Some(i) => i,
            None => return Err(String::from_str("app not found")),
        };
        let (keys, _names) = compute_groups(&self.apps[i].subspaces);
        let mut groups: Vec<String> = Vec::new();
        let mut j: usize = 0;
        while j < keys.len()
            invariant
                j <= keys.len(),
                groups@.len() == j,
                forall|m: int| 0 <= m < j ==> (#[trigger] groups@[m])@ == keys@[m]@,
            decreases keys.len() - j,
        {
            groups.push(crate::text::string_of(&keys[j]));
            j = j + 1;
        }
        let mut ids: Vec<String> = Vec::new();
        let mut k: usize = 0;
        let n = self.apps[i].subspaces.len();
        while k < n
            invariant
                i < self.apps.len(),
                n == self.apps@[i as int].subspaces@.len(),
                k <= n,
                ids@.len() == k,
                forall|m: int| 0 <= m < k ==> (#[trigger] ids@[m])@ == self.apps@[i as int].subspaces@[m].id@,
            decreases n - k,
        {
            ids.push(self.apps[i].subspaces[k].id.clone());
            k = k + 1;
        }
        Ok((self.apps[i].data_slug.clone(), groups, ids))
    }
}

/// The session groups listed for an app are exactly the groups its
/// subspaces use, each listed once.
pub proof fn law_session_groups_listed_once(subs: Seq<SubspaceV>)
    ensures
        distinct_groups(groups_of(subs)),
        groups_sound(subs, groups_of(subs)),
        groups_complete(subs, groups_of(subs)),
{
    lemma_groups_of(subs);
}

} // verus!
