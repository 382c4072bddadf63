//! Remembering where subspaces were: when an app window closes (or a
//! hibernating subspace's views are closed), each subspace's active tab URL
//! becomes its start page, so reopening lands on the same page.
use vstd::prelude::*;
use crate::config::update_subspace;
use crate::layout::{spec_subspace_key, subspace_key};
use crate::models::{
    app_pos, lemma_app_pos_found, lemma_app_pos_same_ids, lemma_sub_pos_found, lemma_sub_pos_same_ids, sub_pos, AppConfig,
    AppConfigV, SubspaceV, WebAppV,
};
use crate::state::{active_url, tab_pos, tabs_view, SubspaceTabs, SubspaceTabsV, TabRegistry};

verus! {

/// The URL of the active tab of an entry.
fn active_tab_url(t: &SubspaceTabs) -> (r: Option<String>)
    ensures
        match r {
            Some(u) => active_url(t@) == Some(u@),
            None => active_url(t@) is None,
        },
{
    let mut i: usize = 0;
    let ghost tv = tabs_view(t.tabs@);
    while i < t.tabs.len()
        invariant
            i <= t.tabs.len(),
            tv == tabs_view(t.tabs@),
            forall|k: int| 0 <= k < i ==> tv[k].id != t.active@,
        decreases t.tabs.len() - i,
    {
        if crate::text::str_eq(t.tabs[i].id.as_str(), t.active.as_str()) {
            proof {
                assert(crate::state::is_first_tab(tv, t.active@, i as int));
                let j = tab_pos(tv, t.active@);
                assert(crate::state::is_first_tab(tv, t.active@, j));
                if j < i {
                    assert(tv[j].id != t.active@);
                }
                if i < j {
                    assert(tv[i as int].id != t.active@);
                }
            }
            return Some(t.tabs[i].url.clone());
        }
        i = i + 1;
    }
    None
}

/// Saves a subspace's active tab URL as its start page. Returns whether
/// there was one (and so whether the configuration needs saving).
pub fn remember_subspace_start_url(
    registry: &TabRegistry,
    config: &mut AppConfig,
    app_id: &str,
    subspace_id: &str,
) -> (changed: bool)
    requires
        registry.wf(),
    ensures
        ({
            let key = spec_subspace_key(app_id@, subspace_id@);
            let url = if registry.view().contains_key(key) {
                active_url(registry.view()[key])
            } else {
                None
            };
            match url {
                Some(u) => changed && final(config)@ == update_subspace(
                    old(config)@,
                    app_id@,
                    subspace_id@,
                    |s: SubspaceV| SubspaceV { start_url: Some(u), ..s },
                ),
                None => !changed && final(config)@ == old(config)@,
            }
        }),
{
    let key = subspace_key(app_id, subspace_id);
    let url = match registry.0.get(key.as_str()) {
        Some(t) => active_tab_url(t),
        None => None,
    };
    match url {
        Some(u) => {
            config.remember_start_url(app_id, subspace_id, u);
            true
        },
        None => false,
    }
}

/// A subspace after the subspace ids in `done` were remembered: its start
/// page becomes the active tab URL of its registry entry (key `prefix` + id)
/// when it is the first subspace with its id, its id is in `done` and that
/// entry has an active tab.
pub open spec fn remembered_sub(
    subs: Seq<SubspaceV>,
    j: int,
    reg: Map<Seq<char>, SubspaceTabsV>,
    prefix: Seq<char>,
    done: Set<Seq<char>>,
) -> SubspaceV {
    let k = prefix + subs[j].id;
    if j == sub_pos(subs, subs[j].id) && done.contains(subs[j].id) && reg.contains_key(k) && active_url(reg[k]) is Some {
        SubspaceV { start_url: active_url(reg[k]), ..subs[j] }
    } else {
        subs[j]
    }
}

/// The configuration after remembering the subspaces in `done` of app `app_id`.
pub open spec fn remembered(
    c: AppConfigV,
    app_id: Seq<char>,
    reg: Map<Seq<char>, SubspaceTabsV>,
    done: Set<Seq<char>>,
) -> AppConfigV {
    let i = app_pos(c.apps, app_id);
    if i >= 0 {
        let a = c.apps[i];
        let prefix = app_id + "::"@;
        AppConfigV {
            apps: c.apps.update(
                i,
                WebAppV {
                    subspaces: Seq::new(a.subspaces.len(), |j: int| remembered_sub(a.subspaces, j, reg, prefix, done)),
                    ..a
                },
            ),
            ..c
        }
    } else {
        c
    }
}

/// The configuration after an app's window closed: each of its subspaces
/// (the first with its id) whose registry entry has an active tab starts on
/// that tab's URL next time.
pub open spec fn last_tabs_remembered(
    c: AppConfigV,
    app_id: Seq<char>,
    reg: Map<Seq<char>, SubspaceTabsV>,
) -> AppConfigV {
    remembered(c, app_id, reg, Set::full())
}

/// The registry keys of an app's subspaces.
pub open spec fn keys_of_app(reg: Map<Seq<char>, SubspaceTabsV>, app_id: Seq<char>) -> Set<Seq<char>> {
    reg.dom().filter(|k: Seq<char>| (app_id + "::"@).is_prefix_of(k))
}

/// Whether the registry entry of subspace `sid` has an active tab.
pub open spec fn has_active(reg: Map<Seq<char>, SubspaceTabsV>, prefix: Seq<char>, sid: Seq<char>) -> bool {
    reg.contains_key(prefix + sid) && active_url(reg[prefix + sid]) is Some
}

proof fn lemma_remembered_empty(c: AppConfigV, app_id: Seq<char>, reg: Map<Seq<char>, SubspaceTabsV>)
    ensures
        remembered(c, app_id, reg, Set::empty()) == c,
{
    let i = app_pos(c.apps, app_id);
    if i >= 0 {
        let a = c.apps[i];
        let prefix = app_id + "::"@;
        assert(a.subspaces =~= Seq::new(a.subspaces.len(), |j: int| remembered_sub(a.subspaces, j, reg, prefix, Set::empty())));
        assert(c.apps =~= c.apps.update(i, a));
    }
}

/// Only the subspaces whose entry has an active tab matter.
proof fn lemma_remembered_congruent(
    c: AppConfigV,
    app_id: Seq<char>,
    reg: Map<Seq<char>, SubspaceTabsV>,
    d1: Set<Seq<char>>,
    d2: Set<Seq<char>>,
)
    requires
        forall|x: Seq<char>| #[trigger] has_active(reg, app_id + "::"@, x) ==> (d1.contains(x) == d2.contains(x)),
    ensures
        remembered(c, app_id, reg, d1) == remembered(c, app_id, reg, d2),
{
    let i = app_pos(c.apps, app_id);
    if i >= 0 {
        let a = c.apps[i];
        let prefix = app_id + "::"@;
        assert forall|j: int| 0 <= j < a.subspaces.len() implies #[trigger] remembered_sub(a.subspaces, j, reg, prefix, d1)
            == remembered_sub(a.subspaces, j, reg, prefix, d2) by {
            if has_active(reg, prefix, a.subspaces[j].id) {
            }
        }
        assert(Seq::new(a.subspaces.len(), |j: int| remembered_sub(a.subspaces, j, reg, prefix, d1))
            =~= Seq::new(a.subspaces.len(), |j: int| remembered_sub(a.subspaces, j, reg, prefix, d2)));
    }
}

proof fn lemma_remember_step(
    c: AppConfigV,
    app_id: Seq<char>,
    reg: Map<Seq<char>, SubspaceTabsV>,
    done: Set<Seq<char>>,
    sid: Seq<char>,
    u: Seq<char>,
)
    requires
        reg.contains_key(app_id + "::"@ + sid),
        active_url(reg[app_id + "::"@ + sid]) == Some(u),
    ensures
        update_subspace(remembered(c, app_id, reg, done), app_id, sid, |s: SubspaceV| SubspaceV { start_url: Some(u), ..s })
            == remembered(c, app_id, reg, done.insert(sid)),
{
    let prefix = app_id + "::"@;
    let r0 = remembered(c, app_id, reg, done);
    let r1 = remembered(c, app_id, reg, done.insert(sid));
    let i = app_pos(c.apps, app_id);
    lemma_app_pos_found(c.apps, app_id);
    if i >= 0 {
        let a = c.apps[i];
        let subs0 = Seq::new(a.subspaces.len(), |j: int| remembered_sub(a.subspaces, j, reg, prefix, done));
        let subs1 = Seq::new(a.subspaces.len(), |j: int| remembered_sub(a.subspaces, j, reg, prefix, done.insert(sid)));
        assert(r0.apps[i].subspaces == subs0);
        assert forall|q: int| 0 <= q < c.apps.len() implies #[trigger] r0.apps[q].id == c.apps[q].id by {}
        lemma_app_pos_same_ids(r0.apps, c.apps, app_id);
        assert forall|q: int| 0 <= q < subs0.len() implies #[trigger] subs0[q].id == a.subspaces[q].id by {}
        lemma_sub_pos_same_ids(subs0, a.subspaces, sid);
        lemma_sub_pos_found(a.subspaces, sid);
        let j = sub_pos(a.subspaces, sid);
        if j >= 0 {
            let upd = subs0.update(j, SubspaceV { start_url: Some(u), ..subs0[j] });
            assert forall|q: int| 0 <= q < a.subspaces.len() implies #[trigger] upd[q] == subs1[q] by {
                lemma_sub_pos_found(a.subspaces, a.subspaces[q].id);
            }
            assert(upd =~= subs1);
            assert(r0.apps.update(i, WebAppV { subspaces: upd, ..r0.apps[i] }) =~= r1.apps);
        } else {
            assert forall|q: int| 0 <= q < a.subspaces.len() implies #[trigger] subs0[q] == subs1[q] by {
                lemma_sub_pos_found(a.subspaces, a.subspaces[q].id);
            }
            assert(subs0 =~= subs1);
        }
    }
}

/// When an app's window closes: every subspace of the app whose registry
/// entry has an active tab gets that tab's URL as its start page, and all of
/// the app's registry entries are dropped. Returns whether the app had any
/// entries (and so whether the configuration needs saving).
pub fn remember_last_tabs_and_clear(
    registry: &mut TabRegistry,
    config: &mut AppConfig,
    app_id: &str,
) -> (changed: bool)
    requires
        old(registry).wf(),
    ensures
        final(registry).wf(),
        final(config)@ == last_tabs_remembered(old(config)@, app_id@, old(registry).view()),
        final(registry).view() == old(registry).view().remove_keys(keys_of_app(old(registry).view(), app_id@)),
        changed == !keys_of_app(old(registry).view(), app_id@).is_empty(),
{
    let ghost reg = registry.view();
    let ghost prefix = app_id@ + "::"@;
    let mut p = String::from_str(app_id);
    p.append("::");
    let keys = registry.0.keys_with_prefix(p.as_str());
    let ghost all = keys_of_app(reg, app_id@);
    let ghost c0 = config@;
    let ghost mut done: Set<Seq<char>> = Set::empty();
    proof {
        lemma_remembered_empty(c0, app_id@, reg);
    }
    let plen = crate::text::chars_of(p.as_str()).len();
    let mut m: usize = 0;
    while m < keys.len()
        invariant
            m <= keys.len(),
            registry.wf(),
            registry.view() == reg,
            p@ == prefix,
            prefix == app_id@ + "::"@,
            plen == prefix.len(),
            forall|j: int| 0 <= j < keys@.len() ==> reg.contains_key(#[trigger] keys@[j]@) && prefix.is_prefix_of(keys@[j]@),
            forall|j: int| 0 <= j < m ==> done.contains(#[trigger] keys@[j]@.skip(plen as int)),
            config@ == remembered(c0, app_id@, reg, done),
        decreases keys.len() - m,
    {
        let ghost k = keys@[m as int]@;
        let ghost sid = k.skip(plen as int);
        let sid_chars = crate::text::chars_of(keys[m].as_str());
        let mut sid_str = String::new();
        let mut q: usize = plen;
        while q < sid_chars.len()
            invariant
                plen <= q <= sid_chars.len(),
                sid_chars@ == k,
                sid_str@ == k.subrange(plen as int, q as int),
            decreases sid_chars.len() - q,
        {
            crate::text::push_char(&mut sid_str, sid_chars[q]);
            assert(k.subrange(plen as int, q + 1) =~= k.subrange(plen as int, q as int).push(k[q as int]));
            q = q + 1;
        }
        assert(sid_str@ =~= sid);
        proof {
            assert(reg.contains_key(k) && prefix.is_prefix_of(k));
            assert(prefix + sid =~= k);
        }
        let url = match registry.0.get(keys[m].as_str()) {
            Some(t) => active_tab_url(t),
            None => None,
        };
        match url {
            Some(u) => {
                config.remember_start_url(app_id, sid_str.as_str(), u);
                proof {
                    lemma_remember_step(c0, app_id@, reg, done, sid, u@);
                }
            },
            None => {
                proof {
                    assert(!has_active(reg, prefix, sid));
                    assert forall|x: Seq<char>| #[trigger] has_active(reg, app_id@ + "::"@, x) implies (done.insert(sid).contains(x)
                        == done.contains(x)) by {
                        if x == sid {
                            assert(has_active(reg, prefix, sid));
                        }
                    }
                    lemma_remembered_congruent(c0, app_id@, reg, done.insert(sid), done);
                }
            },
        }
        proof {
            done = done.insert(sid);
        }
        m = m + 1;
    }
    proof {
        assert forall|x: Seq<char>| #[trigger] has_active(reg, prefix, x) implies (done.contains(x) == Set::<Seq<char>>::full().contains(x)) by {
            let k = prefix + x;
            assert(prefix.is_prefix_of(k));
            let j = choose|j: int| 0 <= j < keys@.len() && #[trigger] keys@[j]@ == k;
            assert(k.skip(plen as int) =~= x);
        }
        lemma_remembered_congruent(c0, app_id@, reg, done, Set::full());
    }
    let ghost mut removed: Set<Seq<char>> = Set::empty();
    let mut r: usize = 0;
    while r < keys.len()
        invariant
            r <= keys.len(),
            registry.wf(),
            prefix == app_id@ + "::"@,
            all == keys_of_app(reg, app_id@),
            forall|j: int| 0 <= j < keys@.len() ==> reg.contains_key(#[trigger] keys@[j]@) && prefix.is_prefix_of(keys@[j]@),
            forall|j: int| 0 <= j < r ==> removed.contains(#[trigger] keys@[j]@),
            forall|k: Seq<char>| removed.contains(k) ==> all.contains(k),
            registry.view() == reg.remove_keys(removed),
        decreases keys.len() - r,
    {
        registry.remove_subspace_key(keys[r].as_str());
        proof {
            let kr = keys@[r as int]@;
            assert(reg.dom().contains(kr) && (app_id@ + "::"@).is_prefix_of(kr));
            assert(all.contains(kr));
            assert(registry.view() =~= reg.remove_keys(removed.insert(keys@[r as int]@)));
            removed = removed.insert(keys@[r as int]@);
        }
        r = r + 1;
    }
    proof {
        assert(reg.remove_keys(removed) =~= reg.remove_keys(all)) by {
            assert forall|k: Seq<char>| all.contains(k) implies removed.contains(k) by {
                let j = choose|j: int| 0 <= j < keys@.len() && #[trigger] keys@[j]@ == k;
            }
        }
        if keys@.len() > 0 {
            assert(all.contains(keys@[0]@));
        } else {
            assert(all =~= Set::empty()) by {
                assert forall|k: Seq<char>| !all.contains(k) by {
                    if all.contains(k) {
                        let j = choose|j: int| 0 <= j < keys@.len() && #[trigger] keys@[j]@ == k;
                    }
                }
            }
        }
    }
    keys.len() > 0
}

} // verus!
