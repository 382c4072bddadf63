//! Per-window runtime state: which subspace is showing in each app window,
//! which apps sit in the tray or are locked again, and the open tabs of
//! every subspace (keyed "app_id::subspace_id").
use vstd::prelude::*;
use crate::keyed::KeyedList;
use crate::layout::{spec_subspace_key, subspace_key};
use crate::text::{chars_of, str_eq};

verus! {

/// Which subspace is showing in each app window (app id -> subspace id).
pub struct ActiveSubspaces(pub KeyedList<String>);

/// Apps hidden in the tray: their window still exists but is not shown.
pub struct BackgroundApps(pub KeyedList<()>);

/// Apps that need their PIN again although their window still exists.
pub struct LockedApps(pub KeyedList<()>);

impl ActiveSubspaces {
    pub open spec fn wf(&self) -> bool {
        self.0.wf()
    }

    pub open spec fn view(&self) -> Map<Seq<char>, Seq<char>> {
        self.0@
    }

    pub fn new() -> (r: ActiveSubspaces)
        ensures
            r.wf(),
            r.view() == Map::<Seq<char>, Seq<char>>::empty(),
    {
        ActiveSubspaces(KeyedList::new())
    }

    /// The subspace showing in an app's window, if one was selected.
    pub fn get(&self, app_id: &str) -> (r: Option<String>)
        requires
            self.wf(),
        ensures
            match r {
                Some(s) => self.view().contains_key(app_id@) && s@ == self.view()[app_id@],
                None => !self.view().contains_key(app_id@),
            },
    {
        match self.0.get(app_id) {
            Some(s) => Some(s.clone()),
            None => None,
        }
    }

    /// Records the subspace now showing in an app's window.
    pub fn set(&mut self, app_id: String, subspace_id: String)
        requires
            old(self).wf(),
        ensures
            final(self).wf(),
            final(self).view() == old(self).view().insert(app_id@, subspace_id@),
    {
        self.0.insert(app_id, subspace_id);
    }
}

impl BackgroundApps {
    pub open spec fn wf(&self) -> bool {
        self.0.wf()
    }

    pub open spec fn view(&self) -> Set<Seq<char>> {
        self.0@.dom()
    }

    pub fn new() -> (r: BackgroundApps)
        ensures
            r.wf(),
            r.view() == Set::<Seq<char>>::empty(),
    {
        let r = BackgroundApps(KeyedList::new());
        assert(r.view() =~= Set::<Seq<char>>::empty());
        r
    }

    pub fn contains(&self, app_id: &str) -> (b: bool)
        ensures
            b == self.view().contains(app_id@),
    {
        self.0.contains_key(app_id)
    }

    pub fn insert(&mut self, app_id: String)
        requires
            old(self).wf(),
        ensures
            final(self).wf(),
            final(self).view() == old(self).view().insert(app_id@),
    {
        self.0.insert(app_id, ());
        assert(self.view() =~= old(self).view().insert(app_id@));
    }

    pub fn remove(&mut self, app_id: &str)
        requires
            old(self).wf(),
        ensures
            final(self).wf(),
            final(self).view() == old(self).view().remove(app_id@),
    {
        self.0.remove(app_id);
        assert(self.view() =~= old(self).view().remove(app_id@));
    }
}

impl LockedApps {
    pub open spec fn wf(&self) -> bool {
        self.0.wf()
    }

    pub open spec fn view(&self) -> Set<Seq<char>> {
        self.0@.dom()
    }

    pub fn new() -> (r: LockedApps)
        ensures
            r.wf(),
            r.view() == Set::<Seq<char>>::empty(),
    {
        let r = LockedApps(KeyedList::new());
        assert(r.view() =~= Set::<Seq<char>>::empty());
        r
    }

    pub fn contains(&self, app_id: &str) -> (b: bool)
        ensures
            b == self.view().contains(app_id@),
    {
        self.0.contains_key(app_id)
    }

    pub fn insert(&mut self, app_id: String)
        requires
            old(self).wf(),
        ensures
            final(self).wf(),
            final(self).view() == old(self).view().insert(app_id@),
    {
        self.0.insert(app_id, ());
        assert(self.view() =~= old(self).view().insert(app_id@));
    }

    pub fn remove(&mut self, app_id: &str)
        requires
            old(self).wf(),
        ensures
            final(self).wf(),
            final(self).view() == old(self).view().remove(app_id@),
    {
        self.0.remove(app_id);
        assert(self.view() =~= old(self).view().remove(app_id@));
    }
}

pub struct TabInfo {
    pub id: String,
    pub url: String,
    pub title: String,
}

pub struct SubspaceTabs {
    pub tabs: Vec<TabInfo>,
    pub active: String,
}

pub ghost struct TabInfoV {
    pub id: Seq<char>,
    pub url: Seq<char>,
    pub title: Seq<char>,
}

pub ghost struct SubspaceTabsV {
    pub tabs: Seq<TabInfoV>,
    pub active: Seq<char>,
}

impl View for TabInfo {
    type V = TabInfoV;

    open spec fn view(&self) -> TabInfoV {
        TabInfoV { id: self.id@, url: self.url@, title: self.title@ }
    }
}

pub open spec fn tabs_view(t: Seq<TabInfo>) -> Seq<TabInfoV> {
    t.map_values(|x: TabInfo| x@)
}

impl View for SubspaceTabs {
    type V = SubspaceTabsV;

    open spec fn view(&self) -> SubspaceTabsV {
        SubspaceTabsV { tabs: tabs_view(self.tabs@), active: self.active@ }
    }
}

impl TabInfo {
    pub fn copy(&self) -> (r: TabInfo)
        ensures
            r@ == self@,
    {
        TabInfo { id: self.id.clone(), url: self.url.clone(), title: self.title.clone() }
    }
}

pub fn copy_tabs(v: &Vec<TabInfo>) -> (r: Vec<TabInfo>)
    ensures
        tabs_view(r@) == tabs_view(v@),
{
    let mut r: Vec<TabInfo> = Vec::new();
    let mut i: usize = 0;
    while i < v.len()
        invariant
            i <= v.len(),
            tabs_view(r@) == tabs_view(v@.take(i as int)),
        decreases v.len() - i,
    {
        r.push(v[i].copy());
        assert(tabs_view(v@.take(i + 1)) =~= tabs_view(v@.take(i as int)).push(v@[i as int]@));
        assert(tabs_view(r@) =~= tabs_view(v@.take(i + 1)));
        i = i + 1;
    }
    assert(v@.take(v.len() as int) =~= v@);
    r
}

impl Default for SubspaceTabs {
    fn default() -> (r: SubspaceTabs)
        ensures
            r@.tabs.len() == 0,
            r@.active.len() == 0,
    {
        SubspaceTabs { tabs: Vec::new(), active: String::new() }
    }
}

/// Title of a freshly opened tab until its page reports one.
pub open spec fn new_tab_title() -> Seq<char> {
    "Nuova scheda"@
}

/// Position of the first tab with id `id`, or -1.
pub open spec fn tab_pos(tabs: Seq<TabInfoV>, id: Seq<char>) -> int {
    if exists|i: int| is_first_tab(tabs, id, i) {
        choose|i: int| is_first_tab(tabs, id, i)
    } else {
        -1
    }
}

pub open spec fn is_first_tab(tabs: Seq<TabInfoV>, id: Seq<char>, i: int) -> bool {
    &&& 0 <= i < tabs.len()
    &&& tabs[i].id == id
    &&& forall|k: int| 0 <= k < i ==> tabs[k].id != id
}

proof fn lemma_tab_pos(tabs: Seq<TabInfoV>, id: Seq<char>, i: int)
    requires
        is_first_tab(tabs, id, i),
    ensures
        tab_pos(tabs, id) == i,
{
    let j = tab_pos(tabs, id);
    assert(is_first_tab(tabs, id, j));
    if j < i {
        assert(tabs[j].id != id);
    }
    if i < j {
        assert(tabs[i].id != id);
    }
}

/// The URL of the active tab, when the active id names one of the tabs.
pub open spec fn active_url(t: SubspaceTabsV) -> Option<Seq<char>> {
    let i = tab_pos(t.tabs, t.active);
    if i >= 0 {
        Some(t.tabs[i].url)
    } else {
        None
    }
}

/// `tabs` without the tabs whose id is `id`.
pub open spec fn without_tab(tabs: Seq<TabInfoV>, id: Seq<char>) -> Seq<TabInfoV>
    decreases tabs.len(),
{
    if tabs.len() == 0 {
        Seq::empty()
    } else {
        let rest = without_tab(tabs.drop_last(), id);
        if tabs.last().id != id {
            rest.push(tabs.last())
        } else {
            rest
        }
    }
}

/// The tabs of a subspace after closing `tab_id`, and the tab that is active
/// afterwards: the closed tab's neighbor at the same position (or the last
/// tab) when the closed tab was active, otherwise the same one as before.
pub open spec fn after_close(t: SubspaceTabsV, tab_id: Seq<char>) -> SubspaceTabsV {
    let rest = without_tab(t.tabs, tab_id);
    let p = tab_pos(t.tabs, tab_id);
    let from = if p >= 0 {
        p
    } else {
        0
    };
    let fallback = if from < rest.len() - 1 {
        from
    } else {
        rest.len() - 1
    };
    SubspaceTabsV {
        tabs: rest,
        active: if t.active == tab_id {
            rest[fallback].id
        } else {
            t.active
        },
    }
}

fn find_tab(tabs: &Vec<TabInfo>, id: &str) -> (r: Option<usize>)
    ensures
        match r {
            Some(i) => i as int == tab_pos(tabs_view(tabs@), id@) && i < tabs@.len(),
            None => tab_pos(tabs_view(tabs@), id@) == -1,
        },
{
    let ghost tv = tabs_view(tabs@);
    let mut i: usize = 0;
    while i < tabs.len()
        invariant
            i <= tabs.len(),
            tv == tabs_view(tabs@),
            forall|k: int| 0 <= k < i ==> tv[k].id != id@,
        decreases tabs.len() - i,
    {
        if str_eq(tabs[i].id.as_str(), id) {
            proof {
                lemma_tab_pos(tv, id@, i as int);
            }
            return Some(i);
        }
        i = i + 1;
    }
    None
}

/// Open tabs per subspace, keyed by `subspace_key(app_id, subspace_id)`.
pub struct TabRegistry(pub KeyedList<SubspaceTabs>);

impl TabRegistry {
    pub open spec fn wf(&self) -> bool {
        self.0.wf()
    }

    pub open spec fn view(&self) -> Map<Seq<char>, SubspaceTabsV> {
        self.0@
    }

    pub fn new() -> (r: TabRegistry)
        ensures
            r.wf(),
            r.view() == Map::<Seq<char>, SubspaceTabsV>::empty(),
    {
        TabRegistry(KeyedList::new())
    }

    /// The open tabs of a subspace (none when it has no entry).
    pub fn get_tabs(&self, app_id: &str, subspace_id: &str) -> (r: Vec<TabInfo>)
        requires
            self.wf(),
        ensures
            ({
                let key = spec_subspace_key(app_id@, subspace_id@);
                if self.view().contains_key(key) {
                    tabs_view(r@) == self.view()[key].tabs
                } else {
                    r@.len() == 0
                }
            }),
    {
        let key = subspace_key(app_id, subspace_id);
        match self.0.get(key.as_str()) {
            Some(t) => copy_tabs(&t.tabs),
            None => Vec::new(),
        }
    }

    /// The id of a subspace's active tab, when it has an entry.
    pub fn get_active_tab(&self, app_id: &str, subspace_id: &str) -> (r: Option<String>)
        requires
            self.wf(),
        ensures
            ({
                let key = spec_subspace_key(app_id@, subspace_id@);
                match r {
                    Some(a) => self.view().contains_key(key) && a@ == self.view()[key].active,
                    None => !self.view().contains_key(key),
                }
            }),
    {
        let key = subspace_key(app_id, subspace_id);
        match self.0.get(key.as_str()) {
            Some(t) => Some(t.active.clone()),
            None => None,
        }
    }

    /// Records a newly opened tab as the subspace's last and active tab.
    pub fn add_tab(&mut self, app_id: &str, subspace_id: &str, tab_id: String, url: String)
        requires
            old(self).wf(),
        ensures
            final(self).wf(),
            ({
                let key = spec_subspace_key(app_id@, subspace_id@);
                let before = if old(self).view().contains_key(key) {
                    old(self).view()[key].tabs
                } else {
                    Seq::empty()
                };
                final(self).view() == old(self).view().insert(
                    key,
                    SubspaceTabsV {
                        tabs: before.push(TabInfoV { id: tab_id@, url: url@, title: new_tab_title() }),
                        active: tab_id@,
                    },
                )
            }),
    {
        let key = subspace_key(app_id, subspace_id);
        let mut entry = match self.0.remove(key.as_str()) {
            Some(t) => t,
            None => SubspaceTabs::default(),
        };
        let ghost before = tabs_view(entry.tabs@);
        let ghost k = key@;
        assert(before =~= (if old(self).view().contains_key(k) {
            old(self).view()[k].tabs
        } else {
            Seq::empty()
        }));
        let ghost tv = TabInfoV { id: tab_id@, url: url@, title: new_tab_title() };
        entry.tabs.push(TabInfo { id: tab_id.clone(), url: url, title: String::from_str("Nuova scheda") });
        entry.active = tab_id;
        assert(tabs_view(entry.tabs@) =~= before.push(tv));
        let ghost ev = entry@;
        self.0.insert(key, entry);
        assert(self.view() =~= old(self).view().insert(k, ev));
    }

    /// Makes `tab_id` the active tab of a subspace that has an entry.
    pub fn switch_tab(&mut self, app_id: &str, subspace_id: &str, tab_id: String)
        requires
            old(self).wf(),
        ensures
            final(self).wf(),
            ({
                let key = spec_subspace_key(app_id@, subspace_id@);
                if old(self).view().contains_key(key) {
                    final(self).view() == old(self).view().insert(
                        key,
                        SubspaceTabsV { active: tab_id@, ..old(self).view()[key] },
                    )
                } else {
                    final(self).view() == old(self).view()
                }
            }),
    {
        let key = subspace_key(app_id, subspace_id);
        match self.0.remove(key.as_str()) {
            Some(mut t) => {
                t.active = tab_id;
                self.0.insert(key, t);
                assert(self.view() =~= old(self).view().insert(
                    spec_subspace_key(app_id@, subspace_id@),
                    SubspaceTabsV { active: tab_id@, ..old(self).view()[spec_subspace_key(app_id@, subspace_id@)] },
                ));
            },
            None => {
                assert(self.view() =~= old(self).view());
            },
        }
    }

    /// Closes a tab of a subspace. "subspace has no tabs" when the subspace
    /// has no entry; `Ok(None)` (nothing closed) when it is down to its last
    /// tab; otherwise the tab is dropped and the id of the tab active
    /// afterwards is returned, which is one of the remaining tabs whenever
    /// the active tab was one of the tabs before.
    pub fn close_tab(&mut self, app_id: &str, subspace_id: &str, tab_id: &str) -> (r: Result<Option<String>, String>)
        requires
            old(self).wf(),
            ({
                let key = spec_subspace_key(app_id@, subspace_id@);
                old(self).view().contains_key(key) && old(self).view()[key].tabs.len() > 1 ==> exists|i: int|
                    0 <= i < old(self).view()[key].tabs.len() && (#[trigger] old(self).view()[key].tabs[i]).id != tab_id@
            }),
        ensures
            final(self).wf(),
            ({
                let key = spec_subspace_key(app_id@, subspace_id@);
                if !old(self).view().contains_key(key) {
                    r matches Err(e) && e@ == "subspace has no tabs"@ && final(self).view() == old(self).view()
                } else if old(self).view()[key].tabs.len() <= 1 {
                    r matches Ok(None) && final(self).view() == old(self).view()
                } else {
                    let t = after_close(old(self).view()[key], tab_id@);
                    r matches Ok(Some(a)) && a@ == t.active && final(self).view() == old(self).view().insert(key, t)
                }
            }),
            ({
                let key = spec_subspace_key(app_id@, subspace_id@);
                let e = old(self).view()[key];
                let e2 = final(self).view()[key];
                old(self).view().contains_key(key) && e.tabs.len() > 1 && (exists|i: int|
                    0 <= i < e.tabs.len() && (#[trigger] e.tabs[i]).id == e.active) ==> {
                    &&& exists|j: int| 0 <= j < e2.tabs.len() && (#[trigger] e2.tabs[j]).id == e2.active
                    &&& forall|j: int| 0 <= j < e2.tabs.len() ==> (#[trigger] e2.tabs[j]).id != tab_id@
                }
            }),
    {
        let key = subspace_key(app_id, subspace_id);
        let ghost k = key@;
        let entry = match self.0.remove(key.as_str()) {
            Some(t) => t,
            None => {
                return Err(String::from_str("subspace has no tabs"));
            },
        };
        if entry.tabs.len() <= 1 {
            let ghost ev = entry@;
            self.0.insert(key, entry);
            assert(self.view() =~= old(self).view());
            return Ok(None);
        }
        let ghost tv = tabs_view(entry.tabs@);
        let closing_index = find_tab(&entry.tabs, tab_id);
        let mut rest: Vec<TabInfo> = Vec::new();
        let mut i: usize = 0;
        while i < entry.tabs.len()
            invariant
                i <= entry.tabs.len(),
                tv == tabs_view(entry.tabs@),
                tabs_view(rest@) == without_tab(tv.take(i as int), tab_id@),
            decreases entry.tabs.len() - i,
        {
            assert(tv.take(i + 1).drop_last() =~= tv.take(i as int));
            if !str_eq(entry.tabs[i].id.as_str(), tab_id) {
                let ghost r0 = rest@;
                rest.push(entry.tabs[i].copy());
                assert(tabs_view(rest@) =~= tabs_view(r0).push(tv[i as int]));
            }
            i = i + 1;
        }
        assert(tv.take(entry.tabs.len() as int) =~= tv);
        proof {
            let rv = without_tab(tv, tab_id@);
            lemma_without_tab_nonempty(tv, tab_id@);
        }
        let active = if str_eq(entry.active.as_str(), tab_id) {
            let from = match closing_index {
                Some(c) => c,
                None => 0,
            };
            let last = rest.len() - 1;
            let fallback = if from < last {
                from
            } else {
                last
            };
            rest[fallback].id.clone()
        } else {
            entry.active.clone()
        };
        let result = active.clone();
        let ghost before = old(self).view()[k];
        let new_entry = SubspaceTabs { tabs: rest, active: active };
        self.0.insert(key, new_entry);
        proof {
            assert(self.view()[k] == after_close(before, tab_id@));
            if exists|i: int| 0 <= i < before.tabs.len() && (#[trigger] before.tabs[i]).id == before.active {
                law_closing_a_tab_keeps_an_active_one(before, tab_id@);
            }
        }
        Ok(Some(result))
    }

    /// Records a tab's new URL (first tab with that id), when its subspace
    /// has an entry.
    pub fn set_tab_url(&mut self, app_id: &str, subspace_id: &str, tab_id: &str, url: String)
        requires
            old(self).wf(),
        ensures
            final(self).wf(),
            ({
                let key = spec_subspace_key(app_id@, subspace_id@);
                if old(self).view().contains_key(key) && tab_pos(old(self).view()[key].tabs, tab_id@) >= 0 {
                    let t = old(self).view()[key];
                    let p = tab_pos(t.tabs, tab_id@);
                    final(self).view() == old(self).view().insert(
                        key,
                        SubspaceTabsV { tabs: t.tabs.update(p, TabInfoV { url: url@, ..t.tabs[p] }), ..t },
                    )
                } else {
                    final(self).view() == old(self).view()
                }
            }),
    {
        let key = subspace_key(app_id, subspace_id);
        match self.0.remove(key.as_str()) {
            Some(mut t) => {
                let ghost tv = tabs_view(t.tabs@);
                match find_tab(&t.tabs, tab_id) {
                    Some(p) => {
                        t.tabs[p].url = url;
                        assert(tabs_view(t.tabs@) =~= tv.update(p as int, TabInfoV { url: t.tabs@[p as int].url@, ..tv[p as int] }));
                    },
                    None => {},
                }
                let ghost tvv = t@;
                self.0.insert(key, t);
                assert(self.view() =~= old(self).view().insert(spec_subspace_key(app_id@, subspace_id@), tvv));
                proof {
                    if tab_pos(tv, tab_id@) < 0 {
                        assert(tvv == old(self).view()[spec_subspace_key(app_id@, subspace_id@)]);
                        assert(self.view() =~= old(self).view());
                    }
                }
            },
            None => {
                assert(self.view() =~= old(self).view());
            },
        }
    }

    /// Records a tab's new page title (first tab with that id), when its
    /// subspace has an entry.
    pub fn set_tab_title(&mut self, app_id: &str, subspace_id: &str, tab_id: &str, title: String)
        requires
            old(self).wf(),
        ensures
            final(self).wf(),
            ({
                let key = spec_subspace_key(app_id@, subspace_id@);
                if old(self).view().contains_key(key) && tab_pos(old(self).view()[key].tabs, tab_id@) >= 0 {
                    let t = old(self).view()[key];
                    let p = tab_pos(t.tabs, tab_id@);
                    final(self).view() == old(self).view().insert(
                        key,
                        SubspaceTabsV { tabs: t.tabs.update(p, TabInfoV { title: title@, ..t.tabs[p] }), ..t },
                    )
                } else {
                    final(self).view() == old(self).view()
                }
            }),
    {
        let key = subspace_key(app_id, subspace_id);
        match self.0.remove(key.as_str()) {
            Some(mut t) => {
                let ghost tv = tabs_view(t.tabs@);
                match find_tab(&t.tabs, tab_id) {
                    Some(p) => {
                        t.tabs[p].title = title;
                        assert(tabs_view(t.tabs@) =~= tv.update(p as int, TabInfoV { title: t.tabs@[p as int].title@, ..tv[p as int] }));
                    },
                    None => {},
                }
                let ghost tvv = t@;
                self.0.insert(key, t);
                assert(self.view() =~= old(self).view().insert(spec_subspace_key(app_id@, subspace_id@), tvv));
                proof {
                    if tab_pos(tv, tab_id@) < 0 {
                        assert(tvv == old(self).view()[spec_subspace_key(app_id@, subspace_id@)]);
                        assert(self.view() =~= old(self).view());
                    }
                }
            },
            None => {
                assert(self.view() =~= old(self).view());
            },
        }
    }

    /// Forgets the entry with this registry key.
    pub fn remove_subspace_key(&mut self, key: &str)
        requires
            old(self).wf(),
        ensures
            final(self).wf(),
            final(self).view() == old(self).view().remove(key@),
    {
        self.0.remove(key);
    }

    /// Forgets every tab of a subspace (its views were closed).
    pub fn remove_subspace(&mut self, app_id: &str, subspace_id: &str)
        requires
            old(self).wf(),
        ensures
            final(self).wf(),
            final(self).view() == old(self).view().remove(spec_subspace_key(app_id@, subspace_id@)),
    {
        let key = subspace_key(app_id, subspace_id);
        self.0.remove(key.as_str());
    }
}

proof fn lemma_without_tab_nonempty(tabs: Seq<TabInfoV>, id: Seq<char>)
    requires
        exists|i: int| 0 <= i < tabs.len() && (#[trigger] tabs[i]).id != id,
    ensures
        without_tab(tabs, id).len() > 0,
    decreases tabs.len(),
{
    if tabs.last().id == id {
        let i = choose|i: int| 0 <= i < tabs.len() && (#[trigger] tabs[i]).id != id;
        assert(tabs.drop_last()[i] == tabs[i]);
        lemma_without_tab_nonempty(tabs.drop_last(), id);
    }
}


proof fn lemma_without_tab_keeps(tabs: Seq<TabInfoV>, id: Seq<char>, k: int)
    requires
        0 <= k < tabs.len(),
        tabs[k].id != id,
    ensures
        exists|j: int| 0 <= j < without_tab(tabs, id).len() && without_tab(tabs, id)[j] == tabs[k],
    decreases tabs.len(),
{
    let rest = without_tab(tabs.drop_last(), id);
    let w = without_tab(tabs, id);
    if tabs.last().id != id {
        assert(w == rest.push(tabs.last()));
    } else {
        assert(w == rest);
    }
    if k == tabs.len() - 1 {
        assert(w[rest.len() as int] == tabs[k]);
    } else {
        assert(tabs.drop_last()[k] == tabs[k]);
        lemma_without_tab_keeps(tabs.drop_last(), id, k);
        let j = choose|j: int| 0 <= j < rest.len() && rest[j] == tabs[k];
        assert(w[j] == rest[j]);
    }
}

/// Closing a tab that is not the active one keeps the active tab, and
/// closing any tab removes exactly the tabs with that id, keeping the order
/// of the others.
pub proof fn law_closing_a_background_tab_keeps_the_active_one(t: SubspaceTabsV, tab_id: Seq<char>)
    ensures
        t.active != tab_id ==> after_close(t, tab_id).active == t.active,
        after_close(t, tab_id).tabs == t.tabs.filter(|x: TabInfoV| x.id != tab_id),
{
    lemma_without_tab_is_filter(t.tabs, tab_id);
}

proof fn lemma_without_tab_is_filter(tabs: Seq<TabInfoV>, id: Seq<char>)
    ensures
        without_tab(tabs, id) == tabs.filter(|x: TabInfoV| x.id != id),
    decreases tabs.len(),
{
    reveal(Seq::filter);
    if tabs.len() > 0 {
        lemma_without_tab_is_filter(tabs.drop_last(), id);
    }
}

/// The URL remembered for a subspace is the URL of its active tab: of the
/// first tab whose id is the active id; there is none when no tab has it.
pub proof fn law_active_url_is_the_active_tabs(t: SubspaceTabsV)
    ensures
        forall|u: Seq<char>| #[trigger] active_url(t) == Some(u) ==> exists|i: int|
            0 <= i < t.tabs.len() && t.tabs[i].id == t.active && t.tabs[i].url == u && forall|k: int|
                0 <= k < i ==> #[trigger] t.tabs[k].id != t.active,
        active_url(t) is None <==> forall|i: int| 0 <= i < t.tabs.len() ==> #[trigger] t.tabs[i].id != t.active,
{
    let i = tab_pos(t.tabs, t.active);
    if i >= 0 {
        assert(is_first_tab(t.tabs, t.active, i));
    } else {
        assert forall|j: int| 0 <= j < t.tabs.len() implies #[trigger] t.tabs[j].id != t.active by {
            if t.tabs[j].id == t.active {
                lemma_first_tab_exists(t.tabs, t.active, j);
            }
        }
    }
}

proof fn lemma_first_tab_exists(tabs: Seq<TabInfoV>, id: Seq<char>, j: int)
    requires
        0 <= j < tabs.len(),
        tabs[j].id == id,
    ensures
        tab_pos(tabs, id) >= 0,
    decreases j,
{
    if exists|k: int| 0 <= k < j && tabs[k].id == id {
        let k = choose|k: int| 0 <= k < j && tabs[k].id == id;
        lemma_first_tab_exists(tabs, id, k);
    } else {
        assert(is_first_tab(tabs, id, j));
    }
}

/// Closing a tab never leaves a subspace without an active tab: when the
/// active tab is one of the subspace's tabs and some tab other than the
/// closed one remains, the active tab afterwards is one of the remaining
/// tabs, and the closed tab is gone.
pub proof fn law_closing_a_tab_keeps_an_active_one(t: SubspaceTabsV, tab_id: Seq<char>)
    requires
        exists|i: int| 0 <= i < t.tabs.len() && (#[trigger] t.tabs[i]).id == t.active,
        exists|i: int| 0 <= i < t.tabs.len() && (#[trigger] t.tabs[i]).id != tab_id,
    ensures
        ({
            let a = after_close(t, tab_id);
            &&& exists|j: int| 0 <= j < a.tabs.len() && (#[trigger] a.tabs[j]).id == a.active
            &&& forall|j: int| 0 <= j < a.tabs.len() ==> (#[trigger] a.tabs[j]).id != tab_id
        }),
{
    let a = after_close(t, tab_id);
    lemma_without_tab_nonempty(t.tabs, tab_id);
    lemma_without_tab_excludes(t.tabs, tab_id);
    if t.active == tab_id {
        let rest = without_tab(t.tabs, tab_id);
        let p = tab_pos(t.tabs, tab_id);
        let from = if p >= 0 { p } else { 0 };
        let fallback = if from < rest.len() - 1 { from } else { rest.len() - 1 };
        assert(0 <= fallback < rest.len()) by {
            if p >= 0 {
                lemma_tab_pos_found(t.tabs, tab_id);
            }
        }
        assert(a.tabs[fallback].id == a.active);
    } else {
        let i = choose|i: int| 0 <= i < t.tabs.len() && (#[trigger] t.tabs[i]).id == t.active;
        lemma_without_tab_keeps(t.tabs, tab_id, i);
        let j = choose|j: int| 0 <= j < a.tabs.len() && a.tabs[j] == t.tabs[i];
        assert(a.tabs[j].id == a.active);
    }
}

proof fn lemma_without_tab_excludes(tabs: Seq<TabInfoV>, id: Seq<char>)
    ensures
        forall|j: int| 0 <= j < without_tab(tabs, id).len() ==> (#[trigger] without_tab(tabs, id)[j]).id != id,
    decreases tabs.len(),
{
    if tabs.len() > 0 {
        let rest = without_tab(tabs.drop_last(), id);
        let w = without_tab(tabs, id);
        lemma_without_tab_excludes(tabs.drop_last(), id);
        if tabs.last().id != id {
            assert(w == rest.push(tabs.last()));
            assert forall|j: int| 0 <= j < w.len() implies (#[trigger] w[j]).id != id by {
                if j < rest.len() {
                    assert(w[j] == rest[j]);
                }
            }
        } else {
            assert(w == rest);
        }
    }
}

proof fn lemma_tab_pos_found(tabs: Seq<TabInfoV>, id: Seq<char>)
    ensures
        tab_pos(tabs, id) >= 0 ==> tab_pos(tabs, id) < tabs.len(),
{
}

} // verus!
