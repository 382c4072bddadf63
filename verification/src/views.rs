//! Which webviews of an app window are shown or hidden as the user moves
//! between subspaces and tabs, what a tab loads and where its session data
//! lives, and what a tab does with the links it is asked to follow.
use vstd::prelude::*;
use crate::layout::{
    spec_tab_label, spec_tab_prefix_for_app, spec_tab_prefix_for_subspace, spec_toolbar_label, spec_toolbar_prefix,
    tab_prefix_for_app, tab_prefix_for_subspace, toolbar_label, toolbar_prefix,
};
use crate::models::{app_pos, find_app, find_subspace, opt_view, sub_pos, AppConfig, AppConfigV};
use crate::paths::session_dir;
use crate::site::{find_value, first_value, query_pairs_of, scheme_and_host, url_query_pairs, url_scheme_and_host};
use crate::text::{chars_of, starts_with_exec, str_eq};

verus! {

/// Whether a label belongs to another subspace's toolbar or tabs of the
/// same app: those are hidden when `subspace_id` is shown.
pub open spec fn hidden_on_switch(label: Seq<char>, app_id: Seq<char>, subspace_id: Seq<char>) -> bool {
    ||| spec_toolbar_prefix(app_id).is_prefix_of(label) && label != spec_toolbar_label(app_id, subspace_id)
    ||| spec_tab_prefix_for_app(app_id).is_prefix_of(label) && !spec_tab_prefix_for_subspace(app_id, subspace_id).is_prefix_of(
        label,
    )
}

/// Whether a label is one of the app's toolbars or tabs: the lock overlay
/// hides them all.
pub open spec fn hidden_by_lock(label: Seq<char>, app_id: Seq<char>) -> bool {
    spec_toolbar_prefix(app_id).is_prefix_of(label) || spec_tab_prefix_for_app(app_id).is_prefix_of(label)
}

/// Whether a label is one of the subspace's tabs: all are hidden when a
/// new tab opens in front of them.
pub open spec fn hidden_on_new_tab(label: Seq<char>, app_id: Seq<char>, subspace_id: Seq<char>) -> bool {
    spec_tab_prefix_for_subspace(app_id, subspace_id).is_prefix_of(label)
}

/// Which of the three rules a filter applies.
pub enum HideRule {
    Switch,
    Lock,
    NewTab,
}

pub open spec fn hides(rule: HideRule, label: Seq<char>, app_id: Seq<char>, subspace_id: Seq<char>) -> bool {
    match rule {
        HideRule::Switch => hidden_on_switch(label, app_id, subspace_id),
        HideRule::Lock => hidden_by_lock(label, app_id),
        HideRule::NewTab => hidden_on_new_tab(label, app_id, subspace_id),
    }
}

fn hides_exec(rule: &HideRule, label: &str, app_id: &str, subspace_id: &str) -> (r: bool)
    ensures
        r == hides(*rule, label@, app_id@, subspace_id@),
{
    let l = chars_of(label);
    match rule {
        HideRule::Switch => {
            let tp = chars_of(toolbar_prefix(app_id).as_str());
            let tl = toolbar_label(app_id, subspace_id);
            let ap = chars_of(tab_prefix_for_app(app_id).as_str());
            let sp = chars_of(tab_prefix_for_subspace(app_id, subspace_id).as_str());
            (starts_with_exec(&l, &tp) && !str_eq(label, tl.as_str())) || (starts_with_exec(&l, &ap)
                && !starts_with_exec(&l, &sp))
        },
        HideRule::Lock => {
            let tp = chars_of(toolbar_prefix(app_id).as_str());
            let ap = chars_of(tab_prefix_for_app(app_id).as_str());
            starts_with_exec(&l, &tp) || starts_with_exec(&l, &ap)
        },
        HideRule::NewTab => {
            let sp = chars_of(tab_prefix_for_subspace(app_id, subspace_id).as_str());
            starts_with_exec(&l, &sp)
        },
    }
}

/// The labels, among the window's webviews, that `rule` hides, in order.
pub fn webviews_to_hide(labels: &Vec<String>, rule: HideRule, app_id: &str, subspace_id: &str) -> (r: Vec<String>)
    ensures
        r@.map_values(|s: String| s@) == labels@.map_values(|s: String| s@).filter(
            |l: Seq<char>| hides(rule, l, app_id@, subspace_id@),
        ),
{
    let ghost all = labels@.map_values(|s: String| s@);
    let ghost pred = |l: Seq<char>| hides(rule, l, app_id@, subspace_id@);
    let mut r: Vec<String> = Vec::new();
    let mut i: usize = 0;
    while i < labels.len()
        invariant
            i <= labels@.len(),
            all == labels@.map_values(|s: String| s@),
            pred == (|l: Seq<char>| hides(rule, l, app_id@, subspace_id@)),
            r@.map_values(|s: String| s@) == all.take(i as int).filter(pred),
        decreases labels@.len() - i,
    {
        proof {
            assert(all.take(i + 1) =~= all.take(i as int).push(all[i as int]));
            all.take(i as int).lemma_filter_push(all[i as int], pred);
        }
        if hides_exec(&rule, labels[i].as_str(), app_id, subspace_id) {
            let ghost before = r@.map_values(|s: String| s@);
            r.push(labels[i].clone());
            assert(r@.map_values(|s: String| s@) =~= before.push(all[i as int]));
        }
        i = i + 1;
    }
    assert(all.take(labels@.len() as int) =~= all);
    r
}

/// What a new tab of a subspace loads and where its session lives.
pub struct TabTarget {
    pub url: String,
    pub data_slug: String,
    pub session_group: String,
}

/// The model of `tab_target`: the URL asked for, else the subspace's start
/// page, else the app's URL; with the app's data slug and the subspace's
/// session group. "app not found" / "subspace not found" otherwise.
pub open spec fn tab_target_of(
    c: AppConfigV,
    app_id: Seq<char>,
    subspace_id: Seq<char>,
    url_override: Option<Seq<char>>,
) -> Result<(Seq<char>, Seq<char>, Seq<char>), Seq<char>> {
    let i = app_pos(c.apps, app_id);
    if i < 0 {
        Err("app not found"@)
    } else {
        let j = sub_pos(c.apps[i].subspaces, subspace_id);
        if j < 0 {
            Err("subspace not found"@)
        } else {
            let s = c.apps[i].subspaces[j];
            let default_url = match s.start_url {
                Some(u) => u,
                None => c.apps[i].url,
            };
            Ok(
                (
                    match url_override {
                        Some(u) => u,
                        None => default_url,
                    },
                    c.apps[i].data_slug,
                    s.session_group,
                ),
            )
        }
    }
}

pub fn tab_target(config: &AppConfig, app_id: &str, subspace_id: &str, url_override: Option<String>) -> (r: Result<
    TabTarget,
    String,
>)
    ensures
        match r {
            Ok(t) => tab_target_of(config@, app_id@, subspace_id@, opt_view(url_override)) == Ok::<
                (Seq<char>, Seq<char>, Seq<char>),
                Seq<char>,
            >((t.url@, t.data_slug@, t.session_group@)),
            Err(e) => tab_target_of(config@, app_id@, subspace_id@, opt_view(url_override)) == Err::<
                (Seq<char>, Seq<char>, Seq<char>),
                Seq<char>,
            >(e@),
        },
{
    let i = match find_app(&config.apps, app_id) {
        Some(i) => i,
        None => return Err(String::from_str("app not found")),
    };
    assert(config@.apps[i as int] == config.apps@[i as int]@);
    let app = &config.apps[i];
    let j = match find_subspace(&app.subspaces, subspace_id) {
        Some(j) => j,
        None => return Err(String::from_str("subspace not found")),
    };
    assert(config@.apps[i as int].subspaces[j as int] == app.subspaces@[j as int]@);
    let s = &app.subspaces[j];
    let url = match url_override {
        Some(u) => u,
        None => match &s.start_url {
            Some(u) => u.clone(),
            None => app.url.clone(),
        },
    };
    Ok(TabTarget { url, data_slug: app.data_slug.clone(), session_group: s.session_group.clone() })
}

/// The made-up scheme the page script sends modifier- and middle-clicked
/// links to, so that they open in a new tab.
pub const NEW_TAB_SCHEME: &'static str = "silos-newtab";

/// What a tab does with a navigation.
pub enum NavAction {
    /// Follow it (and record the tab's new URL).
    Allow,
    /// Do not follow it; open this URL in a new tab of the same subspace.
    OpenInNewTab(String),
    /// Do not follow it (a new-tab request without a target).
    Block,
}

/// The model of `navigation_action`: `None` to follow the navigation,
/// `Some(Some(u))` to open `u` in a new tab, `Some(None)` to drop it.
pub open spec fn navigation_of(nav_url: Seq<char>) -> Option<Option<Seq<char>>> {
    if url_scheme_and_host(nav_url) matches Ok((s, _)) && s == NEW_TAB_SCHEME@ {
        Some(first_value(url_query_pairs(nav_url), "url"@))
    } else {
        None
    }
}

pub fn navigation_action(nav_url: &str) -> (r: NavAction)
    ensures
        match r {
            NavAction::Allow => navigation_of(nav_url@) is None,
            NavAction::OpenInNewTab(u) => navigation_of(nav_url@) == Some(Some(u@)),
            NavAction::Block => navigation_of(nav_url@) == Some(None::<Seq<char>>),
        },
{
    let is_new_tab = match scheme_and_host(nav_url) {
        Ok((s, _)) => str_eq(s.as_str(), NEW_TAB_SCHEME),
        Err(_) => false,
    };
    if !is_new_tab {
        return NavAction::Allow;
    }
    let pairs = query_pairs_of(nav_url);
    match find_value(&pairs, "url") {
        Some(t) => NavAction::OpenInNewTab(t),
        None => NavAction::Block,
    }
}



/// What a tab does with a page's request for a new window.
pub enum NewWindowAction {
    /// Let it open as a real native popup window (a `window.open()` popup
    /// with its own size, which keeps its `window.opener`).
    OpenWindow,
    /// Open this URL as a new tab of the same subspace instead (a
    /// `target="_blank"` link, which asks for no popup size).
    OpenInNewTab(String),
}

/// Decides a new-window request: a popup that asks for a size opens as a
/// native window; anything else opens `url` in a new tab.
pub fn new_window_action(has_popup_size: bool, url: &str) -> (r: NewWindowAction)
    ensures
        match r {
            NewWindowAction::OpenWindow => has_popup_size,
            NewWindowAction::OpenInNewTab(u) => !has_popup_size && u@ == url@,
        },
{
    if has_popup_size {
        NewWindowAction::OpenWindow
    } else {
        NewWindowAction::OpenInNewTab(String::from_str(url))
    }
}

/// Switching to a subspace never hides its own toolbar or any of its own
/// tabs.
pub proof fn law_switch_keeps_target_visible(app_id: Seq<char>, subspace_id: Seq<char>, tab_id: Seq<char>)
    ensures
        !hidden_on_switch(spec_toolbar_label(app_id, subspace_id), app_id, subspace_id),
        !hidden_on_switch(spec_tab_label(app_id, subspace_id, tab_id), app_id, subspace_id),
{
    let t = spec_tab_label(app_id, subspace_id, tab_id);
    crate::layout::law_labels_carry_their_prefixes(app_id, subspace_id, tab_id);
    reveal_strlit("toolbar-");
    reveal_strlit("tab-");
    let p = spec_toolbar_prefix(app_id);
    assert(p[1] == 'o');
    assert(t[1] == 'a');
    assert(!p.is_prefix_of(t));
}

/// Subspaces share a session exactly when they share a session group: two
/// subspaces of one app with the same group get their tabs' session data
/// put in the same folder, and two with different groups get it asked for
/// under different group names of the same app folder.
pub proof fn law_session_folder_follows_group(
    c: AppConfigV,
    app_id: Seq<char>,
    s1: Seq<char>,
    s2: Seq<char>,
    u1: Option<Seq<char>>,
    u2: Option<Seq<char>>,
    webapps: Seq<char>,
)
    requires
        tab_target_of(c, app_id, s1, u1) is Ok,
        tab_target_of(c, app_id, s2, u2) is Ok,
    ensures
        ({
            let a = c.apps[app_pos(c.apps, app_id)];
            let g1 = a.subspaces[sub_pos(a.subspaces, s1)].session_group;
            let g2 = a.subspaces[sub_pos(a.subspaces, s2)].session_group;
            let t1 = tab_target_of(c, app_id, s1, u1)->Ok_0;
            let t2 = tab_target_of(c, app_id, s2, u2)->Ok_0;
            &&& t1.1 == a.data_slug && t2.1 == a.data_slug
            &&& t1.2 == g1 && t2.2 == g2
            &&& g1 == g2 ==> session_dir(webapps, t1.1, t1.2) == session_dir(webapps, t2.1, t2.2)
            &&& g1 != g2 ==> t1.1 == t2.1 && t1.2 != t2.2
        }),
{
}

} // verus!
