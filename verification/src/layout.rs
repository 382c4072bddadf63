//! Window and webview label naming: every label for a given app (its window,
//! sidebar, per-subspace toolbar and tabs, popups) is built here, so other
//! code can find all of an app's or a subspace's webviews by label prefix.
use vstd::prelude::*;

verus! {

pub const SIDEBAR_WIDTH_COLLAPSED_PX: u32 = 72;

pub const SIDEBAR_WIDTH_EXPANDED_PX: u32 = 260;

pub const TOOLBAR_HEIGHT_PX: u32 = 76;

pub open spec fn spec_tray_id(app_id: Seq<char>) -> Seq<char> {
    "tray-"@ + app_id
}

pub open spec fn spec_subspace_key(app_id: Seq<char>, subspace_id: Seq<char>) -> Seq<char> {
    app_id + "::"@ + subspace_id
}

pub open spec fn spec_app_window_label(app_id: Seq<char>) -> Seq<char> {
    "app-"@ + app_id
}

pub open spec fn spec_sidebar_label(app_id: Seq<char>) -> Seq<char> {
    "sidebar-"@ + app_id
}

pub open spec fn spec_toolbar_prefix(app_id: Seq<char>) -> Seq<char> {
    "toolbar-"@ + app_id + "-"@
}

pub open spec fn spec_toolbar_label(app_id: Seq<char>, subspace_id: Seq<char>) -> Seq<char> {
    spec_toolbar_prefix(app_id) + subspace_id
}

pub open spec fn spec_tab_prefix_for_app(app_id: Seq<char>) -> Seq<char> {
    "tab-"@ + app_id + "-"@
}

pub open spec fn spec_tab_prefix_for_subspace(app_id: Seq<char>, subspace_id: Seq<char>) -> Seq<
    char,
> {
    spec_tab_prefix_for_app(app_id) + subspace_id + "-"@
}

pub open spec fn spec_tab_label(app_id: Seq<char>, subspace_id: Seq<char>, tab_id: Seq<char>) -> Seq<
    char,
> {
    spec_tab_prefix_for_subspace(app_id, subspace_id) + tab_id
}

pub open spec fn spec_settings_window_label(app_id: Seq<char>, subspace_id: Seq<char>) -> Seq<
    char,
> {
    "settings-"@ + app_id + "-"@ + subspace_id
}

pub open spec fn spec_add_popup_label(app_id: Seq<char>) -> Seq<char> {
    "addpopup-"@ + app_id
}

pub open spec fn spec_quit_confirm_label(app_id: Seq<char>) -> Seq<char> {
    "quitconfirm-"@ + app_id
}

pub open spec fn spec_app_settings_window_label(app_id: Seq<char>) -> Seq<char> {
    "appsettings-"@ + app_id
}

pub open spec fn spec_lock_overlay_label(app_id: Seq<char>) -> Seq<char> {
    "lockoverlay-"@ + app_id
}

/// Label of the standalone global settings window.
pub fn global_settings_label() -> (r: String)
    ensures
        r@ == "global-settings"@,
{
    String::from_str("global-settings")
}

/// Tray icon id of a backgrounded app.
pub fn tray_id_for_app(app_id: &str) -> (r: String)
    ensures
        r@ == spec_tray_id(app_id@),
{
    let mut r = String::from_str("tray-");
    r.append(app_id);
    r
}

/// Key of a subspace's entry in the tab registry.
pub fn subspace_key(app_id: &str, subspace_id: &str) -> (r: String)
    ensures
        r@ == spec_subspace_key(app_id@, subspace_id@),
{
    let mut r = String::from_str(app_id);
    r.append("::");
    r.append(subspace_id);
    r
}

pub fn app_window_label(app_id: &str) -> (r: String)
    ensures
        r@ == spec_app_window_label(app_id@),
{
    let mut r = String::from_str("app-");
    r.append(app_id);
    r
}

pub fn sidebar_label(app_id: &str) -> (r: String)
    ensures
        r@ == spec_sidebar_label(app_id@),
{
    let mut r = String::from_str("sidebar-");
    r.append(app_id);
    r
}

pub fn toolbar_label(app_id: &str, subspace_id: &str) -> (r: String)
    ensures
        r@ == spec_toolbar_label(app_id@, subspace_id@),
{
    let mut r = toolbar_prefix(app_id);
    r.append(subspace_id);
    r
}

pub fn toolbar_prefix(app_id: &str) -> (r: String)
    ensures
        r@ == spec_toolbar_prefix(app_id@),
{
    let mut r = String::from_str("toolbar-");
    r.append(app_id);
    r.append("-");
    r
}

pub fn tab_label(app_id: &str, subspace_id: &str, tab_id: &str) -> (r: String)
    ensures
        r@ == spec_tab_label(app_id@, subspace_id@, tab_id@),
{
    let mut r = tab_prefix_for_subspace(app_id, subspace_id);
    r.append(tab_id);
    r
}

pub fn tab_prefix_for_app(app_id: &str) -> (r: String)
    ensures
        r@ == spec_tab_prefix_for_app(app_id@),
{
    let mut r = String::from_str("tab-");
    r.append(app_id);
    r.append("-");
    r
}

pub fn tab_prefix_for_subspace(app_id: &str, subspace_id: &str) -> (r: String)
    ensures
        r@ == spec_tab_prefix_for_subspace(app_id@, subspace_id@),
{
    let mut r = tab_prefix_for_app(app_id);
    r.append(subspace_id);
    r.append("-");
    r
}

pub fn settings_window_label(app_id: &str, subspace_id: &str) -> (r: String)
    ensures
        r@ == spec_settings_window_label(app_id@, subspace_id@),
{
    let mut r = String::from_str("settings-");
    r.append(app_id);
    r.append("-");
    r.append(subspace_id);
    r
}

pub fn add_popup_label(app_id: &str) -> (r: String)
    ensures
        r@ == spec_add_popup_label(app_id@),
{
    let mut r = String::from_str("addpopup-");
    r.append(app_id);
    r
}

pub fn quit_confirm_label(app_id: &str) -> (r: String)
    ensures
        r@ == spec_quit_confirm_label(app_id@),
{
    let mut r = String::from_str("quitconfirm-");
    r.append(app_id);
    r
}

pub fn app_settings_window_label(app_id: &str) -> (r: String)
    ensures
        r@ == spec_app_settings_window_label(app_id@),
{
    let mut r = String::from_str("appsettings-");
    r.append(app_id);
    r
}

pub fn lock_overlay_label(app_id: &str) -> (r: String)
    ensures
        r@ == spec_lock_overlay_label(app_id@),
{
    let mut r = String::from_str("lockoverlay-");
    r.append(app_id);
    r
}

/// Every tab label of a subspace starts with that subspace's tab prefix, which
/// in turn starts with its app's tab prefix, and every toolbar label of an
/// app starts with the app's toolbar prefix: hiding, showing and closing
/// webviews "by prefix" reaches exactly the tabs and toolbars built here.
pub proof fn law_labels_carry_their_prefixes(
    app_id: Seq<char>,
    subspace_id: Seq<char>,
    tab_id: Seq<char>,
)
    ensures
        spec_tab_prefix_for_subspace(app_id, subspace_id).is_prefix_of(
            spec_tab_label(app_id, subspace_id, tab_id),
        ),
        spec_tab_prefix_for_app(app_id).is_prefix_of(
            spec_tab_prefix_for_subspace(app_id, subspace_id),
        ),
        spec_tab_prefix_for_app(app_id).is_prefix_of(spec_tab_label(app_id, subspace_id, tab_id)),
        spec_toolbar_prefix(app_id).is_prefix_of(spec_toolbar_label(app_id, subspace_id)),
{
    let p = spec_tab_prefix_for_subspace(app_id, subspace_id);
    let q = spec_tab_prefix_for_app(app_id);
    assert(p.is_prefix_of(p + tab_id)) by {
        assert forall|k: int| 0 <= k < p.len() implies p[k] == (p + tab_id)[k] by {}
    }
    assert(q.is_prefix_of(q + subspace_id + "-"@)) by {
        assert forall|k: int| 0 <= k < q.len() implies q[k] == (q + subspace_id + "-"@)[k] by {}
    }
    let l = spec_tab_label(app_id, subspace_id, tab_id);
    assert(q.is_prefix_of(l)) by {
        assert forall|k: int| 0 <= k < q.len() implies q[k] == l[k] by {
            assert(l[k] == p[k]);
        }
    }
    let t = spec_toolbar_prefix(app_id);
    assert(t.is_prefix_of(t + subspace_id)) by {
        assert forall|k: int| 0 <= k < t.len() implies t[k] == (t + subspace_id)[k] by {}
    }
}

proof fn lemma_prefix_cancel(p: Seq<char>, a: Seq<char>, b: Seq<char>)
    requires
        p + a == p + b,
    ensures
        a == b,
{
    assert(a =~= (p + a).skip(p.len() as int));
    assert(b =~= (p + b).skip(p.len() as int));
}

/// Labels of one kind never coincide for two different apps, so each app
/// gets its own window, sidebar, tray icon, popups and overlay.
pub proof fn law_app_labels_injective(a: Seq<char>, b: Seq<char>)
    requires
        a != b,
    ensures
        spec_app_window_label(a) != spec_app_window_label(b),
        spec_sidebar_label(a) != spec_sidebar_label(b),
        spec_tray_id(a) != spec_tray_id(b),
        spec_add_popup_label(a) != spec_add_popup_label(b),
        spec_quit_confirm_label(a) != spec_quit_confirm_label(b),
        spec_app_settings_window_label(a) != spec_app_settings_window_label(b),
        spec_lock_overlay_label(a) != spec_lock_overlay_label(b),
{
    if spec_app_window_label(a) == spec_app_window_label(b) {
        lemma_prefix_cancel("app-"@, a, b);
    }
    if spec_sidebar_label(a) == spec_sidebar_label(b) {
        lemma_prefix_cancel("sidebar-"@, a, b);
    }
    if spec_tray_id(a) == spec_tray_id(b) {
        lemma_prefix_cancel("tray-"@, a, b);
    }
    if spec_add_popup_label(a) == spec_add_popup_label(b) {
        lemma_prefix_cancel("addpopup-"@, a, b);
    }
    if spec_quit_confirm_label(a) == spec_quit_confirm_label(b) {
        lemma_prefix_cancel("quitconfirm-"@, a, b);
    }
    if spec_app_settings_window_label(a) == spec_app_settings_window_label(b) {
        lemma_prefix_cancel("appsettings-"@, a, b);
    }
    if spec_lock_overlay_label(a) == spec_lock_overlay_label(b) {
        lemma_prefix_cancel("lockoverlay-"@, a, b);
    }
}

/// The top-level windows of different kinds (an app's main window, its app
/// settings window, its popups, a subspace settings window and the global
/// settings window) never share a label, whatever the ids involved.
pub proof fn law_window_kinds_distinct(a: Seq<char>, b: Seq<char>, s: Seq<char>)
    ensures
        spec_app_window_label(a) != spec_app_settings_window_label(b),
        spec_app_window_label(a) != spec_add_popup_label(b),
        spec_app_window_label(a) != spec_quit_confirm_label(b),
        spec_app_window_label(a) != spec_settings_window_label(b, s),
        spec_app_window_label(a) != "global-settings"@,
        spec_app_settings_window_label(a) != spec_add_popup_label(b),
        spec_app_settings_window_label(a) != spec_quit_confirm_label(b),
        spec_app_settings_window_label(a) != spec_settings_window_label(b, s),
        spec_app_settings_window_label(a) != "global-settings"@,
        spec_add_popup_label(a) != spec_quit_confirm_label(b),
        spec_add_popup_label(a) != spec_settings_window_label(b, s),
        spec_add_popup_label(a) != "global-settings"@,
        spec_quit_confirm_label(a) != spec_settings_window_label(b, s),
        spec_quit_confirm_label(a) != "global-settings"@,
        spec_settings_window_label(a, s) != "global-settings"@,
{
    reveal_strlit("app-");
    reveal_strlit("appsettings-");
    reveal_strlit("addpopup-");
    reveal_strlit("quitconfirm-");
    reveal_strlit("settings-");
    reveal_strlit("global-settings");
    reveal_strlit("-");
    let w = spec_app_window_label(a);
    let x = spec_app_settings_window_label(b);
    let x2 = spec_app_settings_window_label(a);
    let p = spec_add_popup_label(b);
    let p2 = spec_add_popup_label(a);
    let q = spec_quit_confirm_label(b);
    let q2 = spec_quit_confirm_label(a);
    let st = spec_settings_window_label(b, s);
    let st2 = spec_settings_window_label(a, s);
    let g = "global-settings"@;
    assert(w[3] != x[3]);
    assert(w[1] != p[1]);
    assert(w[0] != q[0]);
    assert(w[0] != st[0]);
    assert(w[0] != g[0]);
    assert(x2[1] != p[1]);
    assert(x2[0] != q[0]);
    assert(x2[0] != st[0]);
    assert(x2[0] != g[0]);
    assert(p2[0] != q[0]);
    assert(p2[0] != st[0]);
    assert(p2[0] != g[0]);
    assert(q2[0] != st[0]);
    assert(q2[0] != g[0]);
    assert(st2[0] != g[0]);
}

} // verus!
