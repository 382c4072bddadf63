//! Process launch and menu plumbing: the `--open-app <id>` argument that
//! per-webapp shortcuts pass, the dashboard's title, and the ids of the
//! context and tray menu items, which carry the app and subspace they act
//! on.
use vstd::prelude::*;
use crate::models::{app_pos, find_app, find_subspace, opt_view, sub_pos, AppConfig, AppConfigV};
use crate::text::{chars_of, push_char, str_eq};

verus! {

/// Whether `i` is the first argument equal to `--open-app`.
pub open spec fn is_first_open_flag(args: Seq<Seq<char>>, i: int) -> bool {
    &&& 0 <= i < args.len()
    &&& args[i] == "--open-app"@
    &&& forall|k: int| 0 <= k < i ==> args[k] != "--open-app"@
}

/// The argument after the first `--open-app`, if both are there.
pub open spec fn open_app_target(args: Seq<Seq<char>>) -> Option<Seq<char>> {
    if exists|i: int| is_first_open_flag(args, i) {
        let i = choose|i: int| is_first_open_flag(args, i);
        if i + 1 < args.len() {
            Some(args[i + 1])
        } else {
            None
        }
    } else {
        None
    }
}

/// The app a launch asks to open directly (`--open-app <id>`, as passed by
/// a webapp's shortcut).
pub fn open_app_arg(args: &Vec<String>) -> (r: Option<String>)
    ensures
        opt_view(r) == open_app_target(args@.map_values(|s: String| s@)),
{
    let ghost a = args@.map_values(|s: String| s@);
    let mut i: usize = 0;
    while i < args.len()
        invariant
            i <= args@.len(),
            a == args@.map_values(|s: String| s@),
            forall|k: int| 0 <= k < i ==> a[k] != "--open-app"@,
        decreases args@.len() - i,
    {
        if str_eq(args[i].as_str(), "--open-app") {
            proof {
                assert(is_first_open_flag(a, i as int));
                let j = choose|j: int| is_first_open_flag(a, j);
                if j < i {
                    assert(a[j] != "--open-app"@);
                }
                if i < j {
                    assert(a[i as int] != "--open-app"@);
                }
                assert(j == i);
            }
            if i + 1 < args.len() {
                return Some(args[i + 1].clone());
            }
            return None;
        }
        i = i + 1;
    }
    None
}

/// The dashboard window's title; development builds say so, so that they
/// can be told apart from an installed copy running alongside.
pub fn dashboard_title(debug_build: bool) -> (r: &'static str)
    ensures
        r@ == if debug_build {
            "Silos (Dev)"@
        } else {
            "Silos"@
        },
{
    if debug_build {
        "Silos (Dev)"
    } else {
        "Silos"
    }
}

/// What a launch (or a second launch forwarded to the running instance)
/// does.
pub enum LaunchAction {
    /// Open this app's window; the dashboard is shown instead if that fails.
    OpenApp(String),
    ShowDashboard,
}

pub fn launch_action(args: &Vec<String>) -> (r: LaunchAction)
    ensures
        match r {
            LaunchAction::OpenApp(id) => open_app_target(args@.map_values(|s: String| s@)) == Some(id@),
            LaunchAction::ShowDashboard => open_app_target(args@.map_values(|s: String| s@)) is None,
        },
{
    match open_app_arg(args) {
        Some(id) => LaunchAction::OpenApp(id),
        None => LaunchAction::ShowDashboard,
    }
}

/// Index of the first `|` at or after `i`, or the length when there is none.
pub open spec fn bar_index(s: Seq<char>, i: nat) -> nat
    decreases s.len() - i,
{
    if i >= s.len() {
        s.len()
    } else if s[i as int] == '|' {
        i
    } else {
        bar_index(s, i + 1)
    }
}

/// The pieces of `s` from position `start` on, between `|` separators.
pub open spec fn split_from(s: Seq<char>, start: nat) -> Seq<Seq<char>>
    decreases s.len() - start,
{
    let i = bar_index(s, start);
    if start <= i < s.len() {
        seq![s.subrange(start as int, i as int)] + split_from(s, i + 1)
    } else {
        seq![s.subrange(start as int, s.len() as int)]
    }
}

/// The pieces of `s` between `|` separators (`str::split('|')`): one more
/// piece than there are separators, empty pieces included.
pub open spec fn split_bars(s: Seq<char>) -> Seq<Seq<char>> {
    split_from(s, 0)
}

proof fn lemma_bar_index_at(s: Seq<char>, j: nat, i: nat)
    requires
        j <= i <= s.len(),
        forall|k: int| j <= k < i ==> s[k] != '|',
        i == s.len() || s[i as int] == '|',
    ensures
        bar_index(s, j) == i,
    decreases i - j,
{
    if j < i {
        lemma_bar_index_at(s, j + 1, i);
    }
}

/// What a menu item does, read off its id.
pub enum MenuAction {
    /// "reload|<app>|<subspace>": reload the subspace's active tab.
    Reload(String, String),
    /// "settings|<app>|<subspace>": open the subspace's settings.
    Settings(String, String),
    /// "tray-show|<app>": bring a backgrounded app back.
    TrayShow(String),
    /// "tray-close|<app>": close a backgrounded app for good.
    TrayClose(String),
    /// Anything else (header items of a context menu, say).
    Ignore,
}

/// The model of a menu action: its kind and its arguments.
pub open spec fn menu_action_of(id: Seq<char>) -> (Seq<char>, Seq<Seq<char>>) {
    let parts = split_bars(id);
    if parts.len() == 3 && (parts[0] == "reload"@ || parts[0] == "settings"@) {
        (parts[0], parts.drop_first())
    } else if parts.len() == 2 && (parts[0] == "tray-show"@ || parts[0] == "tray-close"@) {
        (parts[0], parts.drop_first())
    } else {
        (Seq::<char>::empty(), Seq::<Seq<char>>::empty())
    }
}

/// The model of what `parse_menu_id` returns.
pub open spec fn menu_action_view(a: MenuAction) -> (Seq<char>, Seq<Seq<char>>) {
    match a {
        MenuAction::Reload(x, y) => ("reload"@, seq![x@, y@]),
        MenuAction::Settings(x, y) => ("settings"@, seq![x@, y@]),
        MenuAction::TrayShow(x) => ("tray-show"@, seq![x@]),
        MenuAction::TrayClose(x) => ("tray-close"@, seq![x@]),
        MenuAction::Ignore => (Seq::<char>::empty(), Seq::<Seq<char>>::empty()),
    }
}

fn split_bars_exec(s: &str) -> (r: Vec<String>)
    ensures
        r@.map_values(|p: String| p@) == split_bars(s@),
{
    let v = chars_of(s);
    let ghost sv = s@;
    let n = v.len();
    let mut parts: Vec<String> = Vec::new();
    let mut start: usize = 0;
    loop
        invariant
            v@ == sv,
            sv == s@,
            n == sv.len(),
            start <= n,
            parts@.map_values(|p: String| p@) + split_from(sv, start as nat) == split_from(sv, 0),
        decreases n - start,
    {
        let mut cur = String::new();
        let mut i: usize = start;
        while i < n && v[i] != '|'
            invariant
                v@ == sv,
                n == sv.len(),
                start <= i <= n,
                cur@ == sv.subrange(start as int, i as int),
                forall|k: int| start <= k < i ==> sv[k] != '|',
            decreases n - i,
        {
            push_char(&mut cur, v[i]);
            assert(sv.subrange(start as int, i + 1) =~= sv.subrange(start as int, i as int).push(sv[i as int]));
            i = i + 1;
        }
        proof {
            lemma_bar_index_at(sv, start as nat, i as nat);
        }
        let ghost before = parts@.map_values(|p: String| p@);
        parts.push(cur);
        assert(parts@.map_values(|p: String| p@) =~= before.push(sv.subrange(start as int, i as int)));
        if i == n {
            assert(before + split_from(sv, start as nat) =~= before.push(sv.subrange(start as int, i as int)));
            return parts;
        }
        assert(before.push(sv.subrange(start as int, i as int)) + split_from(sv, (i + 1) as nat) =~= before + (seq![
            sv.subrange(start as int, i as int),
        ] + split_from(sv, (i + 1) as nat)));
        start = i + 1;
    }
}

/// Reads a menu item's id.
pub fn parse_menu_id(id: &str) -> (r: MenuAction)
    ensures
        menu_action_view(r) == menu_action_of(id@),
{
    let parts = split_bars_exec(id);
    let ghost pv = parts@.map_values(|p: String| p@);
    if parts.len() == 3 {
        assert(pv[0] == parts@[0]@ && pv[1] == parts@[1]@ && pv[2] == parts@[2]@);
        if str_eq(parts[0].as_str(), "reload") {
            assert(pv.drop_first() =~= seq![pv[1], pv[2]]);
            return MenuAction::Reload(parts[1].clone(), parts[2].clone());
        }
        if str_eq(parts[0].as_str(), "settings") {
            assert(pv.drop_first() =~= seq![pv[1], pv[2]]);
            return MenuAction::Settings(parts[1].clone(), parts[2].clone());
        }
    }
    if parts.len() == 2 {
        assert(pv[0] == parts@[0]@ && pv[1] == parts@[1]@);
        if str_eq(parts[0].as_str(), "tray-show") {
            assert(pv.drop_first() =~= seq![pv[1]]);
            return MenuAction::TrayShow(parts[1].clone());
        }
        if str_eq(parts[0].as_str(), "tray-close") {
            assert(pv.drop_first() =~= seq![pv[1]]);
            return MenuAction::TrayClose(parts[1].clone());
        }
    }
    MenuAction::Ignore
}

/// `kind|a`: the id of a menu item acting on app `a`.
pub open spec fn menu_id1(kind: Seq<char>, a: Seq<char>) -> Seq<char> {
    kind + seq!['|'] + a
}

/// `kind|a|b`: the id of a menu item acting on subspace `b` of app `a`.
pub open spec fn menu_id2(kind: Seq<char>, a: Seq<char>, b: Seq<char>) -> Seq<char> {
    kind + seq!['|'] + a + seq!['|'] + b
}

fn join_bar(a: &str, b: &str) -> (r: String)
    ensures
        r@ == a@ + seq!['|'] + b@,
{
    let mut r = String::from_str(a);
    push_char(&mut r, '|');
    r.append(b);
    r
}

/// Id of a subspace context menu's "reload" item.
pub fn reload_menu_id(app_id: &str, subspace_id: &str) -> (r: String)
    ensures
        r@ == menu_id2("reload"@, app_id@, subspace_id@),
{
    let a = join_bar("reload", app_id);
    join_bar(a.as_str(), subspace_id)
}

/// Id of a subspace context menu's "settings" item.
pub fn settings_menu_id(app_id: &str, subspace_id: &str) -> (r: String)
    ensures
        r@ == menu_id2("settings"@, app_id@, subspace_id@),
{
    let a = join_bar("settings", app_id);
    join_bar(a.as_str(), subspace_id)
}

/// Id of a tray menu's "show" item.
pub fn tray_show_menu_id(app_id: &str) -> (r: String)
    ensures
        r@ == menu_id1("tray-show"@, app_id@),
{
    join_bar("tray-show", app_id)
}

/// Id of a tray menu's "close" item.
pub fn tray_close_menu_id(app_id: &str) -> (r: String)
    ensures
        r@ == menu_id1("tray-close"@, app_id@),
{
    join_bar("tray-close", app_id)
}

proof fn lemma_split_id2(kind: Seq<char>, a: Seq<char>, b: Seq<char>)
    requires
        !kind.contains('|'),
        !a.contains('|'),
        !b.contains('|'),
    ensures
        split_bars(menu_id2(kind, a, b)) == seq![kind, a, b],
{
    let s = menu_id2(kind, a, b);
    let kl = kind.len();
    let al = a.len();
    assert forall|k: int| 0 <= k < kl implies s[k] != '|' by {
        assert(s[k] == kind[k]);
        if kind[k] == '|' {
            assert(kind.contains(kind[k]));
        }
    }
    lemma_bar_index_at(s, 0, kl);
    assert forall|k: int| kl + 1 <= k < kl + 1 + al implies s[k] != '|' by {
        assert(s[k] == a[k - kl - 1]);
        if a[k - kl - 1] == '|' {
            assert(a.contains(a[k - kl - 1]));
        }
    }
    lemma_bar_index_at(s, kl + 1, kl + 1 + al);
    assert forall|k: int| kl + al + 2 <= k < s.len() implies s[k] != '|' by {
        assert(s[k] == b[k - kl - al - 2]);
        if b[k - kl - al - 2] == '|' {
            assert(b.contains(b[k - kl - al - 2]));
        }
    }
    lemma_bar_index_at(s, kl + al + 2, s.len());
    assert(s.subrange(0, kl as int) =~= kind);
    assert(s.subrange((kl + 1) as int, (kl + 1 + al) as int) =~= a);
    assert(s.subrange((kl + al + 2) as int, s.len() as int) =~= b);
    assert(split_from(s, kl + al + 2) == seq![b]);
    assert(split_from(s, kl + 1) == seq![a] + seq![b]);
    assert(split_from(s, 0) == seq![kind] + (seq![a] + seq![b]));
    assert(seq![kind] + (seq![a] + seq![b]) =~= seq![kind, a, b]);
}

proof fn lemma_split_id1(kind: Seq<char>, a: Seq<char>)
    requires
        !kind.contains('|'),
        !a.contains('|'),
    ensures
        split_bars(menu_id1(kind, a)) == seq![kind, a],
{
    let s = menu_id1(kind, a);
    let kl = kind.len();
    assert forall|k: int| 0 <= k < kl implies s[k] != '|' by {
        assert(s[k] == kind[k]);
        if kind[k] == '|' {
            assert(kind.contains(kind[k]));
        }
    }
    lemma_bar_index_at(s, 0, kl);
    assert forall|k: int| kl + 1 <= k < s.len() implies s[k] != '|' by {
        assert(s[k] == a[k - kl - 1]);
        if a[k - kl - 1] == '|' {
            assert(a.contains(a[k - kl - 1]));
        }
    }
    lemma_bar_index_at(s, kl + 1, s.len());
    assert(s.subrange(0, kl as int) =~= kind);
    assert(s.subrange((kl + 1) as int, s.len() as int) =~= a);
    assert(split_from(s, kl + 1) == seq![a]);
    assert(seq![kind] + seq![a] =~= seq![kind, a]);
}

proof fn lemma_kind_has_no_bar(w: Seq<char>)
    requires
        forall|k: int| 0 <= k < w.len() ==> w[k] != '|',
    ensures
        !w.contains('|'),
{
}

/// A menu item's id reads back as the action it was made for, as long as
/// the app and subspace ids hold no `|` (app and subspace ids are UUIDs).
pub proof fn law_menu_ids_round_trip(a: Seq<char>, b: Seq<char>)
    requires
        !a.contains('|'),
        !b.contains('|'),
    ensures
        menu_action_of(menu_id2("reload"@, a, b)) == ("reload"@, seq![a, b]),
        menu_action_of(menu_id2("settings"@, a, b)) == ("settings"@, seq![a, b]),
        menu_action_of(menu_id1("tray-show"@, a)) == ("tray-show"@, seq![a]),
        menu_action_of(menu_id1("tray-close"@, a)) == ("tray-close"@, seq![a]),
{
    reveal_strlit("reload");
    reveal_strlit("settings");
    reveal_strlit("tray-show");
    reveal_strlit("tray-close");
    lemma_kind_has_no_bar("reload"@);
    lemma_kind_has_no_bar("settings"@);
    lemma_kind_has_no_bar("tray-show"@);
    lemma_kind_has_no_bar("tray-close"@);
    lemma_split_id2("reload"@, a, b);
    lemma_split_id2("settings"@, a, b);
    lemma_split_id1("tray-show"@, a);
    lemma_split_id1("tray-close"@, a);
    assert(seq!["reload"@, a, b].drop_first() =~= seq![a, b]);
    assert(seq!["settings"@, a, b].drop_first() =~= seq![a, b]);
    assert(seq!["tray-show"@, a].drop_first() =~= seq![a]);
    assert(seq!["tray-close"@, a].drop_first() =~= seq![a]);
}

/// The two header lines of a subspace's context menu: its name, and its
/// start page (the app's URL when it has none); "app not found" or
/// "subspace not found" otherwise.
pub open spec fn menu_header_of(c: AppConfigV, app_id: Seq<char>, subspace_id: Seq<char>) -> Result<
    (Seq<char>, Seq<char>),
    Seq<char>,
> {
    let i = app_pos(c.apps, app_id);
    if i < 0 {
        Err("app not found"@)
    } else {
        let j = sub_pos(c.apps[i].subspaces, subspace_id);
        if j < 0 {
            Err("subspace not found"@)
        } else {
            let s = c.apps[i].subspaces[j];
            Ok(
                (
                    s.name,
                    match s.start_url {
                        Some(u) => u,
                        None => c.apps[i].url,
                    },
                ),
            )
        }
    }
}

pub fn subspace_menu_header(config: &AppConfig, app_id: &str, subspace_id: &str) -> (r: Result<(String, String), String>)
    ensures
        match r {
            Ok((n, u)) => menu_header_of(config@, app_id@, subspace_id@) == Ok::<(Seq<char>, Seq<char>), Seq<char>>(
                (n@, u@),
            ),
            Err(e) => menu_header_of(config@, app_id@, subspace_id@) == Err::<(Seq<char>, Seq<char>), Seq<char>>(e@),
        },
{
    let i = match find_app(&config.apps, app_id) {
        Some(i) => i,
        None => return Err(String::from_str("app not found")),
    };
    assert(config@.apps[i as int] == config.apps@[i as int]@);
    let app = &config.apps[i];
    let j = match find_subspace(&app.subspaces, subspace_id) {
        Some(j) => j,
        None => return Err(String::from_str("subspace not found")),
    };
    assert(config@.apps[i as int].subspaces[j as int] == app.subspaces@[j as int]@);
    let s = &app.subspaces[j];
    let url = match &s.start_url {
        Some(u) => u.clone(),
        None => app.url.clone(),
    };
    Ok((s.name.clone(), url))
}

} // verus!
