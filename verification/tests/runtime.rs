use silos::launch::{
    dashboard_title, launch_action, open_app_arg, parse_menu_id, reload_menu_id, settings_menu_id, subspace_menu_header,
    tray_close_menu_id, tray_show_menu_id, LaunchAction, MenuAction,
};
use silos::launchers::{
    bundle_path, desktop_entry, desktop_path, icns_container, info_plist, is_old_shortcut_icon, keep_ico_as_is,
    launcher_script, linux_applications_dir, macos_applications_dir, open_app_arguments, rename_shortcut,
    shortcut_path, start_menu_dir, ShortcutOp,
};
use silos::layout::{
    add_popup_label, app_settings_window_label, app_window_label, global_settings_label, lock_overlay_label,
    quit_confirm_label, settings_window_label, sidebar_label, subspace_key, tab_label, tab_prefix_for_app,
    tab_prefix_for_subspace, toolbar_label, toolbar_prefix, tray_id_for_app,
};
use silos::lock::{
    app_runs_in_background, hibernate_plan, lock_if_backgrounded, pin_lock_plan, plan_open_app, still_inactive,
    unlock_app, LockPlan, OpenPlan,
};
use silos::models::AppConfig;
use silos::pages::{
    add_subspace_page, app_settings_page, global_settings_page, quit_confirm_page, settings_title, sidebar_page,
    subspace_settings_page, toolbar_page, unlock_overlay_page,
};
use silos::remember::{remember_last_tabs_and_clear, remember_subspace_start_url};
use silos::state::{ActiveSubspaces, BackgroundApps, LockedApps, TabRegistry};
use silos::toasts::PendingToasts;
use silos::views::{new_window_action, navigation_action, tab_target, webviews_to_hide, HideRule, NavAction, NewWindowAction};

fn config_with_app(name: &str, url: &str, app_id: &str, sub_id: &str) -> AppConfig {
    let mut c = AppConfig::empty();
    c.create_app_with_ids(
        name.to_string(),
        url.to_string(),
        None,
        None,
        None,
        None,
        None,
        app_id.to_string(),
        sub_id.to_string(),
        1,
    );
    c
}

#[test]
fn window_and_webview_labels() {
    assert_eq!(tray_id_for_app("a"), "tray-a");
    assert_eq!(subspace_key("a", "s"), "a::s");
    assert_eq!(app_window_label("a"), "app-a");
    assert_eq!(sidebar_label("a"), "sidebar-a");
    assert_eq!(toolbar_label("a", "s"), "toolbar-a-s");
    assert_eq!(toolbar_prefix("a"), "toolbar-a-");
    assert_eq!(tab_label("a", "s", "t"), "tab-a-s-t");
    assert_eq!(tab_prefix_for_app("a"), "tab-a-");
    assert_eq!(tab_prefix_for_subspace("a", "s"), "tab-a-s-");
    assert_eq!(settings_window_label("a", "s"), "settings-a-s");
    assert_eq!(add_popup_label("a"), "addpopup-a");
    assert_eq!(quit_confirm_label("a"), "quitconfirm-a");
    assert_eq!(app_settings_window_label("a"), "appsettings-a");
    assert_eq!(lock_overlay_label("a"), "lockoverlay-a");
    assert_eq!(global_settings_label(), "global-settings");
}

#[test]
fn tabs_open_switch_and_close() {
    let mut reg = TabRegistry::new();
    assert!(reg.get_tabs("a", "s").is_empty());
    assert_eq!(reg.get_active_tab("a", "s"), None);
    reg.add_tab("a", "s", "t1".to_string(), "https://one".to_string());
    reg.add_tab("a", "s", "t2".to_string(), "https://two".to_string());
    let tabs = reg.get_tabs("a", "s");
    assert_eq!(tabs.len(), 2);
    assert_eq!(tabs[0].title, "Nuova scheda");
    assert_eq!(reg.get_active_tab("a", "s").as_deref(), Some("t2"));
    reg.switch_tab("a", "s", "t1".to_string());
    assert_eq!(reg.get_active_tab("a", "s").as_deref(), Some("t1"));
    reg.set_tab_title("a", "s", "t1", "One".to_string());
    reg.set_tab_url("a", "s", "t1", "https://one/x".to_string());
    assert_eq!(reg.get_tabs("a", "s")[0].title, "One");
    assert_eq!(reg.get_tabs("a", "s")[0].url, "https://one/x");
    assert_eq!(reg.close_tab("a", "s", "t1").unwrap().as_deref(), Some("t2"));
    assert_eq!(reg.close_tab("a", "s", "t2").unwrap(), None);
    assert_eq!(reg.close_tab("a", "zz", "t2").unwrap_err(), "subspace has no tabs");
    reg.remove_subspace("a", "s");
    assert!(reg.get_tabs("a", "s").is_empty());
}

#[test]
fn closing_the_window_remembers_active_tabs() {
    let mut c = config_with_app("Chat", "https://chat.example", "a", "s");
    c.create_subspace_with_id("a", "W".to_string(), None, None, None, None, "w".to_string());
    let mut reg = TabRegistry::new();
    reg.add_tab("a", "s", "t1".to_string(), "https://chat.example/room/1".to_string());
    reg.add_tab("a", "s", "t2".to_string(), "https://chat.example/room/2".to_string());
    reg.switch_tab("a", "s", "t1".to_string());
    reg.add_tab("b", "x", "u1".to_string(), "https://other".to_string());
    assert!(remember_last_tabs_and_clear(&mut reg, &mut c, "a"));
    assert_eq!(c.apps[0].subspaces[0].start_url.as_deref(), Some("https://chat.example/room/1"));
    assert_eq!(c.apps[0].subspaces[1].start_url, None);
    assert!(reg.get_tabs("a", "s").is_empty());
    assert_eq!(reg.get_tabs("b", "x").len(), 1);
    assert!(!remember_last_tabs_and_clear(&mut reg, &mut c, "a"));
}

#[test]
fn hibernating_a_subspace_remembers_its_page() {
    let mut c = config_with_app("Chat", "https://chat.example", "a", "s");
    let mut reg = TabRegistry::new();
    assert!(!remember_subspace_start_url(&reg, &mut c, "a", "s"));
    reg.add_tab("a", "s", "t1".to_string(), "https://chat.example/deep".to_string());
    assert!(remember_subspace_start_url(&reg, &mut c, "a", "s"));
    assert_eq!(c.apps[0].subspaces[0].start_url.as_deref(), Some("https://chat.example/deep"));
}

#[test]
fn launch_arguments_and_titles() {
    let args = vec!["silos".to_string(), "--open-app".to_string(), "abc".to_string()];
    assert_eq!(open_app_arg(&args).as_deref(), Some("abc"));
    assert_eq!(open_app_arg(&vec!["silos".to_string(), "--open-app".to_string()]), None);
    assert_eq!(open_app_arg(&vec!["silos".to_string()]), None);
    assert!(matches!(launch_action(&args), LaunchAction::OpenApp(id) if id == "abc"));
    assert!(matches!(launch_action(&vec![]), LaunchAction::ShowDashboard));
    assert_eq!(dashboard_title(true), "Silos (Dev)");
    assert_eq!(dashboard_title(false), "Silos");
}

#[test]
fn menu_item_ids_read_back() {
    assert_eq!(reload_menu_id("a", "s"), "reload|a|s");
    assert_eq!(tray_show_menu_id("a"), "tray-show|a");
    assert!(matches!(parse_menu_id(&reload_menu_id("a", "s")), MenuAction::Reload(x, y) if x == "a" && y == "s"));
    assert!(matches!(parse_menu_id(&settings_menu_id("a", "s")), MenuAction::Settings(x, y) if x == "a" && y == "s"));
    assert!(matches!(parse_menu_id(&tray_show_menu_id("a")), MenuAction::TrayShow(x) if x == "a"));
    assert!(matches!(parse_menu_id(&tray_close_menu_id("a")), MenuAction::TrayClose(x) if x == "a"));
    assert!(matches!(parse_menu_id("header-title"), MenuAction::Ignore));
    assert!(matches!(parse_menu_id("reload|a"), MenuAction::Ignore));
    assert!(matches!(parse_menu_id("tray-show|a|b"), MenuAction::Ignore));
    assert!(matches!(parse_menu_id("reload||"), MenuAction::Reload(x, y) if x.is_empty() && y.is_empty()));
}

#[test]
fn context_menu_header() {
    let mut c = config_with_app("Chat", "https://chat.example", "a", "s");
    assert_eq!(subspace_menu_header(&c, "a", "s").unwrap(), ("Chat".to_string(), "https://chat.example".to_string()));
    c.set_subspace_start_url("a", "s", None);
    assert_eq!(subspace_menu_header(&c, "a", "s").unwrap().1, "https://chat.example");
    assert_eq!(subspace_menu_header(&c, "b", "s").unwrap_err(), "app not found");
    assert_eq!(subspace_menu_header(&c, "a", "t").unwrap_err(), "subspace not found");
}

#[test]
fn pin_protection_round_trip() {
    let mut c = config_with_app("Bank", "https://bank.example", "a", "s");
    let active = ActiveSubspaces::new();
    let mut locked = LockedApps::new();
    locked.insert("a".to_string());
    c.set_app_pin("a", Some("1234".to_string())).unwrap();
    let stored = c.apps[0].pin_hash.clone().unwrap();
    assert!(stored.starts_with("$argon2id$"));
    assert_ne!(stored, "1234");
    assert_eq!(unlock_app(&c, &active, &mut locked, "a", "9999").unwrap_err(), "invalid pin");
    assert!(locked.contains("a"));
    assert_eq!(unlock_app(&c, &active, &mut locked, "zz", "1234").unwrap_err(), "app not found");
    assert_eq!(unlock_app(&c, &active, &mut locked, "a", "1234").unwrap().as_deref(), Some("s"));
    assert!(!locked.contains("a"));
    c.set_app_pin_lock("a", true, 0);
    assert!(matches!(pin_lock_plan(&c, "a"), LockPlan::Now));
    c.set_app_pin_lock("a", true, 90);
    assert!(matches!(pin_lock_plan(&c, "a"), LockPlan::After(90)));
    c.set_app_pin("a", Some("   ".to_string())).unwrap();
    assert!(c.apps[0].pin_hash.is_none());
    assert!(!c.apps[0].pin_lock_on_background);
    assert!(matches!(pin_lock_plan(&c, "a"), LockPlan::Never));
    assert!(unlock_app(&c, &active, &mut locked, "a", "anything").is_ok());
}

#[test]
fn opening_apps() {
    let mut c = config_with_app("Bank", "https://bank.example", "a", "s");
    c.create_subspace_with_id("a", "W".to_string(), None, None, None, None, "w".to_string());
    c.create_subspace_with_id("a", "S2".to_string(), None, None, None, None, "s".to_string());
    let mut active = ActiveSubspaces::new();
    let mut locked = LockedApps::new();
    match plan_open_app(&c, &active, &mut locked, "a", &None, false).unwrap() {
        OpenPlan::Create { first_subspace, preload, lock } => {
            assert_eq!(first_subspace.as_deref(), Some("s"));
            assert_eq!(preload, vec!["w".to_string()]);
            assert!(!lock);
        }
        OpenPlan::Restore { .. } => panic!("expected a new window"),
    }
    assert!(!locked.contains("a"));
    c.set_app_eager_load_subspaces("a", false);
    match plan_open_app(&c, &active, &mut locked, "a", &None, false).unwrap() {
        OpenPlan::Create { preload, .. } => assert!(preload.is_empty()),
        OpenPlan::Restore { .. } => panic!("expected a new window"),
    }
    assert_eq!(plan_open_app(&c, &active, &mut locked, "zz", &None, false).err().unwrap(), "app not found");
    assert!(matches!(
        plan_open_app(&c, &active, &mut locked, "a", &None, true).unwrap(),
        OpenPlan::Restore { show_subspace: None }
    ));
    c.set_app_pin_hash("a", Some("not a phc string".to_string()));
    match plan_open_app(&c, &active, &mut locked, "a", &None, false).unwrap() {
        OpenPlan::Create { lock, .. } => assert!(lock),
        OpenPlan::Restore { .. } => panic!("expected a new window"),
    }
    assert!(locked.contains("a"));
    assert_eq!(plan_open_app(&c, &active, &mut locked, "a", &Some("x".to_string()), true).err().unwrap(), "invalid pin");
    c.set_app_pin_hash("a", None);
    active.set("a".to_string(), "w".to_string());
    assert!(matches!(
        plan_open_app(&c, &active, &mut locked, "a", &None, true).unwrap(),
        OpenPlan::Restore { show_subspace: Some(s) } if s == "w"
    ));
    assert!(!locked.contains("a"));
}

#[test]
fn background_locking_and_hibernation() {
    let mut c = config_with_app("Bank", "https://bank.example", "a", "s");
    assert!(!app_runs_in_background(&c, "a"));
    c.set_app_run_in_background("a", true);
    assert!(app_runs_in_background(&c, "a"));
    assert!(!app_runs_in_background(&c, "b"));
    let mut background = BackgroundApps::new();
    let mut locked = LockedApps::new();
    lock_if_backgrounded(&background, &mut locked, "a");
    assert!(!locked.contains("a"));
    background.insert("a".to_string());
    lock_if_backgrounded(&background, &mut locked, "a");
    assert!(locked.contains("a"));
    background.remove("a");
    assert!(!background.contains("a"));

    let mut active = ActiveSubspaces::new();
    assert_eq!(hibernate_plan(&c, &active, "a", "w"), None);
    active.set("a".to_string(), "s".to_string());
    assert_eq!(hibernate_plan(&c, &active, "a", "w"), None);
    c.set_app_eager_load_subspaces("a", false);
    c.set_app_hibernate_delay_secs("a", 5);
    assert_eq!(hibernate_plan(&c, &active, "a", "w"), Some(("s".to_string(), 5)));
    assert_eq!(hibernate_plan(&c, &active, "a", "s"), None);
    assert!(still_inactive(&active, "a", "w"));
    assert!(!still_inactive(&active, "a", "s"));
    assert!(still_inactive(&active, "b", "s"));
}

#[test]
fn pending_toasts_are_capped_and_forgotten_by_tag() {
    let mut p: PendingToasts<u32> = PendingToasts::new();
    for i in 0..55u32 {
        p.keep(format!("t{}", i % 3), i);
    }
    assert_eq!(p.len(), 50);
    p.forget_toast("t0");
    assert_eq!(p.len(), 33);
    p.forget_toast("nope");
    assert_eq!(p.len(), 33);
}

#[test]
fn launcher_files() {
    assert_eq!(open_app_arguments("abc"), "--open-app abc");
    assert_eq!(start_menu_dir("/roam"), "/roam/Microsoft/Windows/Start Menu/Programs/Silos");
    assert_eq!(shortcut_path("/sm", "My: App"), "/sm/My_ App.lnk");
    assert_eq!(linux_applications_dir(&Some("/x".to_string()), &Some("/h".to_string())).as_deref(), Some("/x/applications"));
    assert_eq!(linux_applications_dir(&Some(String::new()), &Some("/h".to_string())).as_deref(), Some("/h/.local/share/applications"));
    assert_eq!(linux_applications_dir(&None, &None), None);
    assert_eq!(desktop_path("/apps", "id1"), "/apps/silos-id1.desktop");
    assert_eq!(macos_applications_dir("/Users/me"), "/Users/me/Applications");
    assert_eq!(bundle_path("/Users/me/Applications", "Chat"), "/Users/me/Applications/Chat.app");
    assert_eq!(
        desktop_entry("Chat\nX", "/opt/my app/silos", "id1", Some("/i.png")),
        "[Desktop Entry]\nType=Application\nVersion=1.0\nName=Chat X\nExec=\"/opt/my app/silos\" --open-app id1\nIcon=/i.png\nTerminal=false\nNoDisplay=false\nCategories=Network;\n"
    );
    assert_eq!(launcher_script("/Apps/it's/silos", "id1"), "#!/bin/sh\nexec '/Apps/it'\\''s/silos' --open-app id1\n");
    let plist = info_plist("id 1", "A&B");
    assert!(plist.contains("<key>CFBundleName</key>\n\t<string>A&amp;B</string>"));
    assert!(plist.contains("<string>com.silos.webapp.id-1</string>"));
    assert!(plist.ends_with("</dict>\n</plist>\n"));
    let icns = icns_container(&vec![1, 2, 3]);
    assert_eq!(icns, vec![b'i', b'c', b'n', b's', 0, 0, 0, 19, b'i', b'c', b'0', b'8', 0, 0, 0, 11, 1, 2, 3]);
    assert!(keep_ico_as_is("/i/app.ICO", false));
    assert!(!keep_ico_as_is("/i/app.ico", true));
    assert!(!keep_ico_as_is("/i/app.png", false));
    assert!(is_old_shortcut_icon("shortcut-a1-123.ico", "a1"));
    assert!(!is_old_shortcut_icon("shortcut-a12-123.ico", "a1"));
    let ops = rename_shortcut("a", "slug", "Old", "New", None, Some("#fff"), 5, true);
    assert_eq!(ops.len(), 2);
    assert!(matches!(&ops[0], ShortcutOp::Remove { app_name, .. } if app_name == "Old"));
    assert!(matches!(&ops[1], ShortcutOp::Create(s) if s.app_name == "New" && s.icon_padding_percent == 5));
    assert_eq!(rename_shortcut("a", "slug", "Same", "Same", None, None, 0, false).len(), 1);
}

#[test]
fn webviews_hidden_and_tab_targets() {
    let labels: Vec<String> = vec!["toolbar-a-s", "toolbar-a-w", "tab-a-s-1", "tab-a-w-1", "tab-b-s-1", "sidebar-a"]
        .into_iter()
        .map(|s| s.to_string())
        .collect();
    assert_eq!(webviews_to_hide(&labels, HideRule::Switch, "a", "s"), vec!["toolbar-a-w".to_string(), "tab-a-w-1".to_string()]);
    assert_eq!(
        webviews_to_hide(&labels, HideRule::Lock, "a", ""),
        vec!["toolbar-a-s".to_string(), "toolbar-a-w".to_string(), "tab-a-s-1".to_string(), "tab-a-w-1".to_string()]
    );
    assert_eq!(webviews_to_hide(&labels, HideRule::NewTab, "a", "w"), vec!["tab-a-w-1".to_string()]);

    let mut c = config_with_app("Chat", "https://chat.example", "a", "s");
    let t = tab_target(&c, "a", "s", None).unwrap();
    assert_eq!((t.url.as_str(), t.data_slug.as_str(), t.session_group.as_str()), ("https://chat.example", "chat", "s"));
    c.set_subspace_start_url("a", "s", None);
    assert_eq!(tab_target(&c, "a", "s", None).unwrap().url, "https://chat.example");
    assert_eq!(tab_target(&c, "a", "s", Some("https://x".to_string())).unwrap().url, "https://x");
    assert_eq!(tab_target(&c, "b", "s", None).err().unwrap(), "app not found");

    assert!(matches!(navigation_action("https://chat.example/x"), NavAction::Allow));
    assert!(matches!(
        navigation_action("silos-newtab://open?url=https%3A%2F%2Fexample.org%2Fa"),
        NavAction::OpenInNewTab(u) if u == "https://example.org/a"
    ));
    assert!(matches!(navigation_action("silos-newtab://open"), NavAction::Block));
}

#[test]
fn pages_for_each_window() {
    assert_eq!(sidebar_page("a"), "index.html?appId=a");
    assert_eq!(toolbar_page("a", "s"), "index.html?toolbarApp=a&toolbarSubspace=s");
    assert_eq!(unlock_overlay_page("a"), "index.html?unlockApp=a");
    assert_eq!(app_settings_page("a"), "index.html?settingsForApp=a");
    assert_eq!(subspace_settings_page("a", "s"), "index.html?settingsApp=a&settingsSubspace=s");
    assert_eq!(add_subspace_page("a"), "index.html?addPopupFor=a");
    assert_eq!(quit_confirm_page("a"), "index.html?quitConfirmFor=a");
    assert_eq!(global_settings_page(), "index.html?globalSettings=1");
    assert_eq!(settings_title("Chat"), "Impostazioni - Chat");
}

#[test]
fn shared_group_shares_session_folder() {
    let mut c = config_with_app("Google", "https://mail.google.com", "a", "s");
    c.create_subspace_with_id("a", "Calendar".to_string(), None, None, Some("s".to_string()), None, "cal".to_string());
    c.create_subspace_with_id("a", "Work".to_string(), None, None, None, None, "work".to_string());
    let mail = tab_target(&c, "a", "s", None).unwrap();
    let cal = tab_target(&c, "a", "cal", None).unwrap();
    let work = tab_target(&c, "a", "work", None).unwrap();
    assert_eq!(cal.session_group, "s");
    assert_eq!(work.session_group, "work");
    let dir = |t: &silos::views::TabTarget| silos::paths::session_data_dir("/data/webapps", &t.data_slug, &t.session_group);
    assert_eq!(dir(&mail), dir(&cal));
    assert_ne!(dir(&mail), dir(&work));
    assert_eq!(dir(&mail), "/data/webapps/google/s");
}

#[test]
fn new_window_requests() {
    assert!(matches!(new_window_action(true, "https://accounts.example/oauth"), NewWindowAction::OpenWindow));
    assert!(matches!(
        new_window_action(false, "https://drive.example/x"),
        NewWindowAction::OpenInNewTab(u) if u == "https://drive.example/x"
    ));
}

#[test]
fn fresh_ids_are_uuids() {
    let a = silos::ids::fresh_id();
    let b = silos::ids::fresh_id();
    assert_eq!(a.len(), 36);
    assert!(a.chars().all(|c| c.is_ascii_digit() || ('a'..='f').contains(&c) || c == '-'));
    assert_ne!(a, b);
}
