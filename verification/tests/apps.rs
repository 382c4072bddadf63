use silos::config::filter_nonblank;
use silos::groups::SessionGroupInfo;
use silos::ids::{created_at_from, mac_data_store_id};
use silos::info::app_info;
use silos::models::{AppConfig, Subspace};
use silos::naming::{
    aumid_for_slug, build_toast_xml, bundle_identifier, escape_name, is_safe_path_component, plist_escape,
    quote_exec_arg, sanitize_filename, slugify, xml_escape,
};
use silos::reorder::reorder;
use silos::store::Store;

fn config_with_app(name: &str, url: &str, app_id: &str, sub_id: &str) -> AppConfig {
    let mut c = AppConfig::empty();
    c.create_app_with_ids(
        name.to_string(),
        url.to_string(),
        None,
        None,
        None,
        None,
        None,
        app_id.to_string(),
        sub_id.to_string(),
        1_700_000_000,
    );
    c
}

fn add_subspace(c: &mut AppConfig, app_id: &str, name: &str, group: Option<&str>, id: &str) -> Option<Subspace> {
    c.create_subspace_with_id(
        app_id,
        name.to_string(),
        None,
        None,
        group.map(|g| g.to_string()),
        None,
        id.to_string(),
    )
}

#[test]
fn slugs_are_lowercase_dashed_and_deduplicated() {
    assert_eq!(slugify("Hello, World!", &vec![]), "hello-world");
    assert_eq!(slugify("  Gmail  Work ", &vec![]), "gmail-work");
    assert_eq!(slugify("!!!", &vec![]), "app");
    assert_eq!(slugify("Ünïcode", &vec![]), "n-code");
    assert_eq!(slugify("ÀBC  Déf--X", &vec![]), "bc-d-f-x");
    assert_eq!(slugify("KELVIN \u{212A}", &vec![]), "kelvin-k");
    assert_eq!(slugify("a", &vec!["a".to_string(), "a-2".to_string()]), "a-3");
    assert_eq!(slugify("A", &vec!["b".to_string()]), "a");
}

#[test]
fn new_apps_get_a_first_subspace_and_distinct_slugs() {
    let mut c = AppConfig::empty();
    let first = c.create_app_with_ids(
        "Gmail".to_string(),
        "https://mail.google.com".to_string(),
        None,
        None,
        Some(false),
        None,
        Some(12),
        "a1".to_string(),
        "s1".to_string(),
        5,
    );
    let second = c.create_app_with_ids(
        "Gmail".to_string(),
        "https://mail.google.com".to_string(),
        None,
        Some("contain".to_string()),
        None,
        Some("#ffffff".to_string()),
        None,
        "a2".to_string(),
        "s2".to_string(),
        6,
    );
    assert_eq!(first.data_slug, "gmail");
    assert_eq!(second.data_slug, "gmail-2");
    assert_eq!(c.apps.len(), 2);
    let app = &c.apps[0];
    assert_eq!(app.icon_style.fit, "cover");
    assert!(!app.icon_style.rounded);
    assert_eq!(app.icon_style.padding_percent, 12);
    assert!(app.eager_load_subspaces);
    assert_eq!(app.hibernate_delay_secs, 300);
    assert!(app.pin_hash.is_none());
    assert_eq!(app.created_at, 5);
    assert_eq!(app.subspaces.len(), 1);
    let s = &app.subspaces[0];
    assert_eq!(s.id, "s1");
    assert_eq!(s.session_group, "s1");
    assert_eq!(s.name, "Gmail");
    assert_eq!(s.start_url.as_deref(), Some("https://mail.google.com"));
    assert_eq!(s.icon_background_color.as_deref(), Some("#2a2a30"));
    assert_eq!(c.apps[1].icon_style.fit, "contain");
    assert!(c.apps[1].icon_style.rounded);
    assert_eq!(c.apps[1].subspaces[0].icon_background_color.as_deref(), Some("#ffffff"));
}

#[test]
fn random_ids_are_uuid_shaped() {
    let mut c = AppConfig::empty();
    let v = c.create_app("X".to_string(), "https://x.org".to_string(), None, None, None, None, None);
    let id = v.id.clone();
    assert_eq!(id.len(), 36);
    assert!(id.chars().all(|c| c == '-' || c.is_ascii_digit() || ('a'..='f').contains(&c)));
    assert!(v.created_at > 0);
    let s = c.create_subspace(&id, "Two".to_string(), None, None, None, None).unwrap();
    assert_eq!(s.id.len(), 36);
    assert_ne!(s.id, id);
    assert_eq!(s.session_group, s.id);
    assert!(c.create_subspace("missing", "x".to_string(), None, None, None, None).is_none());
}

#[test]
fn data_store_ids_are_stable_per_session_group() {
    let a = mac_data_store_id("gmail", "g1");
    assert_eq!(a, mac_data_store_id("gmail", "g1"));
    assert_eq!(a[6] >> 4, 5);
    assert_eq!(a[8] >> 6, 2);
    assert_ne!(a, mac_data_store_id("gmail", "g2"));
    assert_eq!(a, [233, 154, 86, 130, 174, 6, 92, 238, 140, 164, 61, 6, 89, 190, 238, 65]);
}

#[test]
fn app_settings_edits() {
    let mut c = config_with_app("Chat", "https://chat.example", "a", "s");
    c.set_app_url("a", "https://chat2.example".to_string());
    assert_eq!(c.apps[0].url, "https://chat2.example");
    let old = c.rename_app("a", "Talk".to_string()).unwrap();
    assert_eq!(old.0, "Chat");
    assert_eq!(old.2, "chat");
    assert_eq!(c.apps[0].name, "Talk");
    assert_eq!(c.apps[0].data_slug, "chat");
    assert!(c.rename_app("missing", "x".to_string()).is_none());
    c.set_app_run_in_background("a", true);
    c.set_app_eager_load_subspaces("a", false);
    c.set_app_hibernate_delay_secs("a", 60);
    assert!(c.apps[0].run_in_background);
    assert!(!c.apps[0].eager_load_subspaces);
    assert_eq!(c.apps[0].hibernate_delay_secs, 60);
    c.set_app_pin_lock("a", true, 30);
    assert!(!c.apps[0].pin_lock_on_background);
    assert_eq!(c.apps[0].pin_lock_delay_secs, 30);
    assert_eq!(c.set_app_icon("missing", "/i.png".to_string()).unwrap_err(), "app not found");
    c.set_macos_icons_api_key(Some("   ".to_string()));
    assert_eq!(c.get_macos_icons_api_key(), None);
    c.set_macos_icons_api_key(Some("key".to_string()));
    assert_eq!(c.get_macos_icons_api_key().as_deref(), Some("key"));
}

#[test]
fn subspace_edits() {
    let mut c = config_with_app("Chat", "https://chat.example", "a", "s");
    let added = add_subspace(&mut c, "a", "Work", Some("  "), "w").unwrap();
    assert_eq!(added.session_group, "w");
    assert!(add_subspace(&mut c, "missing", "x", None, "y").is_none());
    c.rename_subspace("a", "w", "Office".to_string());
    assert_eq!(c.apps[0].subspaces[1].name, "Office");
    c.set_subspace_start_url("a", "w", Some("  ".to_string()));
    assert_eq!(c.apps[0].subspaces[1].start_url, None);
    c.set_subspace_start_url("a", "w", Some("https://office.example".to_string()));
    assert_eq!(c.apps[0].subspaces[1].start_url.as_deref(), Some("https://office.example"));
    assert_eq!(c.set_subspace_session_group("a", "w", "../x".to_string()).unwrap_err(), "invalid session group");
    assert!(c.set_subspace_session_group("a", "w", "s".to_string()).is_ok());
    assert_eq!(c.apps[0].subspaces[1].session_group, "s");
    assert_eq!(c.set_subspace_icon("a", "nope", "/i.png".to_string()).unwrap_err(), "subspace not found");
    assert!(c.set_subspace_icon("a", "w", "/i.png".to_string()).is_ok());
    c.delete_subspace("a", "w");
    assert_eq!(c.apps[0].subspaces.len(), 1);
    let removed = c.delete_app("a").unwrap();
    assert_eq!(removed.name, "Chat");
    assert!(c.apps.is_empty());
    assert!(c.delete_app("a").is_none());
}

#[test]
fn blank_values_are_dropped() {
    assert_eq!(filter_nonblank(Some(" \t".to_string())), None);
    assert_eq!(filter_nonblank(Some(" x ".to_string())).as_deref(), Some(" x "));
    assert_eq!(filter_nonblank(None), None);
}

#[test]
fn session_groups_are_listed_once_with_their_subspaces() {
    let mut c = config_with_app("Chat", "https://chat.example", "a", "s");
    add_subspace(&mut c, "a", "Work", Some("g"), "w");
    add_subspace(&mut c, "a", "Home", Some("s"), "h");
    add_subspace(&mut c, "a", "Alt", Some("g"), "x");
    let groups: Vec<SessionGroupInfo> = c.list_session_groups("a");
    assert_eq!(groups.len(), 2);
    assert_eq!(groups[0].group, "s");
    assert_eq!(groups[0].label, "Chat, Home");
    assert_eq!(groups[1].group, "g");
    assert_eq!(groups[1].label, "Work, Alt");
    assert!(c.list_session_groups("missing").is_empty());
    let (slug, dirs, ids) = c.session_reset_plan("a").unwrap();
    assert_eq!(slug, "chat");
    assert_eq!(dirs, vec!["s".to_string(), "g".to_string()]);
    assert_eq!(ids, vec!["s".to_string(), "w".to_string(), "h".to_string(), "x".to_string()]);
    assert_eq!(c.session_reset_plan("missing").unwrap_err(), "app not found");
}

#[test]
fn reordering_is_stable_and_keeps_unknown_ids_last() {
    let mut c = config_with_app("Chat", "https://chat.example", "a", "s");
    add_subspace(&mut c, "a", "W", None, "w");
    add_subspace(&mut c, "a", "H", None, "h");
    c.reorder_subspaces("a", &vec!["h".to_string(), "s".to_string()]);
    let ids: Vec<&str> = c.apps[0].subspaces.iter().map(|s| s.id.as_str()).collect();
    assert_eq!(ids, vec!["h", "s", "w"]);
    let again = reorder(&c.apps[0].subspaces, &vec![]);
    let ids2: Vec<&str> = again.iter().map(|s| s.id.as_str()).collect();
    assert_eq!(ids2, vec!["h", "s", "w"]);
}

#[test]
fn older_configs_get_slugs_and_creation_times() {
    let mut c = config_with_app("Mail", "https://m.example", "a", "s");
    add_subspace(&mut c, "a", "x", None, "x");
    let mut d = config_with_app("Mail", "https://m2.example", "b", "t");
    let mut second = d.apps.remove(0);
    second.data_slug = String::new();
    second.created_at = 0;
    c.apps.push(second);
    assert!(Store::assign_missing_slugs(&mut c, 42));
    assert_eq!(c.apps[0].data_slug, "mail");
    assert_eq!(c.apps[1].data_slug, "mail-2");
    assert_eq!(c.apps[1].created_at, 42);
    assert_eq!(c.apps[0].created_at, 1_700_000_000);
    assert!(!Store::assign_missing_slugs(&mut c, 43));
    let store = Store::new(c, "/d/config.json".to_string());
    assert_eq!(store.config_path, "/d/config.json");
}

#[test]
fn app_info_lists_each_subspace_with_its_group_size() {
    let mut c = config_with_app("Chat", "https://chat.example", "a", "s");
    add_subspace(&mut c, "a", "Work", Some("g"), "w");
    add_subspace(&mut c, "a", "Home", Some("s"), "h");
    let sizes = vec![("s".to_string(), 100u64), ("g".to_string(), 7u64)];
    let info = app_info(&c, "a", "/d/webapps/chat".to_string(), 500, &sizes).unwrap();
    assert_eq!(info.created_at, 1_700_000_000);
    assert_eq!(info.folder_path, "/d/webapps/chat");
    assert_eq!(info.total_size_bytes, 500);
    let got: Vec<(&str, &str, u64)> = info.subspaces.iter().map(|s| (s.id.as_str(), s.name.as_str(), s.size_bytes)).collect();
    assert_eq!(got, vec![("s", "Chat", 100), ("w", "Work", 7), ("h", "Home", 100)]);
    assert_eq!(app_info(&c, "zz", String::new(), 0, &sizes).err().unwrap(), "app not found");
    assert_eq!(silos::info::app_folder(&c, "a", "/d/webapps").unwrap(), "/d/webapps/chat");
}

#[test]
fn app_views_hide_the_pin_hash() {
    let mut c = config_with_app("Chat", "https://chat.example", "a", "s");
    c.set_app_pin_hash("a", Some("$argon2id$v=19$m=19456,t=2,p=1$c2FsdHNhbHQ$aGFzaA".to_string()));
    let views = c.list_apps();
    assert_eq!(views.len(), 1);
    assert!(views[0].has_pin);
    assert_eq!(views[0].subspaces.len(), 1);
}

#[test]
fn names_and_escapes() {
    assert!(is_safe_path_component("abc-DEF_123"));
    assert!(!is_safe_path_component(""));
    assert!(!is_safe_path_component("a.b"));
    assert_eq!(sanitize_filename(" a/b:c*? "), "a_b_c__");
    assert_eq!(sanitize_filename("  "), "app");
    assert_eq!(xml_escape("a&<>\"'"), "a&amp;&lt;&gt;&quot;'");
    assert_eq!(plist_escape("a&<>\"'"), "a&amp;&lt;&gt;&quot;&apos;");
    assert_eq!(quote_exec_arg("/opt/my app/$x`\"\\"), "\"/opt/my app/\\$x\\`\\\"\\\\\"");
    assert_eq!(escape_name("a\\b\nc\rd"), "a/b c d");
    assert_eq!(aumid_for_slug("Silos.WebApp", "my-app_2"), "Silos.WebApp.my_app_2");
    assert_eq!(bundle_identifier("abc_1 2"), "com.silos.webapp.abc-1-2");
    assert_eq!(
        build_toast_xml("Hi & bye", "<b>", Some("https://x/i.png")),
        "<toast><visual><binding template=\"ToastGeneric\"><text>Hi &amp; bye</text><text>&lt;b&gt;</text><image placement=\"appLogoOverride\" hint-crop=\"circle\" src=\"https://x/i.png\"/></binding></visual></toast>"
    );
    assert_eq!(
        build_toast_xml("t", "b", Some("")),
        "<toast><visual><binding template=\"ToastGeneric\"><text>t</text><text>b</text></binding></visual></toast>"
    );
}

#[test]
fn created_at_from_clock_reading() {
    assert_eq!(created_at_from(None), 0);
    assert_eq!(created_at_from(Some(1_700_000_000)), 1_700_000_000);
    assert_eq!(created_at_from(Some(u64::MAX)), -1);
}
