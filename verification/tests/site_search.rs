use silos::site::{
    extract_favicon_href, extract_title, first_search_result, looks_like_url, lookup_alias, normalize_query,
    page_icon_url, parse_candidate, search_request_url, searched_candidate, site_candidate, site_draft, title_case,
    SiteCandidate,
};

#[test]
fn title_and_favicon_extraction() {
    let html = r#"<html><head><title>Google</title><link rel="icon" href="/favicon.ico" type="image/x-icon"></head></html>"#;
    assert_eq!(extract_title(html).as_deref(), Some("Google"));
    let base = "https://google.com/";
    let icon = extract_favicon_href(html, base).unwrap();
    assert_eq!(icon.as_str(), "https://google.com/favicon.ico");
}

#[test]
fn normalize_bare_word() {
    assert_eq!(normalize_query("google"), "https://google.com");
    assert_eq!(normalize_query("web.whatsapp.com"), "https://web.whatsapp.com");
    assert_eq!(normalize_query("https://example.org"), "https://example.org");
}

#[test]
fn alias_lookup_is_case_insensitive() {
    assert_eq!(lookup_alias("Google Calendar"), Some("https://calendar.google.com"));
    assert_eq!(lookup_alias("  google calendar  "), Some("https://calendar.google.com"));
    assert_eq!(lookup_alias("not a known alias"), None);
}

#[test]
fn looks_like_url_only_without_spaces() {
    assert!(looks_like_url("google.com"));
    assert!(looks_like_url("google"));
    assert!(!looks_like_url("google calendar"));
}

#[test]
fn title_case_capitalizes_each_word() {
    assert_eq!(title_case("google calendar"), "Google Calendar");
    assert_eq!(title_case("whatsapp"), "Whatsapp");
}

#[test]
fn title_case_collapses_whitespace_and_keeps_the_rest_of_each_word() {
    assert_eq!(title_case("  hello   wORLD \t x "), "Hello WORLD X");
    assert_eq!(title_case(""), "");
    assert_eq!(title_case("   "), "");
    assert_eq!(title_case("ßtraße"), "SStraße");
}

#[test]
fn normalize_trims_before_guessing() {
    assert_eq!(normalize_query("  google  "), "https://google.com");
    assert_eq!(normalize_query("ftp://files.example.org/x"), "ftp://files.example.org/x");
}

#[test]
fn alias_table_first_and_last_entries() {
    assert_eq!(lookup_alias("WhatsApp"), Some("https://web.whatsapp.com"));
    assert_eq!(lookup_alias("protonmail"), Some("https://mail.proton.me"));
    assert_eq!(lookup_alias("google"), None);
}

#[test]
fn title_is_trimmed_and_unescaped() {
    let html = "<TITLE lang=\"en\">\n  Tom &amp; Jerry &lt;3 &quot;x&quot; &#39;y&#39; &gt;\n</TITLE>";
    assert_eq!(extract_title(html).as_deref(), Some("Tom & Jerry <3 \"x\" 'y' >"));
    assert_eq!(extract_title("<title>   </title>"), None);
    assert_eq!(extract_title("<p>no title</p>"), None);
    assert_eq!(extract_title("<title>&amp;lt;</title>").as_deref(), Some("<"));
}

#[test]
fn favicon_link_with_href_before_rel() {
    let html = r#"<link href="icons/app.png" rel="shortcut icon">"#;
    assert_eq!(
        extract_favicon_href(html, "https://example.org/a/b").as_deref(),
        Some("https://example.org/a/icons/app.png")
    );
    assert_eq!(extract_favicon_href("<p></p>", "https://example.org/"), None);
}

#[test]
fn page_icon_falls_back_to_root_favicon() {
    assert_eq!(
        page_icon_url("https://example.org/some/page?q=1", "<html></html>").as_deref(),
        Some("https://example.org/favicon.ico")
    );
}

#[test]
fn candidates_for_queries() {
    assert!(matches!(site_candidate("   "), Err(e) if e == "query vuota"));
    assert!(matches!(site_candidate(" Google Calendar "), Ok(SiteCandidate::Url(u)) if u == "https://calendar.google.com"));
    assert!(matches!(site_candidate("github"), Ok(SiteCandidate::Url(u)) if u == "https://github.com"));
    assert!(matches!(site_candidate(" my bank "), Ok(SiteCandidate::Search(q)) if q == "my bank"));
}

#[test]
fn search_results_page_yields_the_target_of_the_first_result() {
    let html = r#"<div><a rel="nofollow" class="result__a" href="//duckduckgo.com/l/?uddg=https%3A%2F%2Fwww.example.com%2Fhome&amp;rut=abc">Example</a></div>"#;
    assert_eq!(first_search_result(html).as_deref(), Some("https://www.example.com/home"));
    assert_eq!(searched_candidate(html).unwrap(), "https://www.example.com/home");
    assert_eq!(searched_candidate("<p>nothing</p>").unwrap_err(), "nessun sito trovato per questa ricerca");
}

#[test]
fn search_request_carries_the_query() {
    assert_eq!(
        search_request_url("my bank").as_deref(),
        Some("https://html.duckduckgo.com/html/?q=my+bank")
    );
}

#[test]
fn candidate_urls_are_parsed() {
    assert_eq!(parse_candidate("https://Example.org").unwrap(), "https://example.org/");
    assert!(parse_candidate("not a url").is_err());
}

#[test]
fn draft_uses_page_title_unless_redirected_elsewhere() {
    let html = "<title>Example Domain</title>";
    let d = site_draft(" example ", "https://example.org/", "https://example.org/welcome", html);
    assert_eq!(d.url, "https://example.org/");
    assert_eq!(d.title, "Example Domain");
    assert_eq!(d.icon_url.as_deref(), Some("https://example.org/favicon.ico"));

    let r = site_draft(" google calendar ", "https://calendar.google.com/", "https://accounts.google.com/login?x=1", html);
    assert_eq!(r.title, "Google Calendar");
    assert_eq!(r.icon_url.as_deref(), Some("https://calendar.google.com/favicon.ico"));

    let untitled = site_draft("some site", "https://a.example/", "https://a.example/", "<p></p>");
    assert_eq!(untitled.title, "Some Site");
}
