//! Site search for the "search to add" flow: turning a free-typed query
//! into a candidate URL (alias table, omnibox-style guess, or a search
//! engine fallback), and reading a fetched page for its title and icon.
use vstd::prelude::*;
use crate::text::{
    chars_of, contains_char, contains_exec, contains_seq, is_unicode_whitespace, is_whitespace_exec, push_char, str_eq,
    str_to_lowercase, string_of, to_lowercase, trim, trim_str, replace_all, replaced, starts_with_exec,
};
use crate::models::opt_view;

verus! {

/// What the search resolves to: the URL to save, a display title and the
/// cached icon file, if one could be fetched.
pub struct SiteInfo {
    pub url: String,
    pub title: String,
    pub icon_path: Option<String>,
}

/// Hand-picked direct URLs for common multi-word (or otherwise non-obvious)
/// web apps, matched against the trimmed, lowercased query.
pub open spec fn site_aliases() -> Seq<(&'static str, &'static str)> {
    seq![
        ("google calendar", "https://calendar.google.com"),
        ("google docs", "https://docs.google.com"),
        ("google sheets", "https://sheets.google.com"),
        ("google slides", "https://slides.google.com"),
        ("google drive", "https://drive.google.com"),
        ("google photos", "https://photos.google.com"),
        ("google meet", "https://meet.google.com"),
        ("google maps", "https://maps.google.com"),
        ("google translate", "https://translate.google.com"),
        ("google keep", "https://keep.google.com"),
        ("google news", "https://news.google.com"),
        ("google chat", "https://chat.google.com"),
        ("google contacts", "https://contacts.google.com"),
        ("google forms", "https://forms.google.com"),
        ("google groups", "https://groups.google.com"),
        ("google voice", "https://voice.google.com"),
        ("google classroom", "https://classroom.google.com"),
        ("google earth", "https://earth.google.com"),
        ("google podcasts", "https://podcasts.google.com"),
        ("google play", "https://play.google.com"),
        ("google one", "https://one.google.com"),
        ("google ads", "https://ads.google.com"),
        ("google analytics", "https://analytics.google.com"),
        ("google tag manager", "https://tagmanager.google.com"),
        ("google cloud", "https://console.cloud.google.com"),
        ("google cloud console", "https://console.cloud.google.com"),
        ("google workspace", "https://workspace.google.com"),
        ("youtube music", "https://music.youtube.com"),
        ("youtube studio", "https://studio.youtube.com"),
        ("youtube tv", "https://tv.youtube.com"),
        ("microsoft teams", "https://teams.microsoft.com"),
        ("microsoft outlook", "https://outlook.office.com"),
        ("outlook mail", "https://outlook.office.com"),
        ("outlook", "https://outlook.office.com"),
        ("microsoft office", "https://www.office.com"),
        ("office 365", "https://www.office.com"),
        ("onedrive", "https://onedrive.live.com"),
        ("one drive", "https://onedrive.live.com"),
        ("microsoft word", "https://www.office.com/launch/word"),
        ("microsoft excel", "https://www.office.com/launch/excel"),
        ("microsoft powerpoint", "https://www.office.com/launch/powerpoint"),
        ("microsoft to do", "https://to-do.office.com"),
        ("microsoft planner", "https://tasks.office.com"),
        ("microsoft forms", "https://forms.office.com"),
        ("microsoft whiteboard", "https://whiteboard.office.com"),
        ("microsoft loop", "https://loop.microsoft.com"),
        ("copilot", "https://copilot.microsoft.com"),
        ("whatsapp", "https://web.whatsapp.com"),
        ("whatsapp web", "https://web.whatsapp.com"),
        ("telegram", "https://web.telegram.org"),
        ("telegram web", "https://web.telegram.org"),
        ("facebook messenger", "https://www.messenger.com"),
        ("messenger", "https://www.messenger.com"),
        ("prime video", "https://www.primevideo.com"),
        ("amazon prime video", "https://www.primevideo.com"),
        ("disney plus", "https://www.disneyplus.com"),
        ("apple music", "https://music.apple.com"),
        ("apple tv", "https://tv.apple.com"),
        ("icloud", "https://www.icloud.com"),
        ("proton mail", "https://mail.proton.me"),
        ("protonmail", "https://mail.proton.me")
    ]
}

fn site_alias_table() -> (r: Vec<(&'static str, &'static str)>)
    ensures
        r@ == site_aliases(),
{
    vec![
        ("google calendar", "https://calendar.google.com"),
        ("google docs", "https://docs.google.com"),
        ("google sheets", "https://sheets.google.com"),
        ("google slides", "https://slides.google.com"),
        ("google drive", "https://drive.google.com"),
        ("google photos", "https://photos.google.com"),
        ("google meet", "https://meet.google.com"),
        ("google maps", "https://maps.google.com"),
        ("google translate", "https://translate.google.com"),
        ("google keep", "https://keep.google.com"),
        ("google news", "https://news.google.com"),
        ("google chat", "https://chat.google.com"),
        ("google contacts", "https://contacts.google.com"),
        ("google forms", "https://forms.google.com"),
        ("google groups", "https://groups.google.com"),
        ("google voice", "https://voice.google.com"),
        ("google classroom", "https://classroom.google.com"),
        ("google earth", "https://earth.google.com"),
        ("google podcasts", "https://podcasts.google.com"),
        ("google play", "https://play.google.com"),
        ("google one", "https://one.google.com"),
        ("google ads", "https://ads.google.com"),
        ("google analytics", "https://analytics.google.com"),
        ("google tag manager", "https://tagmanager.google.com"),
        ("google cloud", "https://console.cloud.google.com"),
        ("google cloud console", "https://console.cloud.google.com"),
        ("google workspace", "https://workspace.google.com"),
        ("youtube music", "https://music.youtube.com"),
        ("youtube studio", "https://studio.youtube.com"),
        ("youtube tv", "https://tv.youtube.com"),
        ("microsoft teams", "https://teams.microsoft.com"),
        ("microsoft outlook", "https://outlook.office.com"),
        ("outlook mail", "https://outlook.office.com"),
        ("outlook", "https://outlook.office.com"),
        ("microsoft office", "https://www.office.com"),
        ("office 365", "https://www.office.com"),
        ("onedrive", "https://onedrive.live.com"),
        ("one drive", "https://onedrive.live.com"),
        ("microsoft word", "https://www.office.com/launch/word"),
        ("microsoft excel", "https://www.office.com/launch/excel"),
        ("microsoft powerpoint", "https://www.office.com/launch/powerpoint"),
        ("microsoft to do", "https://to-do.office.com"),
        ("microsoft planner", "https://tasks.office.com"),
        ("microsoft forms", "https://forms.office.com"),
        ("microsoft whiteboard", "https://whiteboard.office.com"),
        ("microsoft loop", "https://loop.microsoft.com"),
        ("copilot", "https://copilot.microsoft.com"),
        ("whatsapp", "https://web.whatsapp.com"),
        ("whatsapp web", "https://web.whatsapp.com"),
        ("telegram", "https://web.telegram.org"),
        ("telegram web", "https://web.telegram.org"),
        ("facebook messenger", "https://www.messenger.com"),
        ("messenger", "https://www.messenger.com"),
        ("prime video", "https://www.primevideo.com"),
        ("amazon prime video", "https://www.primevideo.com"),
        ("disney plus", "https://www.disneyplus.com"),
        ("apple music", "https://music.apple.com"),
        ("apple tv", "https://tv.apple.com"),
        ("icloud", "https://www.icloud.com"),
        ("proton mail", "https://mail.proton.me"),
        ("protonmail", "https://mail.proton.me")
    ]
}

/// Whether entry `i` is the first alias whose key is `key`.
pub open spec fn is_first_alias(key: Seq<char>, i: int) -> bool {
    &&& 0 <= i < site_aliases().len()
    &&& site_aliases()[i].0@ == key
    &&& forall|k: int| 0 <= k < i ==> site_aliases()[k].0@ != key
}

/// The URL of the first alias whose key is `key`, if any.
pub open spec fn alias_for(key: Seq<char>) -> Option<Seq<char>> {
    if exists|i: int| is_first_alias(key, i) {
        Some(site_aliases()[choose|i: int| is_first_alias(key, i)].1@)
    } else {
        None
    }
}

/// The key a query is looked up under: trimmed, then lowercased.
pub open spec fn alias_key(query: Seq<char>) -> Seq<char> {
    str_to_lowercase(trim(query))
}

/// Looks a query up in the alias table, ignoring case and surrounding
/// whitespace.
pub fn lookup_alias(query: &str) -> (r: Option<&'static str>)
    ensures
        match r {
            Some(u) => alias_for(alias_key(query@)) == Some(u@),
            None => alias_for(alias_key(query@)) is None,
        },
{
    let t = trim_str(query);
    let ts = string_of(&t);
    let normalized = to_lowercase(ts.as_str());
    let ghost key = alias_key(query@);
    let table = site_alias_table();
    let mut i: usize = 0;
    while i < table.len()
        invariant
            i <= table.len(),
            table@ == site_aliases(),
            normalized@ == key,
            key == alias_key(query@),
            forall|k: int| 0 <= k < i ==> site_aliases()[k].0@ != key,
        decreases table.len() - i,
    {
        let (k, v) = table[i];
        if str_eq(k, normalized.as_str()) {
            proof {
                assert(site_aliases()[i as int] == (k, v));
                assert(is_first_alias(key, i as int));
                let j = choose|j: int| is_first_alias(key, j);
                if j < i {
                    assert(site_aliases()[j].0@ != key);
                }
                if i < j {
                    assert(site_aliases()[i as int].0@ != key);
                }
                assert(j == i);
            }
            return Some(v);
        }
        i = i + 1;
    }
    None
}


/// A query with no space is taken as a domain or URL typed directly.
pub fn looks_like_url(query: &str) -> (r: bool)
    ensures
        r == !query@.contains(' '),
{
    let v = chars_of(query);
    !contains_char(&v, ' ')
}

/// The URL guessed for a query typed as a domain: as typed (trimmed) when it
/// has a scheme, `https://<word>.com` for a bare word without a dot, and
/// `https://` in front otherwise.
pub open spec fn normalized_query(query: Seq<char>) -> Seq<char> {
    let q = trim(query);
    if contains_seq(q, "://"@) {
        q
    } else if !q.contains('.') {
        "https://"@ + q + ".com"@
    } else {
        "https://"@ + q
    }
}

pub fn normalize_query(query: &str) -> (r: String)
    ensures
        r@ == normalized_query(query@),
{
    let q = trim_str(query);
    let qs = string_of(&q);
    let scheme = chars_of("://");
    if contains_exec(&q, &scheme) {
        return qs;
    }
    let mut out = String::from_str("https://");
    out.append(qs.as_str());
    if !contains_char(&q, '.') {
        out.append(".com");
    }
    out
}

/// Index of the first non-whitespace character at or after `i`, or the
/// length when there is none.
pub open spec fn word_start(s: Seq<char>, i: nat) -> nat
    decreases s.len() - i,
{
    if i < s.len() && is_unicode_whitespace(s[i as int]) {
        word_start(s, i + 1)
    } else if i < s.len() {
        i
    } else {
        s.len()
    }
}

/// Index of the first whitespace character at or after `i`, or the length
/// when there is none.
pub open spec fn word_end(s: Seq<char>, i: nat) -> nat
    decreases s.len() - i,
{
    if i < s.len() && !is_unicode_whitespace(s[i as int]) {
        word_end(s, i + 1)
    } else if i < s.len() {
        i
    } else {
        s.len()
    }
}

pub proof fn lemma_word_start(s: Seq<char>, i: nat)
    ensures
        i <= word_start(s, i) || i > s.len(),
        word_start(s, i) <= s.len(),
        word_start(s, i) < s.len() ==> !is_unicode_whitespace(s[word_start(s, i) as int]),
    decreases s.len() - i,
{
    if i < s.len() && is_unicode_whitespace(s[i as int]) {
        lemma_word_start(s, i + 1);
    }
}

pub proof fn lemma_word_end(s: Seq<char>, i: nat)
    ensures
        i <= word_end(s, i) || i > s.len(),
        word_end(s, i) <= s.len(),
        i < s.len() && !is_unicode_whitespace(s[i as int]) ==> word_end(s, i) > i,
        forall|k: int| i <= k < word_end(s, i) ==> !is_unicode_whitespace(#[trigger] s[k]),
    decreases s.len() - i,
{
    if i < s.len() && !is_unicode_whitespace(s[i as int]) {
        lemma_word_end(s, i + 1);
    }
}

/// The whitespace-separated words of `s` from position `i` on
/// (`str::split_whitespace`).
pub open spec fn words_from(s: Seq<char>, i: nat) -> Seq<Seq<char>>
    decreases s.len() - i,
{
    let a = word_start(s, i);
    if i < s.len() && a < s.len() {
        let b = word_end(s, a);
        proof {
            lemma_word_start(s, i);
            lemma_word_end(s, a);
        }
        seq![s.subrange(a as int, b as int)] + words_from(s, b)
    } else {
        seq![]
    }
}

/// What `char::to_uppercase` yields for a character, collected into a
/// string (one or more characters).
pub uninterp spec fn char_uppercase(c: char) -> Seq<char>;

/// The ASCII uppercase of `c`: `a`-`z` to `A`-`Z`, anything else unchanged.
pub open spec fn ascii_upper(c: char) -> char {
    if 'a' <= c && c <= 'z' {
        ((c as u32) - 32) as char
    } else {
        c
    }
}

/// `char::to_uppercase`, collected into a `String`. Besides naming the
/// result, the contract states what the documentation gives for an ASCII
/// character: its uppercase mapping is the single character `ascii_upper`.
#[verifier::external_body]
fn uppercase_of(c: char) -> (r: String)
    ensures
        r@ == char_uppercase(c),
        (c as u32) < 0x80 ==> r@ == seq![ascii_upper(c)],
{
    c.to_uppercase().collect()
}

/// A word with its first character uppercased.
pub open spec fn capitalized(w: Seq<char>) -> Seq<char> {
    if w.len() == 0 {
        w
    } else {
        char_uppercase(w[0]) + w.skip(1)
    }
}

/// Words joined with single spaces.
pub open spec fn joined_words(ws: Seq<Seq<char>>) -> Seq<char>
    decreases ws.len(),
{
    if ws.len() == 0 {
        seq![]
    } else if ws.len() == 1 {
        ws[0]
    } else {
        joined_words(ws.drop_last()) + seq![' '] + ws.last()
    }
}

/// Each whitespace-separated word of `query` capitalized, joined with single
/// spaces.
pub open spec fn title_cased(query: Seq<char>) -> Seq<char> {
    joined_words(words_from(query, 0).map_values(|w: Seq<char>| capitalized(w)))
}

pub fn title_case(query: &str) -> (r: String)
    ensures
        r@ == title_cased(query@),
{
    let v = chars_of(query);
    let n = v.len();
    let ghost s = v@;
    let mut out = String::new();
    let ghost mut done: Seq<Seq<char>> = seq![];
    let mut i: usize = 0;
    let mut first = true;
    assert(done + words_from(s, 0) =~= words_from(s, 0));
    while i < n
        invariant
            i <= n,
            n == v@.len(),
            s == v@,
            done + words_from(s, i as nat) == words_from(s, 0),
            first == (done.len() == 0),
            out@ == joined_words(done.map_values(|w: Seq<char>| capitalized(w))),
        decreases n - i,
    {
        let mut a: usize = i;
        while a < n && is_whitespace_exec(v[a])
            invariant
                i <= a <= n,
                n == v@.len(),
                s == v@,
                word_start(s, i as nat) == word_start(s, a as nat),
            decreases n - a,
        {
            a = a + 1;
        }
        if a == n {
            proof {
                assert(words_from(s, i as nat) =~= seq![]);
                assert(done + words_from(s, n as nat) =~= done);
            }
            i = n;
        } else {
            let mut b: usize = a + 1;
            proof {
                lemma_word_end(s, a as nat);
            }
            while b < n && !is_whitespace_exec(v[b])
                invariant
                    a < b <= n,
                    n == v@.len(),
                    s == v@,
                    word_end(s, a as nat) == word_end(s, b as nat),
                decreases n - b,
            {
                b = b + 1;
            }
            let ghost w = s.subrange(a as int, b as int);
            proof {
                assert(word_start(s, i as nat) == a);
                assert(word_end(s, a as nat) == b);
                assert(words_from(s, i as nat) == seq![w] + words_from(s, b as nat));
                assert(done.push(w) + words_from(s, b as nat) =~= done + words_from(s, i as nat));
            }
            let ghost before = done.map_values(|x: Seq<char>| capitalized(x));
            if !first {
                push_char(&mut out, ' ');
            }
            first = false;
            let up = uppercase_of(v[a]);
            out.append(up.as_str());
            let mut k: usize = a + 1;
            let ghost mid = out@;
            while k < b
                invariant
                    a < k <= b <= n,
                    n == v@.len(),
                    s == v@,
                    out@ == mid + s.subrange(a + 1, k as int),
                decreases b - k,
            {
                push_char(&mut out, v[k]);
                assert(s.subrange(a + 1, k + 1) =~= s.subrange(a + 1, k as int).push(s[k as int]));
                k = k + 1;
            }
            proof {
                assert(w.skip(1) =~= s.subrange(a + 1, b as int));
                assert(capitalized(w) == char_uppercase(s[a as int]) + s.subrange(a + 1, b as int));
                let after = done.push(w).map_values(|x: Seq<char>| capitalized(x));
                assert(after =~= before.push(capitalized(w)));
                assert(after.drop_last() =~= before);
                if done.len() > 0 {
                    assert(out@ =~= joined_words(before) + seq![' '] + capitalized(w));
                } else {
                    assert(out@ =~= capitalized(w));
                }
                done = done.push(w);
            }
            i = b;
        }
    }
    proof {
        assert(words_from(s, n as nat) =~= seq![]);
        assert(done =~= done + words_from(s, n as nat));
    }
    out
}


/// Page title pattern: the text between the first `<title ...>` and the
/// next `</title>`.
pub const TITLE_PATTERN: &'static str = "<title[^>]*>(.*?)</title>";

/// `<link rel="icon"|"shortcut icon" href="...">`, with `rel` before or
/// after `href` (the href is group 1 or group 2).
pub const ICON_LINK_PATTERN: &'static str = "<link\\b[^>]*\\brel=[\"'](?:shortcut icon|icon)[\"'][^>]*\\bhref=[\"']([^\"']+)[\"'][^>]*>|<link\\b[^>]*\\bhref=[\"']([^\"']+)[\"'][^>]*\\brel=[\"'](?:shortcut icon|icon)[\"'][^>]*>";

/// The first result link of a search engine's HTML results page (group 1
/// or group 2).
pub const SEARCH_RESULT_PATTERN: &'static str = "<a\\b[^>]*\\bclass=\"result__a\"[^>]*\\bhref=\"([^\"]+)\"|<a\\b[^>]*\\bhref=\"([^\"]+)\"[^>]*\\bclass=\"result__a\"";

/// The no-script results page of the fallback search engine.
pub const SEARCH_ENDPOINT: &'static str = "https://html.duckduckgo.com/html/";

/// Group `group` of the first match of `pattern` in `hay`, the pattern
/// compiled with the given case-insensitive and dot-matches-newline flags;
/// `None` when it does not compile, nothing matches, or the group took no
/// part in the match.
pub uninterp spec fn regex_first_group(
    pattern: Seq<char>,
    case_insensitive: bool,
    dot_all: bool,
    hay: Seq<char>,
    group: nat,
) -> Option<Seq<char>>;

/// `regex::RegexBuilder` (with `case_insensitive` and
/// `dot_matches_new_line`), then `Regex::captures` on `hay` and
/// `Captures::get`; the contract only names the result.
#[verifier::external_body]
fn first_match_group(pattern: &str, case_insensitive: bool, dot_all: bool, hay: &str, group: usize) -> (r: Option<
    String,
>)
    ensures
        opt_view(r) == regex_first_group(pattern@, case_insensitive, dot_all, hay@, group as nat),
{
    let re = regex::RegexBuilder::new(pattern).case_insensitive(case_insensitive).dot_matches_new_line(dot_all).build().ok()?;
    let caps = re.captures(hay)?;
    let m = caps.get(group)?;
    Some(m.as_str().to_string())
}

/// What `url::Url::parse` makes of `s`: the URL's serialization, or the text
/// of the parse error.
pub uninterp spec fn url_parse_result(s: Seq<char>) -> Result<Seq<char>, Seq<char>>;

/// `url::Url::parse`, the URL serialized back with `to_string`, the error
/// turned into its message; the contract only names the result.
#[verifier::external_body]
fn parse_url(s: &str) -> (r: Result<String, String>)
    ensures
        match r {
            Ok(u) => url_parse_result(s@) == Ok::<Seq<char>, Seq<char>>(u@),
            Err(e) => url_parse_result(s@) == Err::<Seq<char>, Seq<char>>(e@),
        },
{
    match url::Url::parse(s) {
        Ok(u) => Ok(u.to_string()),
        Err(e) => Err(e.to_string()),
    }
}

/// What `Url::join` gives for `href` against the URL serialized as `base`
/// (`None` when either fails to parse).
pub uninterp spec fn url_joined(base: Seq<char>, href: Seq<char>) -> Option<Seq<char>>;

/// `Url::join` of `href` onto `base` (parsed from its serialization); the
/// contract only names the result.
#[verifier::external_body]
fn join_url(base: &str, href: &str) -> (r: Option<String>)
    ensures
        opt_view(r) == url_joined(base@, href@),
{
    let b = url::Url::parse(base).ok()?;
    let j = b.join(href).ok()?;
    Some(j.to_string())
}

/// What `url::Url::parse` makes of `s`: its scheme and host, or the text of
/// the parse error.
pub uninterp spec fn url_scheme_and_host(s: Seq<char>) -> Result<(Seq<char>, Option<Seq<char>>), Seq<char>>;

/// `url::Url::parse`, then `Url::scheme` and `Url::host_str`; the error
/// turned into its message. The contract only names the result.
#[verifier::external_body]
pub(crate) fn scheme_and_host(s: &str) -> (r: Result<(String, Option<String>), String>)
    ensures
        match r {
            Ok((a, b)) => url_scheme_and_host(s@) == Ok::<(Seq<char>, Option<Seq<char>>), Seq<char>>((a@, opt_view(b))),
            Err(e) => url_scheme_and_host(s@) == Err::<(Seq<char>, Option<Seq<char>>), Seq<char>>(e@),
        },
{
    match url::Url::parse(s) {
        Ok(u) => Ok((u.scheme().to_string(), u.host_str().map(|h| h.to_string()))),
        Err(e) => Err(e.to_string()),
    }
}

/// The path of the URL serialized as `u` (`Url::path`); `None` when it does
/// not parse.
pub uninterp spec fn url_path(u: Seq<char>) -> Option<Seq<char>>;

/// `Url::path`; the contract only names the result.
#[verifier::external_body]
pub(crate) fn path_of_url(u: &str) -> (r: Option<String>)
    ensures
        opt_view(r) == url_path(u@),
{
    let p = url::Url::parse(u).ok()?;
    Some(p.path().to_string())
}

/// The URL serialized as `u` with its path replaced by `path`
/// (`Url::set_path`); `None` when it does not parse.
pub uninterp spec fn url_with_path(u: Seq<char>, path: Seq<char>) -> Option<Seq<char>>;

/// `Url::set_path`; the contract only names the result.
#[verifier::external_body]
fn set_url_path(u: &str, path: &str) -> (r: Option<String>)
    ensures
        opt_view(r) == url_with_path(u@, path@),
{
    let mut p = url::Url::parse(u).ok()?;
    p.set_path(path);
    Some(p.to_string())
}

/// The URL serialized as `u` without its query (`Url::set_query(None)`);
/// `None` when it does not parse.
pub uninterp spec fn url_without_query(u: Seq<char>) -> Option<Seq<char>>;

/// `Url::set_query(None)`; the contract only names the result.
#[verifier::external_body]
fn clear_url_query(u: &str) -> (r: Option<String>)
    ensures
        opt_view(r) == url_without_query(u@),
{
    let mut p = url::Url::parse(u).ok()?;
    p.set_query(None);
    Some(p.to_string())
}

/// The decoded query pairs of the URL serialized as `u`
/// (`Url::query_pairs`), in order; none when it does not parse.
pub uninterp spec fn url_query_pairs(u: Seq<char>) -> Seq<(Seq<char>, Seq<char>)>;

/// `Url::query_pairs`, each pair turned into owned strings; the contract
/// only names the result.
#[verifier::external_body]
pub(crate) fn query_pairs_of(u: &str) -> (r: Vec<(String, String)>)
    ensures
        r@.map_values(|p: (String, String)| (p.0@, p.1@)) == url_query_pairs(u@),
{
    match url::Url::parse(u) {
        Ok(p) => p.query_pairs().map(|(k, v)| (k.into_owned(), v.into_owned())).collect(),
        Err(_) => Vec::new(),
    }
}

/// What `Url::parse_with_params` gives for `base` with the single pair
/// `(key, value)` appended to its query (`None` when `base` does not parse).
pub uninterp spec fn url_with_param(base: Seq<char>, key: Seq<char>, value: Seq<char>) -> Option<Seq<char>>;

/// `Url::parse_with_params` with one pair; the contract only names the
/// result.
#[verifier::external_body]
fn url_with_query_param(base: &str, key: &str, value: &str) -> (r: Option<String>)
    ensures
        opt_view(r) == url_with_param(base@, key@, value@),
{
    let u = url::Url::parse_with_params(base, &[(key, value)]).ok()?;
    Some(u.to_string())
}

/// The five HTML entities a page title is unescaped from, in this order.
pub open spec fn unescaped_title(t: Seq<char>) -> Seq<char> {
    replaced(
        replaced(
            replaced(replaced(replaced(t, "&amp;"@, "&"@), "&quot;"@, "\""@), "&#39;"@, "'"@),
            "&lt;"@,
            "<"@,
        ),
        "&gt;"@,
        ">"@,
    )
}

/// The page's `<title>`, trimmed and unescaped; `None` when there is none or
/// it is blank.
pub open spec fn page_title(html: Seq<char>) -> Option<Seq<char>> {
    match regex_first_group(TITLE_PATTERN@, true, true, html, 1) {
        Some(raw) => if trim(raw).len() == 0 {
            None
        } else {
            Some(unescaped_title(trim(raw)))
        },
        None => None,
    }
}

fn replace_str(s: Vec<char>, pat: &str, rep: &str) -> (r: Vec<char>)
    requires
        pat@.len() > 0,
    ensures
        r@ == replaced(s@, pat@, rep@),
{
    let p = chars_of(pat);
    let q = chars_of(rep);
    replace_all(&s, &p, &q)
}

pub fn extract_title(html: &str) -> (r: Option<String>)
    ensures
        opt_view(r) == page_title(html@),
{
    let raw = match first_match_group(TITLE_PATTERN, true, true, html, 1) {
        Some(raw) => raw,
        None => return None,
    };
    let t = trim_str(raw.as_str());
    if t.len() == 0 {
        return None;
    }
    proof {
        reveal_strlit("&amp;");
        reveal_strlit("&quot;");
        reveal_strlit("&#39;");
        reveal_strlit("&lt;");
        reveal_strlit("&gt;");
    }
    let a = replace_str(t, "&amp;", "&");
    let b = replace_str(a, "&quot;", "\"");
    let c = replace_str(b, "&#39;", "'");
    let d = replace_str(c, "&lt;", "<");
    let e = replace_str(d, "&gt;", ">");
    Some(string_of(&e))
}

/// Group 1 of the first match, or group 2 when group 1 took no part.
pub open spec fn first_of_two_groups(pattern: Seq<char>, case_insensitive: bool, hay: Seq<char>) -> Option<Seq<char>> {
    match regex_first_group(pattern, case_insensitive, false, hay, 1) {
        Some(g) => Some(g),
        None => regex_first_group(pattern, case_insensitive, false, hay, 2),
    }
}

fn first_of_two(pattern: &str, hay: &str) -> (r: Option<String>)
    ensures
        opt_view(r) == first_of_two_groups(pattern@, true, hay@),
{
    match first_match_group(pattern, true, false, hay, 1) {
        Some(g) => Some(g),
        None => first_match_group(pattern, true, false, hay, 2),
    }
}

/// The page's `<link rel="icon">` href, resolved against `base`.
pub open spec fn favicon_href(html: Seq<char>, base: Seq<char>) -> Option<Seq<char>> {
    match first_of_two_groups(ICON_LINK_PATTERN@, true, html) {
        Some(href) => url_joined(base, href),
        None => None,
    }
}

pub fn extract_favicon_href(html: &str, base: &str) -> (r: Option<String>)
    ensures
        opt_view(r) == favicon_href(html@, base@),
{
    match first_of_two(ICON_LINK_PATTERN, html) {
        Some(href) => join_url(base, href.as_str()),
        None => None,
    }
}



/// The request URL of the fallback search for `query`.
pub open spec fn search_request(query: Seq<char>) -> Option<Seq<char>> {
    url_with_param(SEARCH_ENDPOINT@, "q"@, query)
}

pub fn search_request_url(query: &str) -> (r: Option<String>)
    ensures
        opt_view(r) == search_request(query@),
{
    url_with_query_param(SEARCH_ENDPOINT, "q", query)
}

/// Whether `i` is the first pair whose key is `key`.
pub open spec fn is_first_pair(pairs: Seq<(Seq<char>, Seq<char>)>, key: Seq<char>, i: int) -> bool {
    &&& 0 <= i < pairs.len()
    &&& pairs[i].0 == key
    &&& forall|k: int| 0 <= k < i ==> pairs[k].0 != key
}

/// The value of the first pair whose key is `key`.
pub open spec fn first_value(pairs: Seq<(Seq<char>, Seq<char>)>, key: Seq<char>) -> Option<Seq<char>> {
    if exists|i: int| is_first_pair(pairs, key, i) {
        Some(pairs[choose|i: int| is_first_pair(pairs, key, i)].1)
    } else {
        None
    }
}

pub(crate) fn find_value(pairs: &Vec<(String, String)>, key: &str) -> (r: Option<String>)
    ensures
        opt_view(r) == first_value(pairs@.map_values(|p: (String, String)| (p.0@, p.1@)), key@),
{
    let ghost ps = pairs@.map_values(|p: (String, String)| (p.0@, p.1@));
    let mut i: usize = 0;
    while i < pairs.len()
        invariant
            i <= pairs.len(),
            ps == pairs@.map_values(|p: (String, String)| (p.0@, p.1@)),
            forall|k: int| 0 <= k < i ==> ps[k].0 != key@,
        decreases pairs.len() - i,
    {
        if str_eq(pairs[i].0.as_str(), key) {
            proof {
                assert(ps[i as int] == (pairs@[i as int].0@, pairs@[i as int].1@));
                assert(is_first_pair(ps, key@, i as int));
                let j = choose|j: int| is_first_pair(ps, key@, j);
                if j < i {
                    assert(ps[j].0 != key@);
                }
                if i < j {
                    assert(ps[i as int].0 != key@);
                }
                assert(j == i);
            }
            return Some(pairs[i].1.clone());
        }
        i = i + 1;
    }
    None
}

/// An href as scraped from HTML: `&amp;` unescaped, and a scheme-relative
/// `//host/...` given `https:`.
pub open spec fn absolute_href(raw: Seq<char>) -> Seq<char> {
    let h = replaced(raw, "&amp;"@, "&"@);
    if "//"@.is_prefix_of(h) {
        "https://"@ + h.skip(2)
    } else {
        h
    }
}

/// The site the first result link of a search results page points to: the
/// link goes through the engine's redirect, which carries the real target in
/// its `uddg` query parameter.
pub open spec fn search_result_target(html: Seq<char>) -> Option<Seq<char>> {
    match first_of_two_groups(SEARCH_RESULT_PATTERN@, true, html) {
        Some(raw) => match url_parse_result(absolute_href(raw)) {
            Ok(redirect) => match first_value(url_query_pairs(redirect), "uddg"@) {
                Some(target) => match url_parse_result(target) {
                    Ok(u) => Some(u),
                    Err(_) => None,
                },
                None => None,
            },
            Err(_) => None,
        },
        None => None,
    }
}

pub fn first_search_result(html: &str) -> (r: Option<String>)
    ensures
        opt_view(r) == search_result_target(html@),
{
    let raw = match first_of_two(SEARCH_RESULT_PATTERN, html) {
        Some(raw) => raw,
        None => return None,
    };
    proof {
        reveal_strlit("&amp;");
        reveal_strlit("//");
    }
    let h = replace_str(chars_of(raw.as_str()), "&amp;", "&");
    let slashes = chars_of("//");
    let href = if starts_with_exec(&h, &slashes) {
        let mut out = String::from_str("https://");
        let mut k: usize = 2;
        let ghost start = out@;
        while k < h.len()
            invariant
                2 <= k <= h.len(),
                out@ == start + h@.subrange(2, k as int),
            decreases h.len() - k,
        {
            push_char(&mut out, h[k]);
            assert(h@.subrange(2, k + 1) =~= h@.subrange(2, k as int).push(h@[k as int]));
            k = k + 1;
        }
        assert(h@.skip(2) =~= h@.subrange(2, h.len() as int));
        out
    } else {
        string_of(&h)
    };
    let redirect = match parse_url(href.as_str()) {
        Ok(u) => u,
        Err(_) => return None,
    };
    let pairs = query_pairs_of(redirect.as_str());
    let target = match find_value(&pairs, "uddg") {
        Some(v) => v,
        None => return None,
    };
    match parse_url(target.as_str()) {
        Ok(u) => Some(u),
        Err(_) => None,
    }
}

/// Where a query leads before anything is fetched: a URL to try, or a
/// search for the query.
pub enum SiteCandidate {
    Url(String),
    Search(String),
}

/// What `site_candidate` decides for a query.
pub open spec fn candidate_for(query: Seq<char>) -> Result<(bool, Seq<char>), Seq<char>> {
    let q = trim(query);
    if q.len() == 0 {
        Err("query vuota"@)
    } else if alias_for(alias_key(q)) is Some {
        Ok((true, alias_for(alias_key(q))->0))
    } else if !q.contains(' ') {
        Ok((true, normalized_query(q)))
    } else {
        Ok((false, q))
    }
}

/// Turns a free-typed query into a candidate: "query vuota" for a blank one;
/// otherwise an alias hit, an omnibox-style guess for a query with no space,
/// or a search for the (trimmed) query. The boolean of the model is `true`
/// for a URL, `false` for a search.
pub fn site_candidate(query: &str) -> (r: Result<SiteCandidate, String>)
    ensures
        match r {
            Ok(SiteCandidate::Url(u)) => candidate_for(query@) == Ok::<(bool, Seq<char>), Seq<char>>((true, u@)),
            Ok(SiteCandidate::Search(q)) => candidate_for(query@) == Ok::<(bool, Seq<char>), Seq<char>>((false, q@)),
            Err(e) => candidate_for(query@) == Err::<(bool, Seq<char>), Seq<char>>(e@),
        },
{
    let t = trim_str(query);
    let q = string_of(&t);
    if t.len() == 0 {
        return Err(String::from_str("query vuota"));
    }
    if let Some(alias) = lookup_alias(q.as_str()) {
        return Ok(SiteCandidate::Url(String::from_str(alias)));
    }
    if looks_like_url(q.as_str()) {
        return Ok(SiteCandidate::Url(normalize_query(q.as_str())));
    }
    Ok(SiteCandidate::Search(q))
}

/// The alias table is consulted before any guess: a query whose trimmed,
/// lowercased form is a key of the table resolves to the URL of that key's
/// first entry, whether or not it holds a space.
pub proof fn law_alias_wins(query: Seq<char>, i: int)
    requires
        trim(query).len() > 0,
        is_first_alias(alias_key(query), i),
    ensures
        candidate_for(query) == Ok::<(bool, Seq<char>), Seq<char>>((true, site_aliases()[i].1@)),
{
    crate::text::lemma_trim_idempotent(query);
    let key = alias_key(query);
    assert(alias_key(trim(query)) == key);
    let j = choose|j: int| is_first_alias(key, j);
    assert(is_first_alias(key, j));
    if j < i {
        assert(site_aliases()[j].0@ != key);
    }
    if i < j {
        assert(site_aliases()[i].0@ != key);
    }
}

/// A query that is no alias: blank is refused; one with a space is searched
/// for, trimmed; a single word becomes an address, kept as typed when it has
/// a scheme and otherwise under `https://`, with `.com` added to a bare word
/// without a dot.
pub proof fn law_non_alias_queries(query: Seq<char>)
    requires
        alias_for(alias_key(query)) is None,
    ensures
        trim(query).len() == 0 ==> candidate_for(query) is Err,
        trim(query).len() > 0 && trim(query).contains(' ') ==> candidate_for(query) == Ok::<
            (bool, Seq<char>),
            Seq<char>,
        >((false, trim(query))),
        trim(query).len() > 0 && !trim(query).contains(' ') && contains_seq(trim(query), "://"@) ==> candidate_for(
            query,
        ) == Ok::<(bool, Seq<char>), Seq<char>>((true, trim(query))),
        trim(query).len() > 0 && !trim(query).contains(' ') && !contains_seq(trim(query), "://"@) && !trim(
            query,
        ).contains('.') ==> candidate_for(query) == Ok::<(bool, Seq<char>), Seq<char>>(
            (true, "https://"@ + trim(query) + ".com"@),
        ),
        trim(query).len() > 0 && !trim(query).contains(' ') && !contains_seq(trim(query), "://"@) && trim(
            query,
        ).contains('.') ==> candidate_for(query) == Ok::<(bool, Seq<char>), Seq<char>>(
            (true, "https://"@ + trim(query)),
        ),
{
    crate::text::lemma_trim_idempotent(query);
}

/// The outcome of the fallback search, from its results page: the target of
/// the first result, or "nessun sito trovato per questa ricerca".
pub fn searched_candidate(html: &str) -> (r: Result<String, String>)
    ensures
        match r {
            Ok(u) => search_result_target(html@) == Some(u@),
            Err(e) => search_result_target(html@) is None && e@ == "nessun sito trovato per questa ricerca"@,
        },
{
    match first_search_result(html) {
        Some(u) => Ok(u),
        None => Err(String::from_str("nessun sito trovato per questa ricerca")),
    }
}

/// A candidate URL as it will be fetched and saved: its parsed
/// serialization, or the parse error's message.
pub fn parse_candidate(candidate: &str) -> (r: Result<String, String>)
    ensures
        match r {
            Ok(u) => url_parse_result(candidate@) == Ok::<Seq<char>, Seq<char>>(u@),
            Err(e) => url_parse_result(candidate@) == Err::<Seq<char>, Seq<char>>(e@),
        },
{
    parse_url(candidate)
}

/// The URL's `/favicon.ico`, without its query.
pub open spec fn favicon_fallback(u: Seq<char>) -> Option<Seq<char>> {
    match url_with_path(u, "/favicon.ico"@) {
        Some(p) => url_without_query(p),
        None => None,
    }
}

fn favicon_fallback_url(u: &str) -> (r: Option<String>)
    ensures
        opt_view(r) == favicon_fallback(u@),
{
    match set_url_path(u, "/favicon.ico") {
        Some(p) => clear_url_query(p.as_str()),
        None => None,
    }
}

/// The icon to fetch for a page: its `<link rel="icon">` when it has one,
/// its `/favicon.ico` otherwise.
pub open spec fn page_icon(final_url: Seq<char>, html: Seq<char>) -> Option<Seq<char>> {
    match favicon_href(html, final_url) {
        Some(h) => Some(h),
        None => favicon_fallback(final_url),
    }
}

pub fn page_icon_url(final_url: &str, html: &str) -> (r: Option<String>)
    ensures
        opt_view(r) == page_icon(final_url@, html@),
{
    match extract_favicon_href(html, final_url) {
        Some(h) => Some(h),
        None => favicon_fallback_url(final_url),
    }
}

/// A resolved site before its icon is downloaded: the URL to save, its
/// title, and the icon URL to fetch.
pub struct SiteDraft {
    pub url: String,
    pub title: String,
    pub icon_url: Option<String>,
}

/// The host of a URL, `None` when it has none or does not parse.
pub open spec fn host_of_url(u: Seq<char>) -> Option<Seq<char>> {
    match url_scheme_and_host(u) {
        Ok((_, h)) => h,
        Err(_) => None,
    }
}

fn host_of(u: &str) -> (r: Option<String>)
    ensures
        opt_view(r) == host_of_url(u@),
{
    match scheme_and_host(u) {
        Ok((_, h)) => h,
        Err(_) => None,
    }
}

/// Whether the fetch of `candidate` ended on another host (typically a
/// login page), in which case the page's own title and icon are not used.
pub open spec fn redirected_elsewhere(candidate: Seq<char>, final_url: Seq<char>) -> bool {
    host_of_url(final_url) != host_of_url(candidate)
}

/// Builds what the search resolves to once the candidate was fetched
/// (ending at `final_url` with body `html`). The URL saved is the candidate
/// itself. When the fetch ended on another host, the title is the query
/// title-cased and the icon is the candidate's `/favicon.ico`; otherwise the
/// page's title (the title-cased query when it has none) and the page's
/// icon.
pub fn site_draft(query: &str, candidate: &str, final_url: &str, html: &str) -> (r: SiteDraft)
    ensures
        r.url@ == candidate@,
        r.title@ == if redirected_elsewhere(candidate@, final_url@) {
            title_cased(trim(query@))
        } else {
            match page_title(html@) {
                Some(t) => t,
                None => title_cased(trim(query@)),
            }
        },
        opt_view(r.icon_url) == if redirected_elsewhere(candidate@, final_url@) {
            favicon_fallback(candidate@)
        } else {
            page_icon(final_url@, html@)
        },
{
    let q = string_of(&trim_str(query));
    let h1 = host_of(final_url);
    let h2 = host_of(candidate);
    let redirected = match (&h1, &h2) {
        (Some(a), Some(b)) => !str_eq(a.as_str(), b.as_str()),
        (None, None) => false,
        _ => true,
    };
    let title = if redirected {
        title_case(q.as_str())
    } else {
        match extract_title(html) {
            Some(t) => t,
            None => title_case(q.as_str()),
        }
    };
    let icon_url = if redirected {
        favicon_fallback_url(candidate)
    } else {
        page_icon_url(final_url, html)
    };
    SiteDraft { url: String::from_str(candidate), title, icon_url }
}

} // verus!
