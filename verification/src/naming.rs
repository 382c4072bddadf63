//! Names derived from user-chosen text: the filesystem-safe data folder slug
//! of an app, launcher file names, OS identifiers built from ids, and the
//! escaping applied when such text is embedded in XML, plists or desktop
//! entries.
use vstd::prelude::*;
use crate::text::{
    push_all, trim, trim_chars,
    lemma_decimal_digits, lemma_decimal_len, chars_eq, chars_of, decimal, decimal_exec, is_ascii_alnum, is_ascii_alnum_exec,
    lemma_decimal_injective, no_ascii_upper, str_to_lowercase, string_of, to_lowercase,
};

verus! {

/// One step of the slug scan over the lowercased name: keep ASCII letters
/// and digits, turn each run of anything else into a single '-', and never
/// start with a '-'. The boolean is "the last character written was a '-'
/// produced by this rule".
pub open spec fn slug_scan(s: Seq<char>) -> (Seq<char>, bool)
    decreases s.len(),
{
    if s.len() == 0 {
        (Seq::empty(), false)
    } else {
        let prev = slug_scan(s.drop_last());
        let c = s.last();
        if is_ascii_alnum(c) {
            (prev.0.push(c), false)
        } else if !prev.1 && prev.0.len() > 0 {
            (prev.0.push('-'), true)
        } else {
            prev
        }
    }
}

/// `s` without its trailing '-' characters.
pub open spec fn strip_trailing_dashes(s: Seq<char>) -> Seq<char>
    decreases s.len(),
{
    if s.len() > 0 && s.last() == '-' {
        strip_trailing_dashes(s.drop_last())
    } else {
        s
    }
}

/// The slug of a name before deduplication: the lowercased name's ASCII
/// alphanumeric runs joined by single dashes, or "app" when there are none.
pub open spec fn slug_base(name: Seq<char>) -> Seq<char> {
    let s = strip_trailing_dashes(slug_scan(str_to_lowercase(name)).0);
    if s.len() == 0 {
        "app"@
    } else {
        s
    }
}

/// The `n`-th deduplicated variant of a slug, "<base>-<n>".
pub open spec fn slug_candidate(base: Seq<char>, n: nat) -> Seq<char> {
    base + "-"@ + decimal(n)
}

/// Some string in `taken` has the characters `s`.
pub open spec fn is_taken(taken: Seq<String>, s: Seq<char>) -> bool {
    exists|i: int| 0 <= i < taken.len() && (#[trigger] taken[i])@ == s
}

/// What `slugify(name, taken)` returns: the base slug when it is free,
/// otherwise the first free "<base>-<n>" for n = 2, 3, ...
pub open spec fn is_slugify_result(name: Seq<char>, taken: Seq<String>, r: Seq<char>) -> bool {
    let base = slug_base(name);
    if !is_taken(taken, base) {
        r == base
    } else {
        exists|n: nat|
            #![trigger slug_candidate(base, n)]
            {
                &&& n >= 2
                &&& r == slug_candidate(base, n)
                &&& !is_taken(taken, r)
                &&& forall|m: nat| 2 <= m < n ==> is_taken(taken, #[trigger] slug_candidate(base, m))
            }
    }
}

/// Whether some string in `taken` has the characters `s`.
pub fn taken_contains(taken: &Vec<String>, s: &Vec<char>) -> (b: bool)
    ensures
        b == is_taken(taken@, s@),
{
    let mut i: usize = 0;
    while i < taken.len()
        invariant
            i <= taken.len(),
            forall|k: int| 0 <= k < i ==> (#[trigger] taken@[k])@ != s@,
        decreases taken.len() - i,
    {
        let t = chars_of(taken[i].as_str());
        if chars_eq(&t, s) {
            return true;
        }
        i = i + 1;
    }
    false
}

proof fn lemma_candidate_injective(base: Seq<char>, n: nat, m: nat)
    requires
        slug_candidate(base, n) == slug_candidate(base, m),
    ensures
        n == m,
{
    let p = base + "-"@;
    let a = slug_candidate(base, n);
    assert(decimal(n) =~= a.skip(p.len() as int));
    assert(decimal(m) =~= slug_candidate(base, m).skip(p.len() as int));
    lemma_decimal_injective(n, m);
}

/// If the candidates 2..n are all taken, there are at least n-2 taken strings.
proof fn lemma_candidates_fit(taken: Seq<String>, base: Seq<char>, n: nat)
    requires
        n >= 2,
        forall|m: nat| 2 <= m < n ==> is_taken(taken, #[trigger] slug_candidate(base, m)),
    ensures
        n - 2 <= taken.len(),
{
    let tv = taken.map_values(|t: String| t@);
    let c = Seq::new((n - 2) as nat, |i: int| slug_candidate(base, (i + 2) as nat));
    assert(c.no_duplicates()) by {
        assert forall|i: int, j: int| 0 <= i < c.len() && 0 <= j < c.len() && i != j implies c[i]
            != c[j] by {
            if c[i] == c[j] {
                lemma_candidate_injective(base, (i + 2) as nat, (j + 2) as nat);
            }
        }
    }
    c.unique_seq_to_set();
    tv.lemma_cardinality_of_set();
    assert(c.to_set().subset_of(tv.to_set())) by {
        assert forall|x: Seq<char>| c.to_set().contains(x) implies tv.to_set().contains(x) by {
            let i = choose|i: int| 0 <= i < c.len() && c[i] == x;
            let m = (i + 2) as nat;
            assert(c[i] == slug_candidate(base, m));
            assert(is_taken(taken, slug_candidate(base, m)));
            let k = choose|k: int| 0 <= k < taken.len() && (#[trigger] taken[k])@ == slug_candidate(
                base,
                m,
            );
            assert(tv[k] == x);
        }
    }
    vstd::set_lib::lemma_len_subset(c.to_set(), tv.to_set());
}

/// Turns an app name into a filesystem-safe folder name (lowercase ASCII
/// letters and digits, other runs collapsed to '-'), deduplicated against
/// `taken` by appending "-2", "-3", ...
pub fn slugify(name: &str, taken: &Vec<String>) -> (r: String)
    requires
        taken@.len() + 2 <= usize::MAX,
    ensures
        is_slugify_result(name@, taken@, r@),
        is_lower_slug(r@),
{
    let lower = to_lowercase(name);
    let chars = chars_of(lower.as_str());
    let ghost lv = str_to_lowercase(name@);
    let mut slug: Vec<char> = Vec::new();
    let mut last_dash = false;
    let mut i: usize = 0;
    while i < chars.len()
        invariant
            chars@ == lv,
            i <= chars.len(),
            (slug@, last_dash) == slug_scan(lv.take(i as int)),
        decreases chars.len() - i,
    {
        let c = chars[i];
        assert(lv.take(i + 1).drop_last() =~= lv.take(i as int));
        if is_ascii_alnum_exec(c) {
            slug.push(c);
            last_dash = false;
        } else if !last_dash && slug.len() > 0 {
            slug.push('-');
            last_dash = true;
        }
        i = i + 1;
    }
    assert(lv.take(chars.len() as int) =~= lv);
    let ghost scanned = slug@;
    while slug.len() > 0 && slug[slug.len() - 1] == '-'
        invariant
            strip_trailing_dashes(slug@) == strip_trailing_dashes(scanned),
        decreases slug.len(),
    {
        slug.pop();
    }
    let base: Vec<char> = if slug.len() == 0 {
        let v = chars_of("app");
        v
    } else {
        slug
    };
    assert(base@ == slug_base(name@));
    if !taken_contains(taken, &base) {
        let r = string_of(&base);
        proof {
            lemma_slugify_result_lower(name@, taken@, r@);
        }
        return r;
    }
    let mut n: usize = 2;
    loop
        invariant
            base@ == slug_base(name@),
            no_ascii_upper(str_to_lowercase(name@)),
            is_taken(taken@, base@),
            taken@.len() + 2 <= usize::MAX,
            2 <= n <= taken@.len() + 2,
            forall|m: nat| 2 <= m < n ==> is_taken(taken@, #[trigger] slug_candidate(base@, m)),
        decreases taken@.len() + 2 - n,
    {
        let mut cand: Vec<char> = Vec::new();
        let mut j: usize = 0;
        while j < base.len()
            invariant
                j <= base.len(),
                cand@ == base@.take(j as int),
            decreases base.len() - j,
        {
            cand.push(base[j]);
            assert(base@.take(j + 1) =~= base@.take(j as int).push(base@[j as int]));
            j = j + 1;
        }
        assert(base@.take(base.len() as int) =~= base@);
        cand.push('-');
        proof {
            reveal_strlit("-");
        }
        let digits = decimal_exec(n as u64);
        let mut k: usize = 0;
        let ghost pre = cand@;
        while k < digits.len()
            invariant
                k <= digits.len(),
                cand@ == pre + digits@.take(k as int),
            decreases digits.len() - k,
        {
            cand.push(digits[k]);
            assert(digits@.take(k + 1) =~= digits@.take(k as int).push(digits@[k as int]));
            k = k + 1;
        }
        assert(digits@.take(digits.len() as int) =~= digits@);
        assert(cand@ =~= slug_candidate(base@, n as nat));
        if !taken_contains(taken, &cand) {
            let r = string_of(&cand);
            assert(is_slugify_result(name@, taken@, r@)) by {
                assert(r@ == slug_candidate(base@, n as nat));
            }
            proof {
                lemma_slugify_result_lower(name@, taken@, r@);
            }
            return r;
        }
        proof {
            assert forall|m: nat| 2 <= m < n + 1 implies is_taken(taken@, #[trigger] slug_candidate(base@, m)) by {
                if m < n {
                }
            }
            lemma_candidates_fit(taken@, base@, (n + 1) as nat);
        }
        n = n + 1;
    }
}

/// A name that can never escape a single path component: non-empty, at most
/// 128 characters, only ASCII letters, digits, '-' and '_'.
pub open spec fn spec_is_safe_path_component(s: Seq<char>) -> bool {
    &&& 0 < s.len() <= 128
    &&& forall|k: int| 0 <= k < s.len() ==> is_ascii_alnum(#[trigger] s[k]) || s[k] == '-' || s[k] == '_'
}

/// Whether `s` is a safe single path component (session groups and app
/// slugs are joined into paths that may later be deleted recursively).
pub fn is_safe_path_component(s: &str) -> (b: bool)
    ensures
        b == spec_is_safe_path_component(s@),
{
    let v = chars_of(s);
    if v.len() == 0 || v.len() > 128 {
        return false;
    }
    let mut i: usize = 0;
    while i < v.len()
        invariant
            v@ == s@,
            0 < v.len() <= 128,
            i <= v.len(),
            forall|k: int| 0 <= k < i ==> is_ascii_alnum(#[trigger] v@[k]) || v@[k] == '-' || v@[k] == '_',
        decreases v.len() - i,
    {
        let c = v[i];
        if !(is_ascii_alnum_exec(c) || c == '-' || c == '_') {
            assert(!spec_is_safe_path_component(s@)) by {
                let k = i as int;
                assert(s@[k] == c);
                assert(!(is_ascii_alnum(s@[k]) || s@[k] == '-' || s@[k] == '_'));
            }
            return false;
        }
        i = i + 1;
    }
    true
}

/// Only ASCII letters, digits and '-', never starting or ending with '-'.
pub open spec fn is_slug_shaped(s: Seq<char>) -> bool {
    &&& s.len() > 0
    &&& forall|k: int| 0 <= k < s.len() ==> is_ascii_alnum(#[trigger] s[k]) || s[k] == '-'
    &&& is_ascii_alnum(s[0])
    &&& is_ascii_alnum(s.last())
}

proof fn lemma_slug_scan(s: Seq<char>)
    ensures
        forall|k: int| 0 <= k < slug_scan(s).0.len() ==> is_ascii_alnum(#[trigger] slug_scan(s).0[k]) || slug_scan(s).0[k] == '-',
        slug_scan(s).0.len() > 0 ==> is_ascii_alnum(slug_scan(s).0[0]),
    decreases s.len(),
{
    if s.len() > 0 {
        lemma_slug_scan(s.drop_last());
        let prev = slug_scan(s.drop_last()).0;
        let cur = slug_scan(s).0;
        assert forall|k: int| 0 <= k < cur.len() implies is_ascii_alnum(#[trigger] cur[k]) || cur[k] == '-' by {
            if k < prev.len() {
                assert(cur[k] == prev[k]);
            }
        }
        if prev.len() > 0 {
            assert(cur[0] == prev[0]);
        }
    }
}

proof fn lemma_strip(s: Seq<char>)
    ensures
        strip_trailing_dashes(s).len() <= s.len(),
        strip_trailing_dashes(s) =~= s.take(strip_trailing_dashes(s).len() as int),
        strip_trailing_dashes(s).len() > 0 ==> strip_trailing_dashes(s).last() != '-',
    decreases s.len(),
{
    if s.len() > 0 && s.last() == '-' {
        lemma_strip(s.drop_last());
    }
}

proof fn lemma_slug_base_shaped(name: Seq<char>)
    ensures
        is_slug_shaped(slug_base(name)),
{
    let sc = slug_scan(str_to_lowercase(name)).0;
    lemma_slug_scan(str_to_lowercase(name));
    lemma_strip(sc);
    let st = strip_trailing_dashes(sc);
    if st.len() == 0 {
        reveal_strlit("app");
    } else {
        assert forall|k: int| 0 <= k < st.len() implies is_ascii_alnum(#[trigger] st[k]) || st[k] == '-' by {
            assert(st[k] == sc[k]);
        }
        assert(st[0] == sc[0]);
        assert(st.last() == sc[st.len() - 1]);
    }
}

/// No two dashes in a row.
pub open spec fn no_double_dash(s: Seq<char>) -> bool {
    forall|k: int| 0 <= k < s.len() - 1 ==> !(#[trigger] s[k] == '-' && s[k + 1] == '-')
}

/// A slug in the documented alphabet: lowercase ASCII letters, digits and
/// single dashes, starting and ending with a letter or digit.
pub open spec fn is_lower_slug(s: Seq<char>) -> bool {
    &&& is_slug_shaped(s)
    &&& no_ascii_upper(s)
    &&& no_double_dash(s)
}

proof fn lemma_slug_scan_lower(s: Seq<char>)
    requires
        no_ascii_upper(s),
    ensures
        no_ascii_upper(slug_scan(s).0),
        no_double_dash(slug_scan(s).0),
        slug_scan(s).1 <==> (slug_scan(s).0.len() > 0 && slug_scan(s).0.last() == '-'),
    decreases s.len(),
{
    if s.len() > 0 {
        let t = s.drop_last();
        assert forall|k: int| 0 <= k < t.len() implies !('A' <= #[trigger] t[k] && t[k] <= 'Z') by {
            assert(t[k] == s[k]);
        }
        lemma_slug_scan_lower(t);
        let prev = slug_scan(t).0;
        let cur = slug_scan(s).0;
        assert(!('A' <= s[s.len() - 1] && s[s.len() - 1] <= 'Z'));
        assert forall|k: int| 0 <= k < cur.len() implies !('A' <= #[trigger] cur[k] && cur[k] <= 'Z') by {
            if k < prev.len() {
                assert(cur[k] == prev[k]);
            }
        }
        assert forall|k: int| 0 <= k < cur.len() - 1 implies !(#[trigger] cur[k] == '-' && cur[k + 1] == '-') by {
            if k + 1 < prev.len() {
                assert(cur[k] == prev[k] && cur[k + 1] == prev[k + 1]);
            } else {
                assert(cur[k] == prev[k]);
            }
        }
    }
}

/// Every slug `slugify` hands out is in the documented alphabet, given that
/// the lowercased name holds no ASCII capital (which `to_lowercase` states
/// of every result).
pub proof fn lemma_slugify_result_lower(name: Seq<char>, taken: Seq<String>, r: Seq<char>)
    requires
        is_slugify_result(name, taken, r),
        no_ascii_upper(str_to_lowercase(name)),
    ensures
        is_lower_slug(r),
{
    law_slug_is_fresh_and_safe(name, taken, r);
    let sc = slug_scan(str_to_lowercase(name)).0;
    lemma_slug_scan_lower(str_to_lowercase(name));
    lemma_strip(sc);
    let st = strip_trailing_dashes(sc);
    let base = slug_base(name);
    assert(no_ascii_upper(base) && no_double_dash(base)) by {
        if st.len() == 0 {
            reveal_strlit("app");
        } else {
            assert forall|k: int| 0 <= k < st.len() implies !('A' <= #[trigger] st[k] && st[k] <= 'Z') by {
                assert(st[k] == sc[k]);
            }
            assert forall|k: int| 0 <= k < st.len() - 1 implies !(#[trigger] st[k] == '-' && st[k + 1] == '-') by {
                assert(st[k] == sc[k] && st[k + 1] == sc[k + 1]);
            }
        }
    }
    lemma_slug_base_shaped(name);
    if is_taken(taken, base) {
        let n = choose|n: nat|
            #![trigger slug_candidate(base, n)]
            {
                &&& n >= 2
                &&& r == slug_candidate(base, n)
                &&& !is_taken(taken, r)
                &&& forall|m: nat| 2 <= m < n ==> is_taken(taken, #[trigger] slug_candidate(base, m))
            };
        reveal_strlit("-");
        lemma_decimal_digits(n);
        lemma_decimal_len(n);
        let d = decimal(n);
        assert forall|k: int| 0 <= k < r.len() implies !('A' <= #[trigger] r[k] && r[k] <= 'Z') by {
            if k < base.len() {
                assert(r[k] == base[k]);
            } else if k == base.len() {
            } else {
                assert(r[k] == d[k - base.len() - 1]);
            }
        }
        assert forall|k: int| 0 <= k < r.len() - 1 implies !(#[trigger] r[k] == '-' && r[k + 1] == '-') by {
            if k + 1 < base.len() {
                assert(r[k] == base[k] && r[k + 1] == base[k + 1]);
            } else if k + 1 == base.len() {
                assert(r[k] == base[k]);
                assert(base[k] == base.last());
            } else if k == base.len() {
                assert(r[k + 1] == d[0]);
            } else {
                assert(r[k] == d[k - base.len() - 1]);
            }
        }
    }
}

/// Every slug `slugify` hands out is made of ASCII letters, digits and
/// dashes, starts and ends with a letter or digit, and is not in `taken`;
/// when it is at most 128 characters long it is therefore accepted as a safe
/// path component, so an app's data folder always stays inside the webapps
/// directory.
pub proof fn law_slug_is_fresh_and_safe(name: Seq<char>, taken: Seq<String>, r: Seq<char>)
    requires
        is_slugify_result(name, taken, r),
    ensures
        is_slug_shaped(r),
        !is_taken(taken, r),
        r.len() <= 128 ==> spec_is_safe_path_component(r),
{
    let base = slug_base(name);
    lemma_slug_base_shaped(name);
    if is_taken(taken, base) {
        let n = choose|n: nat|
            #![trigger slug_candidate(base, n)]
            {
                &&& n >= 2
                &&& r == slug_candidate(base, n)
                &&& !is_taken(taken, r)
                &&& forall|m: nat| 2 <= m < n ==> is_taken(taken, #[trigger] slug_candidate(base, m))
            };
        reveal_strlit("-");
        lemma_decimal_digits(n);
        lemma_decimal_len(n);
        let d = decimal(n);
        assert forall|k: int| 0 <= k < r.len() implies is_ascii_alnum(#[trigger] r[k]) || r[k] == '-' by {
            if k < base.len() {
                assert(r[k] == base[k]);
            } else if k == base.len() {
            } else {
                assert(r[k] == d[k - base.len() - 1]);
            }
        }
        assert(r[0] == base[0]);
        assert(r.last() == d.last());
    }
}

/// The escaping rules applied to text embedded in generated files.
pub enum Escape {
    /// XML text and attribute values (toast notifications): & < > "
    Xml,
    /// Info.plist string values: & < > " '
    Plist,
    /// A quoted argument of a desktop entry `Exec=` line: \ " ` $ get a backslash.
    DesktopExecArg,
    /// A desktop entry `Name=` value: '\' becomes '/', newlines become spaces.
    DesktopName,
    /// A file name: each of \ / : * ? " < > | becomes '_'.
    FileName,
    /// An AppUserModelID component: anything but an ASCII letter or digit becomes '_'.
    AumidPart,
    /// A bundle identifier component: anything but an ASCII letter or digit becomes '-'.
    BundlePart,
}

/// What one character becomes under an escaping rule.
pub open spec fn escape_char(kind: Escape, c: char) -> Seq<char> {
    match kind {
        Escape::Xml => if c == '&' {
            "&amp;"@
        } else if c == '<' {
            "&lt;"@
        } else if c == '>' {
            "&gt;"@
        } else if c == '"' {
            "&quot;"@
        } else {
            seq![c]
        },
        Escape::Plist => if c == '&' {
            "&amp;"@
        } else if c == '<' {
            "&lt;"@
        } else if c == '>' {
            "&gt;"@
        } else if c == '"' {
            "&quot;"@
        } else if c == '\'' {
            "&apos;"@
        } else {
            seq![c]
        },
        Escape::DesktopExecArg => if c == '\\' || c == '"' || c == '`' || c == '$' {
            seq!['\\', c]
        } else {
            seq![c]
        },
        Escape::DesktopName => if c == '\\' {
            seq!['/']
        } else if c == '\n' || c == '\r' {
            seq![' ']
        } else {
            seq![c]
        },
        Escape::FileName => if c == '\\' || c == '/' || c == ':' || c == '*' || c == '?' || c
            == '"' || c == '<' || c == '>' || c == '|' {
            seq!['_']
        } else {
            seq![c]
        },
        Escape::AumidPart => if is_ascii_alnum(c) {
            seq![c]
        } else {
            seq!['_']
        },
        Escape::BundlePart => if is_ascii_alnum(c) {
            seq![c]
        } else {
            seq!['-']
        },
    }
}

/// Every character of `s` escaped under `kind`, in order.
pub open spec fn escape_seq(kind: Escape, s: Seq<char>) -> Seq<char>
    decreases s.len(),
{
    if s.len() == 0 {
        Seq::empty()
    } else {
        escape_seq(kind, s.drop_last()) + escape_char(kind, s.last())
    }
}

fn one(c: char) -> (r: Vec<char>)
    ensures
        r@ == seq![c],
{
    let mut r: Vec<char> = Vec::new();
    r.push(c);
    assert(r@ =~= seq![c]);
    r
}

fn escape_char_exec(kind: &Escape, c: char) -> (r: Vec<char>)
    ensures
        r@ == escape_char(*kind, c),
{
    match kind {
        Escape::Xml => if c == '&' {
            chars_of("&amp;")
        } else if c == '<' {
            chars_of("&lt;")
        } else if c == '>' {
            chars_of("&gt;")
        } else if c == '"' {
            chars_of("&quot;")
        } else {
            one(c)
        },
        Escape::Plist => if c == '&' {
            chars_of("&amp;")
        } else if c == '<' {
            chars_of("&lt;")
        } else if c == '>' {
            chars_of("&gt;")
        } else if c == '"' {
            chars_of("&quot;")
        } else if c == '\'' {
            chars_of("&apos;")
        } else {
            one(c)
        },
        Escape::DesktopExecArg => if c == '\\' || c == '"' || c == '`' || c == '$' {
            let mut r = one('\\');
            r.push(c);
            assert(r@ =~= seq!['\\', c]);
            r
        } else {
            one(c)
        },
        Escape::DesktopName => if c == '\\' {
            one('/')
        } else if c == '\n' || c == '\r' {
            one(' ')
        } else {
            one(c)
        },
        Escape::FileName => if c == '\\' || c == '/' || c == ':' || c == '*' || c == '?' || c
            == '"' || c == '<' || c == '>' || c == '|' {
            one('_')
        } else {
            one(c)
        },
        Escape::AumidPart => if is_ascii_alnum_exec(c) {
            one(c)
        } else {
            one('_')
        },
        Escape::BundlePart => if is_ascii_alnum_exec(c) {
            one(c)
        } else {
            one('-')
        },
    }
}

/// Escapes every character of `s` under `kind`.
pub fn escape_text(kind: Escape, s: &str) -> (r: String)
    ensures
        r@ == escape_seq(kind, s@),
{
    let v = chars_of(s);
    let mut out = String::new();
    let mut i: usize = 0;
    while i < v.len()
        invariant
            i <= v.len(),
            v@ == s@,
            out@ == escape_seq(kind, v@.take(i as int)),
        decreases v.len() - i,
    {
        let e = escape_char_exec(&kind, v[i]);
        push_all(&mut out, &e);
        assert(v@.take(i + 1).drop_last() =~= v@.take(i as int));
        i = i + 1;
    }
    assert(v@.take(v.len() as int) =~= v@);
    out
}

/// `xml_escape`: & < > " as XML entities.
pub fn xml_escape(s: &str) -> (r: String)
    ensures
        r@ == escape_seq(Escape::Xml, s@),
{
    escape_text(Escape::Xml, s)
}

/// `plist_escape`: & < > " ' as XML entities, for Info.plist values.
pub fn plist_escape(s: &str) -> (r: String)
    ensures
        r@ == escape_seq(Escape::Plist, s@),
{
    escape_text(Escape::Plist, s)
}

/// `quote_exec_arg`: a double-quoted desktop entry `Exec=` argument.
pub fn quote_exec_arg(s: &str) -> (r: String)
    ensures
        r@ == "\""@ + escape_seq(Escape::DesktopExecArg, s@) + "\""@,
{
    let mut r = String::from_str("\"");
    let e = escape_text(Escape::DesktopExecArg, s);
    r.append(e.as_str());
    r.append("\"");
    r
}

/// `escape_name`: a desktop entry `Name=` value.
pub fn escape_name(s: &str) -> (r: String)
    ensures
        r@ == escape_seq(Escape::DesktopName, s@),
{
    escape_text(Escape::DesktopName, s)
}

/// What `sanitize_filename` returns: reserved file-name characters replaced
/// by '_', surrounding whitespace trimmed, "app" if nothing is left.
pub open spec fn spec_sanitize_filename(name: Seq<char>) -> Seq<char> {
    let t = trim(escape_seq(Escape::FileName, name));
    if t.len() == 0 {
        "app"@
    } else {
        t
    }
}

/// Turns an app name into a usable file name.
pub fn sanitize_filename(name: &str) -> (r: String)
    ensures
        r@ == spec_sanitize_filename(name@),
{
    let cleaned = escape_text(Escape::FileName, name);
    let cv = chars_of(cleaned.as_str());
    let t = trim_chars(&cv);
    if t.len() == 0 {
        String::from_str("app")
    } else {
        string_of(&t)
    }
}

/// File name of an app's Start Menu shortcut: "<sanitized name>.lnk".
pub fn shortcut_file_name(app_name: &str) -> (r: String)
    ensures
        r@ == spec_sanitize_filename(app_name@) + ".lnk"@,
{
    let mut r = sanitize_filename(app_name);
    r.append(".lnk");
    r
}

/// Directory name of an app's launcher bundle: "<sanitized name>.app".
pub fn bundle_dir_name(app_name: &str) -> (r: String)
    ensures
        r@ == spec_sanitize_filename(app_name@) + ".app"@,
{
    let mut r = sanitize_filename(app_name);
    r.append(".app");
    r
}

/// File name of an app's desktop entry: "silos-<sanitized id>.desktop".
pub fn desktop_file_name(app_id: &str) -> (r: String)
    ensures
        r@ == "silos-"@ + spec_sanitize_filename(app_id@) + ".desktop"@,
{
    let mut r = String::from_str("silos-");
    let s = sanitize_filename(app_id);
    r.append(s.as_str());
    r.append(".desktop");
    r
}

/// An AppUserModelID "<prefix>.<slug>" with every character of the slug
/// that is not an ASCII letter or digit replaced by '_'.
pub fn aumid_for_slug(prefix: &str, slug: &str) -> (r: String)
    ensures
        r@ == prefix@ + "."@ + escape_seq(Escape::AumidPart, slug@),
{
    let mut r = String::from_str(prefix);
    r.append(".");
    let e = escape_text(Escape::AumidPart, slug);
    r.append(e.as_str());
    r
}

/// A bundle identifier "com.silos.webapp.<id>" with every character of the
/// id that is not an ASCII letter or digit replaced by '-'.
pub fn bundle_identifier(app_id: &str) -> (r: String)
    ensures
        r@ == "com.silos.webapp."@ + escape_seq(Escape::BundlePart, app_id@),
{
    let mut r = String::from_str("com.silos.webapp.");
    let e = escape_text(Escape::BundlePart, app_id);
    r.append(e.as_str());
    r
}

/// The toast XML for a web notification: title and body as two text lines,
/// plus the page's icon as the app logo when one is given and non-empty.
pub open spec fn spec_toast_xml(title: Seq<char>, body: Seq<char>, icon_uri: Option<Seq<char>>) -> Seq<char> {
    let image = match icon_uri {
        Some(u) => if u.len() > 0 {
            "<image placement=\"appLogoOverride\" hint-crop=\"circle\" src=\""@ + escape_seq(Escape::Xml, u) + "\"/>"@
        } else {
            Seq::empty()
        },
        None => Seq::empty(),
    };
    "<toast><visual><binding template=\"ToastGeneric\"><text>"@ + escape_seq(Escape::Xml, title) + "</text><text>"@
        + escape_seq(Escape::Xml, body) + "</text>"@ + image + "</binding></visual></toast>"@
}

pub fn build_toast_xml(title: &str, body: &str, icon_uri: Option<&str>) -> (r: String)
    ensures
        r@ == spec_toast_xml(title@, body@, match icon_uri { Some(u) => Some(u@), None => None }),
{
    let mut r = String::from_str("<toast><visual><binding template=\"ToastGeneric\"><text>");
    let t = xml_escape(title);
    r.append(t.as_str());
    r.append("</text><text>");
    let b = xml_escape(body);
    r.append(b.as_str());
    r.append("</text>");
    match icon_uri {
        Some(u) => {
            if !u.is_empty() {
                r.append("<image placement=\"appLogoOverride\" hint-crop=\"circle\" src=\"");
                let e = xml_escape(u);
                r.append(e.as_str());
                r.append("\"/>");
            }
        },
        None => {},
    }
    r.append("</binding></visual></toast>");
    r
}

} // verus!
