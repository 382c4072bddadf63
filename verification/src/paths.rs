//! Where things live on disk: the portable data root next to the
//! executable (or next to the `.app` bundle on macOS), the per-app webapp
//! folders and the per-session-group folders inside them. Paths are handled
//! as strings; joining, splitting and comparing them is left to
//! `std::path`.
use vstd::prelude::*;
use crate::models::opt_view;
use crate::naming::{is_safe_path_component, spec_is_safe_path_component};
use crate::text::{chars_of, eq_ignore_ascii_case, eq_ignore_ascii_case_exec, is_ascii_alnum};

verus! {

/// What `Path::parent` gives for the path `p`, with the path syntax of the
/// target the crate is built for (`std::path` is fixed per target).
pub uninterp spec fn path_parent(p: Seq<char>) -> Option<Seq<char>>;

/// `Path::parent`. Besides naming the result, the contract states that a
/// parent is shorter than its path: `Path::parent` is documented to return
/// the path without its final component, a leading part of the same string.
#[verifier::external_body]
fn parent_of(p: &str) -> (r: Option<String>)
    ensures
        opt_view(r) == path_parent(p@),
        match r {
            Some(q) => q@.len() < p@.len(),
            None => true,
        },
{
    std::path::Path::new(p).parent().map(|q| q.to_string_lossy().to_string())
}

/// What `Path::extension` gives for the path `p` (target path syntax).
pub uninterp spec fn path_extension(p: Seq<char>) -> Option<Seq<char>>;

/// `Path::extension`; the contract only names the result.
#[verifier::external_body]
pub(crate) fn extension_of(p: &str) -> (r: Option<String>)
    ensures
        opt_view(r) == path_extension(p@),
{
    std::path::Path::new(p).extension().map(|e| e.to_string_lossy().to_string())
}

/// What `Path::join` gives for `part` pushed onto `base` (target path
/// syntax).
pub uninterp spec fn path_joined(base: Seq<char>, part: Seq<char>) -> Seq<char>;

/// A character that can stand right before a path's last component: a
/// separator (`/`, or `\` on Windows) or the `:` that ends a Windows drive
/// prefix such as `C:`.
pub open spec fn is_component_delimiter(c: char) -> bool {
    c == '/' || c == '\\' || c == ':'
}

/// `part` is the last component of the path `r`: `r` ends with it, and
/// either is nothing more or has a delimiter right before it.
pub open spec fn ends_with_component(r: Seq<char>, part: Seq<char>) -> bool {
    &&& part.is_suffix_of(r)
    &&& (r.len() == part.len() || is_component_delimiter(r[r.len() - part.len() - 1]))
}

/// No `?` in the path: in particular it has no Windows verbatim prefix
/// (`\\?\`), the one kind of base `PathBuf::push` rewrites (normalizing its
/// `.` and `..`) when a component is adjoined.
pub open spec fn no_question_mark(s: Seq<char>) -> bool {
    forall|k: int| 0 <= k < s.len() ==> #[trigger] s[k] != '?'
}

/// `Path::join`. Besides naming the result, the contract states what the
/// documentation of `Path::join`, `PathBuf::push` and `Path::parent` gives
/// for a relative `part` made of a single normal component (a safe path
/// component): it is adjoined to `base` as the new last component, after a
/// separator unless `base` is empty or already ends in one (or in a bare
/// drive prefix); and, unless `base` has a verbatim prefix (which `push`
/// normalizes), nothing else changes, so the result's parent is `base` as a
/// path and no `?` is added.
#[verifier::external_body]
pub(crate) fn join_path(base: &str, part: &str) -> (r: String)
    ensures
        r@ == path_joined(base@, part@),
        spec_is_safe_path_component(part@) ==> ends_with_component(r@, part@),
        spec_is_safe_path_component(part@) && no_question_mark(base@) ==> {
            &&& no_question_mark(r@)
            &&& path_parent(r@) is Some
            &&& paths_equal(path_parent(r@)->0, base@)
        },
{
    std::path::Path::new(base).join(part).to_string_lossy().to_string()
}

/// Whether two paths are equal as `Path`s, component by component (target
/// path syntax).
pub uninterp spec fn paths_equal(a: Seq<char>, b: Seq<char>) -> bool;

/// `Path`'s `==`; the contract only names the result.
#[verifier::external_body]
fn same_path(a: &str, b: &str) -> (r: bool)
    ensures
        r == paths_equal(a@, b@),
{
    std::path::Path::new(a) == std::path::Path::new(b)
}

/// A directory whose extension is `app`, in any ASCII case.
pub open spec fn is_app_bundle(p: Seq<char>) -> bool {
    match path_extension(p) {
        Some(e) => eq_ignore_ascii_case(e, "app"@),
        None => false,
    }
}

/// The nearest of `p` and its ancestors that is an app bundle.
pub open spec fn bundle_ancestor(p: Seq<char>) -> Option<Seq<char>>
    decreases p.len(),
{
    if is_app_bundle(p) {
        Some(p)
    } else {
        match path_parent(p) {
            Some(q) => if q.len() < p.len() {
                bundle_ancestor(q)
            } else {
                None
            },
            None => None,
        }
    }
}

/// The parent of `p`, or `p` itself when it has none.
pub open spec fn parent_or_self(p: Seq<char>) -> Seq<char> {
    match path_parent(p) {
        Some(q) => q,
        None => p,
    }
}

/// Where the data folder goes on macOS: next to the nearest enclosing `.app`
/// bundle (bundle contents are treated as read-only), or next to the
/// executable when it is not inside one.
pub open spec fn bundle_data_root(exe: Seq<char>) -> Seq<char> {
    match bundle_ancestor(exe) {
        Some(a) => parent_or_self(a),
        None => parent_or_self(exe),
    }
}

fn is_app_bundle_exec(p: &str) -> (r: bool)
    ensures
        r == is_app_bundle(p@),
{
    match extension_of(p) {
        Some(e) => {
            let ev = chars_of(e.as_str());
            let app = chars_of("app");
            eq_ignore_ascii_case_exec(&ev, &app)
        },
        None => false,
    }
}

pub fn macos_bundle_data_root(exe: &str) -> (r: String)
    ensures
        r@ == bundle_data_root(exe@),
{
    let mut p = String::from_str(exe);
    loop
        invariant
            bundle_ancestor(p@) == bundle_ancestor(exe@),
        ensures
            bundle_ancestor(exe@) is None,
        decreases p@.len(),
    {
        if is_app_bundle_exec(p.as_str()) {
            return match parent_of(p.as_str()) {
                Some(q) => q,
                None => p,
            };
        }
        match parent_of(p.as_str()) {
            Some(q) => {
                p = q;
            },
            None => {
                break ;
            },
        }
    }
    match parent_of(exe) {
        Some(q) => q,
        None => String::from_str(exe),
    }
}

/// The portable data root for the executable at `exe`: a `data` folder next
/// to the bundle on macOS, next to the executable elsewhere. `None` when the
/// executable path has no parent (outside macOS).
pub open spec fn data_root_of(exe: Seq<char>, macos: bool) -> Option<Seq<char>> {
    if macos {
        Some(path_joined(bundle_data_root(exe), "data"@))
    } else {
        match path_parent(exe) {
            Some(dir) => Some(path_joined(dir, "data"@)),
            None => None,
        }
    }
}

pub fn data_root_for(exe: &str, macos: bool) -> (r: Option<String>)
    ensures
        opt_view(r) == data_root_of(exe@, macos),
{
    if macos {
        let base = macos_bundle_data_root(exe);
        Some(join_path(base.as_str(), "data"))
    } else {
        match parent_of(exe) {
            Some(dir) => Some(join_path(dir.as_str(), "data")),
            None => None,
        }
    }
}

/// The folder holding every webapp's own folder.
pub fn webapps_dir(data_root: &str) -> (r: String)
    ensures
        r@ == path_joined(data_root@, "webapps"@),
{
    join_path(data_root, "webapps")
}

/// The folder cached icons are written to.
pub fn icons_dir(data_root: &str) -> (r: String)
    ensures
        r@ == path_joined(data_root@, "icons"@),
{
    join_path(data_root, "icons")
}

/// The folder of one session group of one webapp.
pub open spec fn session_dir(webapps: Seq<char>, app_slug: Seq<char>, session_group: Seq<char>) -> Seq<char> {
    path_joined(path_joined(webapps, app_slug), session_group)
}

pub fn session_data_dir(webapps: &str, app_slug: &str, session_group: &str) -> (r: String)
    ensures
        r@ == session_dir(webapps@, app_slug@, session_group@),
        spec_is_safe_path_component(session_group@) ==> ends_with_component(r@, session_group@),
        spec_is_safe_path_component(app_slug@) && spec_is_safe_path_component(session_group@) && no_question_mark(
            webapps@,
        ) ==> session_dir_is_safe(webapps@, app_slug@, session_group@),
{
    let app_dir = join_path(webapps, app_slug);
    join_path(app_dir.as_str(), session_group)
}

/// Both components are safe path components and the session folder's
/// parent is the app's own folder.
pub open spec fn session_dir_is_safe(webapps: Seq<char>, app_slug: Seq<char>, session_group: Seq<char>) -> bool {
    &&& spec_is_safe_path_component(app_slug)
    &&& spec_is_safe_path_component(session_group)
    &&& match path_parent(session_dir(webapps, app_slug, session_group)) {
        Some(p) => paths_equal(p, path_joined(webapps, app_slug)),
        None => false,
    }
}

/// A session folder that is safe to delete recursively, or "invalid session
/// path".
pub fn safe_session_data_dir(webapps: &str, app_slug: &str, session_group: &str) -> (r: Result<String, String>)
    ensures
        match r {
            Ok(dir) => session_dir_is_safe(webapps@, app_slug@, session_group@) && dir@ == session_dir(
                webapps@,
                app_slug@,
                session_group@,
            ),
            Err(e) => !session_dir_is_safe(webapps@, app_slug@, session_group@) && e@ == "invalid session path"@,
        },
        spec_is_safe_path_component(app_slug@) && spec_is_safe_path_component(session_group@) && no_question_mark(
            webapps@,
        ) ==> r is Ok,
{
    if !is_safe_path_component(app_slug) || !is_safe_path_component(session_group) {
        return Err(String::from_str("invalid session path"));
    }
    let expected_parent = join_path(webapps, app_slug);
    let dir = session_data_dir(webapps, app_slug, session_group);
    match parent_of(dir.as_str()) {
        Some(p) => {
            if same_path(p.as_str(), expected_parent.as_str()) {
                Ok(dir)
            } else {
                Err(String::from_str("invalid session path"))
            }
        },
        None => Err(String::from_str("invalid session path")),
    }
}

/// The folder of one webapp's data is safe to delete recursively: its slug
/// is a safe path component and the folder's parent is the webapps folder.
pub open spec fn app_dir_is_safe(webapps: Seq<char>, app_slug: Seq<char>) -> bool {
    &&& spec_is_safe_path_component(app_slug)
    &&& match path_parent(path_joined(webapps, app_slug)) {
        Some(p) => paths_equal(p, webapps),
        None => false,
    }
}

/// A webapp's data folder (removed with the app) when it is safe to delete
/// recursively, or "invalid app data path": a slug such as `..` from a
/// hand-edited configuration never reaches outside the webapps folder.
pub fn safe_app_data_dir(webapps: &str, app_slug: &str) -> (r: Result<String, String>)
    ensures
        match r {
            Ok(dir) => app_dir_is_safe(webapps@, app_slug@) && dir@ == path_joined(webapps@, app_slug@),
            Err(e) => !app_dir_is_safe(webapps@, app_slug@) && e@ == "invalid app data path"@,
        },
        spec_is_safe_path_component(app_slug@) && no_question_mark(webapps@) ==> r is Ok,
{
    if !is_safe_path_component(app_slug) {
        return Err(String::from_str("invalid app data path"));
    }
    let dir = join_path(webapps, app_slug);
    match parent_of(dir.as_str()) {
        Some(p) => {
            if same_path(p.as_str(), webapps) {
                Ok(dir)
            } else {
                Err(String::from_str("invalid app data path"))
            }
        },
        None => Err(String::from_str("invalid app data path")),
    }
}

/// Different session groups never share a folder: two paths whose last
/// components are different safe path components (as the session folders
/// of two groups are, whatever apps they belong to) are different paths.
pub proof fn law_different_groups_different_folders(r1: Seq<char>, g1: Seq<char>, r2: Seq<char>, g2: Seq<char>)
    requires
        spec_is_safe_path_component(g1),
        spec_is_safe_path_component(g2),
        ends_with_component(r1, g1),
        ends_with_component(r2, g2),
        g1 != g2,
    ensures
        r1 != r2,
{
    if r1 == r2 {
        let r = r1;
        if g1.len() == g2.len() {
            assert(g1 =~= g2) by {
                assert forall|k: int| 0 <= k < g1.len() implies g1[k] == g2[k] by {
                    assert(r[r.len() - g1.len() + k] == g1[k]);
                    assert(r[r.len() - g2.len() + k] == g2[k]);
                }
            }
        } else if g1.len() < g2.len() {
            let idx = r.len() - g1.len() - 1;
            let j = idx - (r.len() - g2.len());
            assert(r[idx] == g2[j]);
            assert(is_ascii_alnum(g2[j]) || g2[j] == '-' || g2[j] == '_');
        } else {
            let idx = r.len() - g2.len() - 1;
            let j = idx - (r.len() - g1.len());
            assert(r[idx] == g1[j]);
            assert(is_ascii_alnum(g1[j]) || g1[j] == '-' || g1[j] == '_');
        }
    }
}

} // verus!
