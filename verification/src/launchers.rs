//! Per-webapp OS launchers: where each platform's shortcut goes (Start Menu
//! `.lnk`, `.desktop` entry, `.app` bundle stub) and what the files written
//! for it hold. Every launcher runs the main executable with
//! `--open-app <id>`.
use vstd::prelude::*;
use crate::models::opt_view;
use crate::naming::{
    bundle_dir_name, bundle_identifier, desktop_file_name, escape_name, escape_seq, plist_escape, quote_exec_arg,
    shortcut_file_name, spec_sanitize_filename, Escape,
};
use crate::paths::{extension_of, join_path, path_extension, path_joined};
use crate::text::{chars_of, eq_ignore_ascii_case, eq_ignore_ascii_case_exec, replace_all, replaced, string_of};

verus! {

/// The per-user Start Menu folder the shortcuts go in, under `%APPDATA%`.
pub open spec fn start_menu_dir_of(appdata: Seq<char>) -> Seq<char> {
    path_joined(
        path_joined(path_joined(path_joined(path_joined(appdata, "Microsoft"@), "Windows"@), "Start Menu"@), "Programs"@),
        "Silos"@,
    )
}

pub fn start_menu_dir(appdata: &str) -> (r: String)
    ensures
        r@ == start_menu_dir_of(appdata@),
{
    let a = join_path(appdata, "Microsoft");
    let b = join_path(a.as_str(), "Windows");
    let c = join_path(b.as_str(), "Start Menu");
    let d = join_path(c.as_str(), "Programs");
    join_path(d.as_str(), "Silos")
}

/// The Start Menu shortcut of an app, named after the app.
pub fn shortcut_path(start_menu: &str, app_name: &str) -> (r: String)
    ensures
        r@ == path_joined(start_menu@, spec_sanitize_filename(app_name@) + ".lnk"@),
{
    let f = shortcut_file_name(app_name);
    join_path(start_menu, f.as_str())
}

/// The arguments a shortcut passes to the executable.
pub fn open_app_arguments(app_id: &str) -> (r: String)
    ensures
        r@ == "--open-app "@ + app_id@,
{
    let mut r = String::from_str("--open-app ");
    r.append(app_id);
    r
}

/// A picked `.ico` is copied into the shortcut as it is (keeping all its
/// sizes) unless the icon has to be rounded.
pub open spec fn keeps_ico_as_is(source: Seq<char>, rounded: bool) -> bool {
    !rounded && match path_extension(source) {
        Some(e) => eq_ignore_ascii_case(e, "ico"@),
        None => false,
    }
}

pub fn keep_ico_as_is(source: &str, rounded: bool) -> (r: bool)
    ensures
        r == keeps_ico_as_is(source@, rounded),
{
    if rounded {
        return false;
    }
    match extension_of(source) {
        Some(e) => {
            let ev = chars_of(e.as_str());
            let ico = chars_of("ico");
            eq_ignore_ascii_case_exec(&ev, &ico)
        },
        None => false,
    }
}

/// The freedesktop `applications` folder: under `$XDG_DATA_HOME` when it is
/// set and not empty, under `$HOME/.local/share` otherwise, none without a
/// home.
pub open spec fn applications_dir_of(xdg_data_home: Option<Seq<char>>, home: Option<Seq<char>>) -> Option<Seq<char>> {
    match xdg_data_home {
        Some(d) if d.len() > 0 => Some(path_joined(d, "applications"@)),
        _ => match home {
            Some(h) => Some(path_joined(h, ".local/share/applications"@)),
            None => None,
        },
    }
}

pub fn linux_applications_dir(xdg_data_home: &Option<String>, home: &Option<String>) -> (r: Option<String>)
    ensures
        opt_view(r) == applications_dir_of(opt_view(*xdg_data_home), opt_view(*home)),
{
    if let Some(d) = xdg_data_home {
        if d.as_str().unicode_len() > 0 {
            return Some(join_path(d.as_str(), "applications"));
        }
    }
    match home {
        Some(h) => Some(join_path(h.as_str(), ".local/share/applications")),
        None => None,
    }
}

/// The desktop entry of an app, named after its id (which desktops use to
/// group and pin it, so a rename keeps it).
pub fn desktop_path(applications: &str, app_id: &str) -> (r: String)
    ensures
        r@ == path_joined(applications@, "silos-"@ + spec_sanitize_filename(app_id@) + ".desktop"@),
{
    let f = desktop_file_name(app_id);
    join_path(applications, f.as_str())
}

/// The desktop entry launching an app: escaped name, the quoted executable
/// with `--open-app <id>`, and an `Icon=` line when an icon file was made.
pub open spec fn desktop_entry_of(app_name: Seq<char>, exe: Seq<char>, app_id: Seq<char>, icon: Option<Seq<char>>) -> Seq<
    char,
> {
    "[Desktop Entry]\nType=Application\nVersion=1.0\nName="@ + escape_seq(Escape::DesktopName, app_name) + "\nExec="@
        + "\""@ + escape_seq(Escape::DesktopExecArg, exe) + "\""@ + " --open-app "@ + app_id + "\n"@ + match icon {
        Some(p) => "Icon="@ + p + "\n"@,
        None => Seq::<char>::empty(),
    } + "Terminal=false\nNoDisplay=false\nCategories=Network;\n"@
}

pub fn desktop_entry(app_name: &str, exe: &str, app_id: &str, icon: Option<&str>) -> (r: String)
    ensures
        r@ == desktop_entry_of(app_name@, exe@, app_id@, match icon {
            Some(p) => Some(p@),
            None => None,
        }),
{
    let mut r = String::from_str("[Desktop Entry]\nType=Application\nVersion=1.0\nName=");
    let n = escape_name(app_name);
    r.append(n.as_str());
    r.append("\nExec=");
    let q = quote_exec_arg(exe);
    r.append(q.as_str());
    r.append(" --open-app ");
    r.append(app_id);
    r.append("\n");
    if let Some(p) = icon {
        r.append("Icon=");
        r.append(p);
        r.append("\n");
    }
    r.append("Terminal=false\nNoDisplay=false\nCategories=Network;\n");
    r
}

/// `~/Applications`, where the `.app` bundle stubs go.
pub fn macos_applications_dir(home: &str) -> (r: String)
    ensures
        r@ == path_joined(home@, "Applications"@),
{
    join_path(home, "Applications")
}

/// The `.app` bundle stub of an app, named after the app.
pub fn bundle_path(applications: &str, app_name: &str) -> (r: String)
    ensures
        r@ == path_joined(applications@, spec_sanitize_filename(app_name@) + ".app"@),
{
    let f = bundle_dir_name(app_name);
    join_path(applications, f.as_str())
}

/// The head of a bundle stub's `Info.plist`, up to the bundle name.
pub const PLIST_HEAD: &'static str = "<?xml version=\"1.0\" encoding=\"UTF-8\"?>\n<!DOCTYPE plist PUBLIC \"-//Apple//DTD PLIST 1.0//EN\" \"http://www.apple.com/DTDs/PropertyList-1.0.dtd\">\n<plist version=\"1.0\">\n<dict>\n\t<key>CFBundleName</key>\n\t<string>";

/// Between the bundle name and the display name.
pub const PLIST_DISPLAY_NAME: &'static str = "</string>\n\t<key>CFBundleDisplayName</key>\n\t<string>";

/// Between the display name and the bundle identifier.
pub const PLIST_IDENTIFIER: &'static str = "</string>\n\t<key>CFBundleIdentifier</key>\n\t<string>";

/// The rest: version, package type, the `launcher` script as executable,
/// the icon file and the minimum system version.
pub const PLIST_TAIL: &'static str = "</string>\n\t<key>CFBundleVersion</key>\n\t<string>1.0</string>\n\t<key>CFBundleShortVersionString</key>\n\t<string>1.0</string>\n\t<key>CFBundlePackageType</key>\n\t<string>APPL</string>\n\t<key>CFBundleExecutable</key>\n\t<string>launcher</string>\n\t<key>CFBundleIconFile</key>\n\t<string>icon.icns</string>\n\t<key>LSMinimumSystemVersion</key>\n\t<string>11.0</string>\n\t<key>NSHighResolutionCapable</key>\n\t<true/>\n</dict>\n</plist>\n";

/// A bundle stub's `Info.plist`: the escaped app name twice and the escaped
/// bundle identifier of the app id.
pub open spec fn info_plist_of(app_id: Seq<char>, app_name: Seq<char>) -> Seq<char> {
    let name = escape_seq(Escape::Plist, app_name);
    PLIST_HEAD@ + name + PLIST_DISPLAY_NAME@ + name + PLIST_IDENTIFIER@ + escape_seq(
        Escape::Plist,
        "com.silos.webapp."@ + escape_seq(Escape::BundlePart, app_id),
    ) + PLIST_TAIL@
}

pub fn info_plist(app_id: &str, app_name: &str) -> (r: String)
    ensures
        r@ == info_plist_of(app_id@, app_name@),
{
    let name = plist_escape(app_name);
    let ident = bundle_identifier(app_id);
    let ident_escaped = plist_escape(ident.as_str());
    let mut r = String::from_str(PLIST_HEAD);
    r.append(name.as_str());
    r.append(PLIST_DISPLAY_NAME);
    r.append(name.as_str());
    r.append(PLIST_IDENTIFIER);
    r.append(ident_escaped.as_str());
    r.append(PLIST_TAIL);
    r
}

/// A bundle stub's `launcher` shell script: re-runs the executable with
/// `--open-app <id>`, the executable's path single-quoted (each `'` in it
/// written `'\''`).
pub open spec fn launcher_script_of(exe: Seq<char>, app_id: Seq<char>) -> Seq<char> {
    "#!/bin/sh\nexec '"@ + replaced(exe, "'"@, "'\\''"@) + "' --open-app "@ + app_id + "\n"@
}

pub fn launcher_script(exe: &str, app_id: &str) -> (r: String)
    ensures
        r@ == launcher_script_of(exe@, app_id@),
{
    proof {
        reveal_strlit("'");
    }
    let e = chars_of(exe);
    let q = chars_of("'");
    let rep = chars_of("'\\''");
    let quoted = replace_all(&e, &q, &rep);
    let mut r = String::from_str("#!/bin/sh\nexec '");
    let qs = string_of(&quoted);
    r.append(qs.as_str());
    r.append("' --open-app ");
    r.append(app_id);
    r.append("\n");
    r
}

/// The four big-endian bytes of `n`.
pub open spec fn be32(n: nat) -> Seq<u8> {
    seq![(n / 16777216) as u8, ((n / 65536) % 256) as u8, ((n / 256) % 256) as u8, (n % 256) as u8]
}

fn be32_exec(n: u32) -> (r: Vec<u8>)
    ensures
        r@ == be32(n as nat),
{
    let mut r: Vec<u8> = Vec::new();
    r.push((n / 16777216) as u8);
    r.push(((n / 65536) % 256) as u8);
    r.push(((n / 256) % 256) as u8);
    r.push((n % 256) as u8);
    r
}

/// A single-image `.icns` file: the `icns` header with the total length,
/// then one `ic08` (256x256) element holding the PNG. Both lengths are
/// written as 32-bit values, so they wrap modulo 2^32.
pub open spec fn icns_of(png: Seq<u8>) -> Seq<u8> {
    "icns"@.map_values(|c: char| (c as u32) as u8) + be32(((png.len() + 16) % 0x1_0000_0000) as nat) + "ic08"@.map_values(
        |c: char| (c as u32) as u8,
    ) + be32(((png.len() + 8) % 0x1_0000_0000) as nat) + png
}

fn push_ascii(out: &mut Vec<u8>, s: &str)
    requires
        forall|k: int| 0 <= k < s@.len() ==> (#[trigger] s@[k] as u32) < 256,
    ensures
        final(out)@ == old(out)@ + s@.map_values(|c: char| (c as u32) as u8),
{
    let v = chars_of(s);
    let ghost start = out@;
    let mut i: usize = 0;
    while i < v.len()
        invariant
            i <= v@.len(),
            v@ == s@,
            forall|k: int| 0 <= k < s@.len() ==> (#[trigger] s@[k] as u32) < 256,
            out@ == start + s@.take(i as int).map_values(|c: char| (c as u32) as u8),
        decreases v@.len() - i,
    {
        let c = v[i];
        assert((s@[i as int] as u32) < 256);
        out.push((c as u32) as u8);
        assert(s@.take(i + 1).map_values(|c: char| (c as u32) as u8) =~= s@.take(i as int).map_values(|c: char| (c as u32) as u8).push(
            (c as u32) as u8,
        ));
        i = i + 1;
    }
    assert(s@.take(s@.len() as int) =~= s@);
}

/// Wraps a PNG into an `.icns` container.
pub fn icns_container(png: &Vec<u8>) -> (r: Vec<u8>)
    requires
        png@.len() + 16 <= usize::MAX,
    ensures
        r@ == icns_of(png@),
{
    proof {
        reveal_strlit("icns");
        reveal_strlit("ic08");
    }
    let mut out: Vec<u8> = Vec::new();
    push_ascii(&mut out, "icns");
    let total_len: u64 = png.len() as u64 + 16;
    let total = be32_exec((total_len % 0x1_0000_0000) as u32);
    let mut k: usize = 0;
    let ghost s0 = out@;
    while k < 4
        invariant
            k <= 4,
            total@.len() == 4,
            out@ == s0 + total@.take(k as int),
        decreases 4 - k,
    {
        out.push(total[k]);
        assert(total@.take(k + 1) =~= total@.take(k as int).push(total@[k as int]));
        k = k + 1;
    }
    assert(total@.take(4) =~= total@);
    push_ascii(&mut out, "ic08");
    let elem_len: u64 = png.len() as u64 + 8;
    let elem = be32_exec((elem_len % 0x1_0000_0000) as u32);
    let ghost s1 = out@;
    k = 0;
    while k < 4
        invariant
            k <= 4,
            elem@.len() == 4,
            out@ == s1 + elem@.take(k as int),
        decreases 4 - k,
    {
        out.push(elem[k]);
        assert(elem@.take(k + 1) =~= elem@.take(k as int).push(elem@[k as int]));
        k = k + 1;
    }
    assert(elem@.take(4) =~= elem@);
    let ghost s2 = out@;
    let mut i: usize = 0;
    while i < png.len()
        invariant
            i <= png@.len(),
            out@ == s2 + png@.take(i as int),
        decreases png@.len() - i,
    {
        out.push(png[i]);
        assert(png@.take(i + 1) =~= png@.take(i as int).push(png@[i as int]));
        i = i + 1;
    }
    assert(png@.take(png@.len() as int) =~= png@);
    out
}

/// What a launcher needs to be (re)built.
pub struct ShortcutSpec {
    pub app_id: String,
    pub data_slug: String,
    pub app_name: String,
    pub icon_source: Option<String>,
    pub icon_background: Option<String>,
    pub icon_padding_percent: u8,
    pub icon_rounded: bool,
}

/// A change to an app's launcher.
pub enum ShortcutOp {
    Create(ShortcutSpec),
    Remove { app_id: String, app_name: String },
}

/// The launcher changes a rename makes: launchers named after the app have
/// to go and come back under the new name, so the old one is removed first
/// unless the name is unchanged; the launcher is (re)created either way.
pub fn rename_shortcut(
    app_id: &str,
    data_slug: &str,
    old_name: &str,
    new_name: &str,
    icon_source: Option<&str>,
    icon_background: Option<&str>,
    icon_padding_percent: u8,
    icon_rounded: bool,
) -> (r: Vec<ShortcutOp>)
    ensures
        r@.len() == if old_name@ == new_name@ { 1int } else { 2int },
        old_name@ != new_name@ ==> (r@[0] matches ShortcutOp::Remove { app_id: a, app_name: n } && a@ == app_id@
            && n@ == old_name@),
        r@.last() matches ShortcutOp::Create(s) && {
            &&& s.app_id@ == app_id@
            &&& s.data_slug@ == data_slug@
            &&& s.app_name@ == new_name@
            &&& opt_view(s.icon_source) == (match icon_source {
                Some(p) => Some(p@),
                None => None,
            })
            &&& opt_view(s.icon_background) == (match icon_background {
                Some(p) => Some(p@),
                None => None,
            })
            &&& s.icon_padding_percent == icon_padding_percent
            &&& s.icon_rounded == icon_rounded
        },
{
    let mut ops: Vec<ShortcutOp> = Vec::new();
    if !crate::text::str_eq(old_name, new_name) {
        ops.push(ShortcutOp::Remove { app_id: String::from_str(app_id), app_name: String::from_str(old_name) });
    }
    let spec = ShortcutSpec {
        app_id: String::from_str(app_id),
        data_slug: String::from_str(data_slug),
        app_name: String::from_str(new_name),
        icon_source: match icon_source {
            Some(p) => Some(String::from_str(p)),
            None => None,
        },
        icon_background: match icon_background {
            Some(p) => Some(String::from_str(p)),
            None => None,
        },
        icon_padding_percent,
        icon_rounded,
    };
    ops.push(ShortcutOp::Create(spec));
    ops
}


/// The file-name prefix of the shortcut icons generated for an app.
pub open spec fn shortcut_icon_prefix(app_id: Seq<char>) -> Seq<char> {
    "shortcut-"@ + app_id + "-"@
}

/// Whether a file in the icons folder is a shortcut icon generated earlier
/// for this app (all are deleted before a new one is written).
pub fn is_old_shortcut_icon(file_name: &str, app_id: &str) -> (r: bool)
    ensures
        r == shortcut_icon_prefix(app_id@).is_prefix_of(file_name@),
{
    let mut p = String::from_str("shortcut-");
    p.append(app_id);
    p.append("-");
    let pv = chars_of(p.as_str());
    let fv = chars_of(file_name);
    crate::text::starts_with_exec(&fv, &pv)
}

} // verus!
