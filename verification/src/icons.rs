//! Icon helpers: background colors, MIME types and data URLs for picked
//! icon files, SVG sniffing, the content box used to trim transparent
//! padding off downloaded icons, crop rectangles, and where a favicon is
//! looked for.
use vstd::prelude::*;
use base64::Engine;
use crate::models::{app_pos, find_app, opt_view, AppConfig, AppConfigV};
use crate::site::{path_of_url, scheme_and_host, url_path, url_scheme_and_host};
use crate::views::{tab_target, tab_target_of};
use crate::paths::{extension_of, path_extension};
use crate::text::{chars_of, contains_exec, contains_seq, str_eq, str_to_lowercase, string_of, to_lowercase, trim, trim_str};

verus! {

/// Number of leading `#` characters.
pub open spec fn leading_hashes(s: Seq<char>) -> nat
    decreases s.len(),
{
    if s.len() > 0 && s[0] == '#' {
        1 + leading_hashes(s.drop_first())
    } else {
        0
    }
}

/// `s` without its leading `#` characters (`trim_start_matches('#')`).
pub open spec fn without_hashes(s: Seq<char>) -> Seq<char> {
    s.skip(leading_hashes(s) as int)
}

/// Value of a hexadecimal digit (either case).
pub open spec fn hex_digit(c: char) -> Option<u8> {
    if '0' <= c && c <= '9' {
        Some(((c as u32) - 48) as u8)
    } else if 'a' <= c && c <= 'f' {
        Some(((c as u32) - 87) as u8)
    } else if 'A' <= c && c <= 'F' {
        Some(((c as u32) - 55) as u8)
    } else {
        None
    }
}

/// The byte written as the two hexadecimal digits `a`, `b`; `None` unless
/// both are hexadecimal digits.
pub open spec fn hex_pair(a: char, b: char) -> Option<u8> {
    match (hex_digit(a), hex_digit(b)) {
        (Some(x), Some(y)) => Some((16 * x + y) as u8),
        _ => None,
    }
}

/// `rrggbb` (six hexadecimal digits, either case) as its three components;
/// `None` for anything else.
pub open spec fn hex_color(h: Seq<char>) -> Option<Seq<u8>> {
    if h.len() == 6 {
        match (hex_pair(h[0], h[1]), hex_pair(h[2], h[3]), hex_pair(h[4], h[5])) {
            (Some(r), Some(g), Some(b)) => Some(seq![r, g, b]),
            _ => None,
        }
    } else {
        None
    }
}

fn hex_digit_exec(c: char) -> (r: Option<u8>)
    ensures
        r == hex_digit(c),
{
    if '0' <= c && c <= '9' {
        Some(((c as u32) - 48) as u8)
    } else if 'a' <= c && c <= 'f' {
        Some(((c as u32) - 87) as u8)
    } else if 'A' <= c && c <= 'F' {
        Some(((c as u32) - 55) as u8)
    } else {
        None
    }
}

fn hex_pair_exec(a: char, b: char) -> (r: Option<u8>)
    ensures
        r == hex_pair(a, b),
{
    match (hex_digit_exec(a), hex_digit_exec(b)) {
        (Some(x), Some(y)) => Some(16 * x + y),
        _ => None,
    }
}

/// Parses a `#rrggbb` color (any number of leading `#`): `None` for
/// anything else, such as `#rgb` shorthand or a character that is not a
/// hexadecimal digit.
pub fn parse_hex_color(hex: &str) -> (r: Option<[u8; 3]>)
    ensures
        match r {
            Some(a) => hex_color(without_hashes(hex@)) == Some(a@),
            None => hex_color(without_hashes(hex@)) is None,
        },
{
    let v = chars_of(hex);
    let mut i: usize = 0;
    assert(hex@.skip(0) =~= hex@);
    while i < v.len() && v[i] == '#'
        invariant
            i <= v.len(),
            v@ == hex@,
            leading_hashes(hex@) == i + leading_hashes(hex@.skip(i as int)),
        decreases v.len() - i,
    {
        assert(hex@.skip(i as int).drop_first() =~= hex@.skip(i + 1));
        i = i + 1;
    }
    assert(leading_hashes(hex@.skip(i as int)) == 0);
    let ghost h = without_hashes(hex@);
    assert(h =~= v@.skip(i as int));
    if v.len() - i != 6 {
        assert(h.len() != 6);
        return None;
    }
    let r = hex_pair_exec(v[i], v[i + 1]);
    let g = hex_pair_exec(v[i + 2], v[i + 3]);
    let b = hex_pair_exec(v[i + 4], v[i + 5]);
    assert(h[0] == v@[i as int] && h[1] == v@[i + 1] && h[2] == v@[i + 2]);
    assert(h[3] == v@[i + 3] && h[4] == v@[i + 4] && h[5] == v@[i + 5]);
    match (r, g, b) {
        (Some(r), Some(g), Some(b)) => {
            let a = [r, g, b];
            assert(a@ =~= seq![r, g, b]);
            Some(a)
        },
        _ => None,
    }
}

/// The MIME type served for an icon file extension (already lowercased).
pub open spec fn mime_of(ext: Seq<char>) -> Seq<char> {
    if ext == "png"@ {
        "image/png"@
    } else if ext == "jpg"@ || ext == "jpeg"@ {
        "image/jpeg"@
    } else if ext == "gif"@ {
        "image/gif"@
    } else if ext == "webp"@ {
        "image/webp"@
    } else if ext == "ico"@ {
        "image/x-icon"@
    } else if ext == "svg"@ {
        "image/svg+xml"@
    } else {
        "application/octet-stream"@
    }
}

/// The MIME type for an icon file extension, in any case.
pub fn mime_for_extension(ext: &str) -> (r: &'static str)
    ensures
        r@ == mime_of(str_to_lowercase(ext@)),
{
    let l = to_lowercase(ext);
    let e = l.as_str();
    if str_eq(e, "png") {
        "image/png"
    } else if str_eq(e, "jpg") || str_eq(e, "jpeg") {
        "image/jpeg"
    } else if str_eq(e, "gif") {
        "image/gif"
    } else if str_eq(e, "webp") {
        "image/webp"
    } else if str_eq(e, "ico") {
        "image/x-icon"
    } else if str_eq(e, "svg") {
        "image/svg+xml"
    } else {
        "application/octet-stream"
    }
}

/// What `String::from_utf8_lossy` decodes `bytes` to.
pub uninterp spec fn utf8_lossy(bytes: Seq<u8>) -> Seq<char>;

/// `String::from_utf8_lossy`; the contract only names the result.
#[verifier::external_body]
fn decode_lossy(bytes: &Vec<u8>) -> (r: String)
    ensures
        r@ == utf8_lossy(bytes@),
{
    String::from_utf8_lossy(bytes.as_slice()).to_string()
}

/// Whether the first KiB of a payload, decoded leniently, mentions `<svg`
/// (an SVG is recognised by content, not by extension or content type).
pub open spec fn sniffs_as_svg(bytes: Seq<u8>) -> bool {
    let head = if bytes.len() <= 1024 {
        bytes
    } else {
        bytes.take(1024)
    };
    contains_seq(utf8_lossy(head), "<svg"@)
}

pub fn looks_like_svg(bytes: &[u8]) -> (r: bool)
    ensures
        r == sniffs_as_svg(bytes@),
{
    let n: usize = if bytes.len() <= 1024 {
        bytes.len()
    } else {
        1024
    };
    let mut head: Vec<u8> = Vec::new();
    let mut i: usize = 0;
    while i < n
        invariant
            i <= n <= bytes@.len(),
            head@ == bytes@.take(i as int),
        decreases n - i,
    {
        head.push(bytes[i]);
        assert(bytes@.take(i + 1) =~= bytes@.take(i as int).push(bytes@[i as int]));
        i = i + 1;
    }
    assert(bytes@.len() <= 1024 ==> bytes@.take(n as int) =~= bytes@);
    let text = decode_lossy(&head);
    let t = chars_of(text.as_str());
    let pat = chars_of("<svg");
    contains_exec(&t, &pat)
}

/// The standard base64 alphabet.
pub open spec fn base64_digit(v: int) -> char {
    if v < 26 {
        (65 + v) as char
    } else if v < 52 {
        (97 + v - 26) as char
    } else if v < 62 {
        (48 + v - 52) as char
    } else if v == 62 {
        '+'
    } else {
        '/'
    }
}

/// Standard base64 with `=` padding (RFC 4648): every three bytes become
/// four characters, a final one or two bytes two or three characters and
/// the padding.
pub open spec fn base64_of(b: Seq<u8>) -> Seq<char>
    decreases b.len(),
{
    if b.len() >= 3 {
        let n = b[0] * 65536 + b[1] * 256 + b[2];
        seq![
            base64_digit(n / 262144),
            base64_digit((n / 4096) % 64),
            base64_digit((n / 64) % 64),
            base64_digit(n % 64),
        ] + base64_of(b.skip(3))
    } else if b.len() == 2 {
        let n = b[0] * 65536 + b[1] * 256;
        seq![base64_digit(n / 262144), base64_digit((n / 4096) % 64), base64_digit((n / 64) % 64), '=']
    } else if b.len() == 1 {
        let n = b[0] * 65536;
        seq![base64_digit(n / 262144), base64_digit((n / 4096) % 64), '=', '=']
    } else {
        seq![]
    }
}

/// `base64::engine::general_purpose::STANDARD.encode`: the standard
/// alphabet with padding, as RFC 4648 defines it.
#[verifier::external_body]
fn encode_base64(bytes: &[u8]) -> (r: String)
    ensures
        r@ == base64_of(bytes@),
{
    base64::engine::general_purpose::STANDARD.encode(bytes)
}

/// The extension a data URL's MIME type is chosen by: the file's own, `png`
/// when it has none.
pub open spec fn data_url_extension(path: Seq<char>) -> Seq<char> {
    match path_extension(path) {
        Some(e) => e,
        None => "png"@,
    }
}

/// The extension a picked icon file is cached under: its own, lowercased,
/// `png` when it has none (an `svg` is rasterized to PNG instead).
pub fn picked_icon_extension(path: &str) -> (r: String)
    ensures
        r@ == str_to_lowercase(data_url_extension(path@)),
{
    match extension_of(path) {
        Some(e) => to_lowercase(e.as_str()),
        None => to_lowercase("png"),
    }
}

/// `data:<mime>;base64,<payload>` for an icon file's bytes.
pub open spec fn icon_data_url(path: Seq<char>, bytes: Seq<u8>) -> Seq<char> {
    "data:"@ + mime_of(str_to_lowercase(data_url_extension(path))) + ";base64,"@ + base64_of(bytes)
}

/// The data URL for an icon file at `path` holding `bytes`.
pub fn data_url_for(path: &str, bytes: &[u8]) -> (r: String)
    ensures
        r@ == icon_data_url(path@, bytes@),
{
    let ext = match extension_of(path) {
        Some(e) => e,
        None => String::from_str("png"),
    };
    let mime = mime_for_extension(ext.as_str());
    let encoded = encode_base64(bytes);
    let mut out = String::from_str("data:");
    out.append(mime);
    out.append(";base64,");
    out.append(encoded.as_str());
    out
}


/// Pixels whose alpha is above this count as content when trimming.
pub const ALPHA_THRESHOLD: u8 = 10;

/// The pixel at column `x`, row `y` of a row-major alpha plane of the given
/// width is content.
pub open spec fn opaque_at(alpha: Seq<u8>, width: nat, x: nat, y: nat) -> bool {
    alpha[(y * width + x) as int] > ALPHA_THRESHOLD
}

/// A rectangle of pixels, bounds inclusive.
#[derive(Clone, Copy)]
pub struct PixelBox {
    pub min_x: u32,
    pub min_y: u32,
    pub max_x: u32,
    pub max_y: u32,
}

/// Some pixel of the image is content.
pub open spec fn has_content(alpha: Seq<u8>, width: nat, height: nat) -> bool {
    exists|x: nat, y: nat| x < width && y < height && #[trigger] opaque_at(alpha, width, x, y)
}

/// `b` is the bounding box of the content: every content pixel lies in it,
/// and each of its four edges touches a content pixel.
pub open spec fn is_content_box(alpha: Seq<u8>, width: nat, height: nat, b: PixelBox) -> bool {
    &&& b.min_x <= b.max_x < width
    &&& b.min_y <= b.max_y < height
    &&& forall|x: nat, y: nat|
        x < width && y < height && #[trigger] opaque_at(alpha, width, x, y) ==> b.min_x <= x <= b.max_x && b.min_y
            <= y <= b.max_y
    &&& exists|y: nat| y < height && #[trigger] opaque_at(alpha, width, b.min_x as nat, y)
    &&& exists|y: nat| y < height && #[trigger] opaque_at(alpha, width, b.max_x as nat, y)
    &&& exists|x: nat| x < width && #[trigger] opaque_at(alpha, width, x, b.min_y as nat)
    &&& exists|x: nat| x < width && #[trigger] opaque_at(alpha, width, x, b.max_y as nat)
}

/// The box spans the whole image.
pub open spec fn covers_image(b: PixelBox, width: nat, height: nat) -> bool {
    b.min_x == 0 && b.min_y == 0 && b.max_x + 1 == width && b.max_y + 1 == height
}

/// The content box of an image is unique.
pub proof fn lemma_content_box_unique(alpha: Seq<u8>, width: nat, height: nat, b1: PixelBox, b2: PixelBox)
    requires
        is_content_box(alpha, width, height, b1),
        is_content_box(alpha, width, height, b2),
    ensures
        b1 == b2,
{
    let y1 = choose|y: nat| y < height && #[trigger] opaque_at(alpha, width, b1.min_x as nat, y);
    let y2 = choose|y: nat| y < height && #[trigger] opaque_at(alpha, width, b2.min_x as nat, y);
    assert(b2.min_x <= b1.min_x && b1.min_x <= b2.min_x);
    let y3 = choose|y: nat| y < height && #[trigger] opaque_at(alpha, width, b1.max_x as nat, y);
    let y4 = choose|y: nat| y < height && #[trigger] opaque_at(alpha, width, b2.max_x as nat, y);
    assert(b1.max_x <= b2.max_x && b2.max_x <= b1.max_x);
    let x1 = choose|x: nat| x < width && #[trigger] opaque_at(alpha, width, x, b1.min_y as nat);
    let x2 = choose|x: nat| x < width && #[trigger] opaque_at(alpha, width, x, b2.min_y as nat);
    assert(b2.min_y <= b1.min_y && b1.min_y <= b2.min_y);
    let x3 = choose|x: nat| x < width && #[trigger] opaque_at(alpha, width, x, b1.max_y as nat);
    let x4 = choose|x: nat| x < width && #[trigger] opaque_at(alpha, width, x, b2.max_y as nat);
    assert(b1.max_y <= b2.max_y && b2.max_y <= b1.max_y);
}

proof fn lemma_pixel_index(width: nat, height: nat, x: nat, y: nat)
    requires
        x < width,
        y < height,
    ensures
        y * width + x < width * height,
{
    assert(y * width + x < width * height) by (nonlinear_arith)
        requires
            x < width,
            y < height,
    ;
}

/// The bounding box of the pixels whose alpha is above the threshold in a
/// row-major alpha plane; `None` when there are none.
pub fn opaque_bounds(alpha: &Vec<u8>, width: u32, height: u32) -> (r: Option<PixelBox>)
    requires
        alpha@.len() == width * height,
    ensures
        match r {
            Some(b) => is_content_box(alpha@, width as nat, height as nat, b),
            None => !has_content(alpha@, width as nat, height as nat),
        },
{
    let ghost w = width as nat;
    let ghost h = height as nat;
    let mut found = false;
    let mut b = PixelBox { min_x: width, min_y: height, max_x: 0, max_y: 0 };
    let ghost mut wy_min: nat = 0;
    let ghost mut wy_max: nat = 0;
    let ghost mut wx_min: nat = 0;
    let ghost mut wx_max: nat = 0;
    if width == 0 || height == 0 {
        return None;
    }
    let mut x: u32 = 0;
    let mut y: u32 = 0;
    let mut idx: usize = 0;
    let n: usize = alpha.len();
    while y < height
        invariant
            n == alpha@.len(),
            w == width as nat,
            h == height as nat,
            width > 0,
            alpha@.len() == w * h,
            x < width,
            y <= height,
            y == height ==> x == 0,
            idx == y * w + x,
            found ==> b.min_x <= b.max_x < w && b.min_y <= b.max_y < h,
            found ==> b.max_y <= y,
            found ==> {
                &&& wy_min < h && opaque_at(alpha@, w, b.min_x as nat, wy_min)
                &&& wy_max < h && opaque_at(alpha@, w, b.max_x as nat, wy_max)
                &&& wx_min < w && opaque_at(alpha@, w, wx_min, b.min_y as nat)
                &&& wx_max < w && opaque_at(alpha@, w, wx_max, b.max_y as nat)
            },
            forall|xx: nat, yy: nat|
                xx < w && (yy < y || (yy == y && xx < x)) && #[trigger] opaque_at(alpha@, w, xx, yy) ==> found && b.min_x
                    <= xx <= b.max_x && b.min_y <= yy <= b.max_y,
        decreases h - y, w - x,
    {
        proof {
            lemma_pixel_index(w, h, x as nat, y as nat);
        }
        if alpha[idx] > ALPHA_THRESHOLD {
            assert(opaque_at(alpha@, w, x as nat, y as nat));
            if !found {
                found = true;
                b = PixelBox { min_x: x, min_y: y, max_x: x, max_y: y };
                proof {
                    wy_min = y as nat;
                    wy_max = y as nat;
                    wx_min = x as nat;
                    wx_max = x as nat;
                }
            } else {
                if x < b.min_x {
                    b.min_x = x;
                    proof {
                        wy_min = y as nat;
                    }
                }
                if x > b.max_x {
                    b.max_x = x;
                    proof {
                        wy_max = y as nat;
                    }
                }
                if y < b.min_y {
                    b.min_y = y;
                    proof {
                        wx_min = x as nat;
                    }
                }
                if y > b.max_y {
                    b.max_y = y;
                    proof {
                        wx_max = x as nat;
                    }
                }
            }
        }
        assert(idx < n);
        idx = idx + 1;
        if x + 1 < width {
            x = x + 1;
        } else {
            x = 0;
            y = y + 1;
            assert(idx == y * w + x) by (nonlinear_arith)
                requires
                    idx == (y - 1) * w + (w - 1) + 1,
                    x == 0,
            ;
        }
    }
    if found {
        Some(b)
    } else {
        assert(!has_content(alpha@, w, h)) by {
            assert forall|xx: nat, yy: nat| xx < w && yy < h implies !#[trigger] opaque_at(alpha@, w, xx, yy) by {}
        }
        None
    }
}

/// The content box to crop an icon to before its trimming margin is added:
/// `None` when the image has no content or its content already reaches all
/// four edges (the image is then left as it is).
pub fn trim_box(alpha: &Vec<u8>, width: u32, height: u32) -> (r: Option<PixelBox>)
    requires
        alpha@.len() == width * height,
    ensures
        match r {
            Some(b) => is_content_box(alpha@, width as nat, height as nat, b) && !covers_image(b, width as nat, height as nat),
            None => !has_content(alpha@, width as nat, height as nat) || forall|b: PixelBox|
                #[trigger] is_content_box(alpha@, width as nat, height as nat, b) ==> covers_image(b, width as nat, height as nat),
        },
{
    match opaque_bounds(alpha, width, height) {
        Some(b) => {
            if b.min_x == 0 && b.min_y == 0 && b.max_x == width - 1 && b.max_y == height - 1 {
                proof {
                    assert forall|c: PixelBox| #[trigger] is_content_box(alpha@, width as nat, height as nat, c) implies covers_image(
                        c,
                        width as nat,
                        height as nat,
                    ) by {
                        lemma_content_box_unique(alpha@, width as nat, height as nat, b, c);
                    }
                }
                None
            } else {
                Some(b)
            }
        },
        None => None,
    }
}

/// The longer side of a box, which the trimming margin is proportional to.
pub fn content_extent(b: &PixelBox) -> (r: u32)
    requires
        b.min_x <= b.max_x < u32::MAX,
        b.min_y <= b.max_y < u32::MAX,
    ensures
        r == if b.max_x - b.min_x >= b.max_y - b.min_y {
            b.max_x - b.min_x + 1
        } else {
            b.max_y - b.min_y + 1
        },
{
    let w = b.max_x - b.min_x;
    let h = b.max_y - b.min_y;
    if w >= h {
        w + 1
    } else {
        h + 1
    }
}

/// The rectangle `(x, y, width, height)` a trimmed icon is cut to: the box
/// grown by `margin` on every side, clipped to the image.
pub fn trimmed_rect(b: &PixelBox, margin: u32, width: u32, height: u32) -> (r: (u32, u32, u32, u32))
    requires
        b.min_x <= b.max_x < width,
        b.min_y <= b.max_y < height,
        b.max_x + margin + 1 <= u32::MAX,
        b.max_y + margin + 1 <= u32::MAX,
    ensures
        r.0 == if b.min_x >= margin { b.min_x - margin } else { 0 },
        r.1 == if b.min_y >= margin { b.min_y - margin } else { 0 },
        r.0 + r.2 == if b.max_x + margin + 1 <= width { b.max_x + margin + 1 } else { width as int },
        r.1 + r.3 == if b.max_y + margin + 1 <= height { b.max_y + margin + 1 } else { height as int },
{
    let x0 = if b.min_x >= margin { b.min_x - margin } else { 0 };
    let y0 = if b.min_y >= margin { b.min_y - margin } else { 0 };
    let x1 = if b.max_x + margin + 1 <= width { b.max_x + margin + 1 } else { width };
    let y1 = if b.max_y + margin + 1 <= height { b.max_y + margin + 1 } else { height };
    (x0, y0, x1 - x0, y1 - y0)
}

/// The crop rectangle actually used for a requested one on an image of the
/// given size: the corner moved inside the image, the size cut to what is
/// left of it, at least one pixel each way.
pub fn crop_rect(x: u32, y: u32, width: u32, height: u32, img_w: u32, img_h: u32) -> (r: (u32, u32, u32, u32))
    ensures
        r.0 == if img_w == 0 { 0 } else if x < img_w { x } else { (img_w - 1) as u32 },
        r.1 == if img_h == 0 { 0 } else if y < img_h { y } else { (img_h - 1) as u32 },
        r.2 == if width <= img_w - r.0 { if width == 0 { 1 } else { width } } else if img_w - r.0 == 0 { 1 } else { (img_w - r.0) as u32 },
        r.3 == if height <= img_h - r.1 { if height == 0 { 1 } else { height } } else if img_h - r.1 == 0 { 1 } else { (img_h - r.1) as u32 },
{
    let max_x = if img_w > 0 { img_w - 1 } else { 0 };
    let max_y = if img_h > 0 { img_h - 1 } else { 0 };
    let x = if x < max_x { x } else { max_x };
    let y = if y < max_y { y } else { max_y };
    let w0 = if width < img_w - x { width } else { img_w - x };
    let h0 = if height < img_h - y { height } else { img_h - y };
    let w = if w0 > 1 { w0 } else { 1 };
    let h = if h0 > 1 { h0 } else { 1 };
    (x, y, w, h)
}


/// Whether `from_raw` accepts an RGBA buffer of `len` bytes for a
/// `width` x `height` image: four bytes per pixel must fit in `usize` and
/// in the buffer.
pub open spec fn rgba_fits(width: u32, height: u32, len: nat) -> bool {
    &&& 4 * width <= usize::MAX
    &&& 4 * width * height <= usize::MAX
    &&& 4 * width * height <= len
}

/// `image::ImageBuffer::<Rgba<u8>, _>::from_raw` succeeds: its source
/// checks that `4 * width * height` (with checked multiplications) is at
/// most the buffer's length.
#[verifier::external_body]
fn rgba_buffer_fits(width: u32, height: u32, buf: &Vec<u8>) -> (r: bool)
    ensures
        r == rgba_fits(width, height, buf@.len()),
{
    image::ImageBuffer::<image::Rgba<u8>, &[u8]>::from_raw(width, height, buf.as_slice()).is_some()
}

/// A pasted clipboard image is accepted when its buffer holds the whole
/// image; "dati immagine non validi" otherwise.
pub fn check_clipboard_image(rgba: &Vec<u8>, width: u32, height: u32) -> (r: Result<(), String>)
    ensures
        match r {
            Ok(()) => rgba_fits(width, height, rgba@.len()),
            Err(e) => !rgba_fits(width, height, rgba@.len()) && e@ == "dati immagine non validi"@,
        },
{
    if rgba_buffer_fits(width, height, rgba) {
        Ok(())
    } else {
        Err(String::from_str("dati immagine non validi"))
    }
}

/// The icon extensions a downloaded icon keeps as they are.
pub open spec fn is_known_icon_extension(e: Seq<char>) -> bool {
    e == "ico"@ || e == "png"@ || e == "jpg"@ || e == "jpeg"@ || e == "gif"@ || e == "webp"@ || e == "svg"@
}

/// The extension a downloaded icon is cached under: the one of its URL's
/// path when it is a known icon extension, `ico` otherwise.
pub open spec fn cached_extension(icon_url: Seq<char>) -> Seq<char> {
    match url_path(icon_url) {
        Some(p) => match path_extension(p) {
            Some(e) => if is_known_icon_extension(e) {
                e
            } else {
                "ico"@
            },
            None => "ico"@,
        },
        None => "ico"@,
    }
}

pub fn cached_icon_extension(icon_url: &str) -> (r: String)
    ensures
        r@ == cached_extension(icon_url@),
{
    let p = match path_of_url(icon_url) {
        Some(p) => p,
        None => return String::from_str("ico"),
    };
    match extension_of(p.as_str()) {
        Some(e) => {
            let s = e.as_str();
            if str_eq(s, "ico") || str_eq(s, "png") || str_eq(s, "jpg") || str_eq(s, "jpeg") || str_eq(s, "gif")
                || str_eq(s, "webp") || str_eq(s, "svg") {
                e
            } else {
                String::from_str("ico")
            }
        },
        None => String::from_str("ico"),
    }
}

/// The `/favicon.ico` at the root of a site: `<scheme>://<host>/favicon.ico`
/// of its URL; the URL's parse error, or "invalid app url" for a URL
/// without a host.
pub open spec fn site_favicon(site_url: Seq<char>) -> Result<Seq<char>, Seq<char>> {
    match url_scheme_and_host(site_url) {
        Err(e) => Err(e),
        Ok((scheme, host)) => match host {
            Some(h) => Ok(scheme + "://"@ + h + "/favicon.ico"@),
            None => Err("invalid app url"@),
        },
    }
}

/// Where an app's own favicon is fetched from: its URL's favicon, or "app
/// not found".
pub open spec fn app_favicon(c: AppConfigV, app_id: Seq<char>) -> Result<Seq<char>, Seq<char>> {
    let i = app_pos(c.apps, app_id);
    if i < 0 {
        Err("app not found"@)
    } else {
        site_favicon(c.apps[i].url)
    }
}

pub fn app_favicon_url(config: &AppConfig, app_id: &str) -> (r: Result<String, String>)
    ensures
        match r {
            Ok(u) => app_favicon(config@, app_id@) == Ok::<Seq<char>, Seq<char>>(u@),
            Err(e) => app_favicon(config@, app_id@) == Err::<Seq<char>, Seq<char>>(e@),
        },
{
    let i = match find_app(&config.apps, app_id) {
        Some(i) => i,
        None => return Err(String::from_str("app not found")),
    };
    assert(config@.apps[i as int] == config.apps@[i as int]@);
    site_favicon_url(config.apps[i].url.as_str())
}

pub fn site_favicon_url(site_url: &str) -> (r: Result<String, String>)
    ensures
        match r {
            Ok(u) => site_favicon(site_url@) == Ok::<Seq<char>, Seq<char>>(u@),
            Err(e) => site_favicon(site_url@) == Err::<Seq<char>, Seq<char>>(e@),
        },
{
    match scheme_and_host(site_url) {
        Err(e) => Err(e),
        Ok((scheme, host)) => match host {
            Some(h) => {
                let mut out = scheme;
                out.append("://");
                out.append(h.as_str());
                out.append("/favicon.ico");
                Ok(out)
            },
            None => Err(String::from_str("invalid app url")),
        },
    }
}

/// Where a subspace's favicon is fetched from: the favicon of its start
/// page (the app's URL when it has none); "app not found" or "subspace not
/// found" otherwise.
pub open spec fn subspace_favicon(c: AppConfigV, app_id: Seq<char>, subspace_id: Seq<char>) -> Result<Seq<char>, Seq<char>> {
    match tab_target_of(c, app_id, subspace_id, None) {
        Ok((url, _, _)) => site_favicon(url),
        Err(e) => Err(e),
    }
}

pub fn subspace_favicon_url(config: &AppConfig, app_id: &str, subspace_id: &str) -> (r: Result<String, String>)
    ensures
        match r {
            Ok(u) => subspace_favicon(config@, app_id@, subspace_id@) == Ok::<Seq<char>, Seq<char>>(u@),
            Err(e) => subspace_favicon(config@, app_id@, subspace_id@) == Err::<Seq<char>, Seq<char>>(e@),
        },
{
    match tab_target(config, app_id, subspace_id, None) {
        Ok(t) => site_favicon_url(t.url.as_str()),
        Err(e) => Err(e),
    }
}

/// A picked icon's real size and format, read off the cached file.
pub struct IconSourceInfo {
    pub width: u32,
    pub height: u32,
    pub format: String,
    pub size_bytes: u64,
}

/// One icon found by the macOS icon library search.
pub struct MacIconResult {
    pub app_name: String,
    pub png_url: String,
    pub credit: Option<String>,
}

/// What an icon library search is sent with: the trimmed query and the API
/// key; "query vuota" for a blank query, and a message pointing to the
/// global settings when no key is set.
pub fn macos_icons_request(query: &str, api_key: &Option<String>) -> (r: Result<(String, String), String>)
    ensures
        match r {
            Ok((q, k)) => trim(query@).len() > 0 && q@ == trim(query@) && opt_view(*api_key) == Some(k@),
            Err(e) => if trim(query@).len() == 0 {
                e@ == "query vuota"@
            } else {
                api_key is None && e@ == "Nessuna API key macOSicons impostata nelle impostazioni globali"@
            },
        },
{
    let t = trim_str(query);
    if t.len() == 0 {
        return Err(String::from_str("query vuota"));
    }
    match api_key {
        Some(k) => Ok((string_of(&t), k.clone())),
        None => Err(String::from_str("Nessuna API key macOSicons impostata nelle impostazioni globali")),
    }
}

} // verus!
