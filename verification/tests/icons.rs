use silos::icons::{
    app_favicon_url, cached_icon_extension, check_clipboard_image, content_extent, crop_rect, data_url_for,
    looks_like_svg, macos_icons_request, mime_for_extension, opaque_bounds, parse_hex_color, site_favicon_url,
    subspace_favicon_url, trim_box, trimmed_rect,
};
use silos::models::AppConfig;

/// Crops a row-major alpha plane the way downloaded icons are trimmed:
/// the content box grown by a margin of 4% of its longer side.
fn trimmed_size(alpha: &Vec<u8>, width: u32, height: u32) -> (u32, u32) {
    match trim_box(alpha, width, height) {
        Some(b) => {
            let margin = ((content_extent(&b) as f32) * 0.04).round() as u32;
            let r = trimmed_rect(&b, margin, width, height);
            (r.2, r.3)
        }
        None => (width, height),
    }
}

#[test]
fn trim_transparent_padding_crops_to_content() {
    let mut alpha = vec![0u8; 100 * 100];
    for y in 40..60 {
        for x in 40..60 {
            alpha[y * 100 + x] = 255;
        }
    }
    let (w, h) = trimmed_size(&alpha, 100, 100);
    // 20x20 opaque square plus ~4% margin should end up much smaller than the 100x100 canvas.
    assert!(w < 30);
    assert!(h < 30);
}

#[test]
fn trim_transparent_padding_leaves_full_bleed_image_untouched() {
    let alpha = vec![255u8; 50 * 50];
    assert_eq!(trimmed_size(&alpha, 50, 50), (50, 50));
}

#[test]
fn content_box_bounds_every_visible_pixel() {
    let mut alpha = vec![0u8; 10 * 8];
    alpha[2 * 10 + 7] = 11;
    alpha[5 * 10 + 3] = 200;
    alpha[6 * 10 + 9] = 10; // at the threshold: not content
    let b = opaque_bounds(&alpha, 10, 8).unwrap();
    assert_eq!((b.min_x, b.min_y, b.max_x, b.max_y), (3, 2, 7, 5));
    assert!(opaque_bounds(&vec![10u8; 80], 10, 8).is_none());
    assert!(opaque_bounds(&vec![], 0, 0).is_none());
    let r = trimmed_rect(&b, 1, 10, 8);
    assert_eq!(r, (2, 1, 7, 6));
    let clipped = trimmed_rect(&b, 4, 10, 8);
    assert_eq!(clipped, (0, 0, 10, 8));
}

#[test]
fn crop_rectangles_are_moved_inside_the_image() {
    assert_eq!(crop_rect(10, 10, 500, 500, 100, 100), (10, 10, 90, 90));
    assert_eq!(crop_rect(200, 200, 5, 5, 100, 100), (99, 99, 1, 1));
    assert_eq!(crop_rect(5, 5, 0, 0, 100, 100), (5, 5, 1, 1));
    assert_eq!(crop_rect(0, 0, 0, 0, 0, 0), (0, 0, 1, 1));
}

#[test]
fn hex_colors() {
    assert_eq!(parse_hex_color("#ff8000"), Some([255, 128, 0]));
    assert_eq!(parse_hex_color("##0a0B0c"), Some([10, 11, 12]));
    assert_eq!(parse_hex_color("2a2a30"), Some([42, 42, 48]));
    assert_eq!(parse_hex_color("#fff"), None);
    assert_eq!(parse_hex_color("#gg0000"), None);
    assert_eq!(parse_hex_color("+f+f+f"), None);
    assert_eq!(parse_hex_color("#+f+f+f"), None);
    assert_eq!(parse_hex_color("#aéxyz"), None);
    assert_eq!(parse_hex_color("#aéé12"), None);
    assert_eq!(parse_hex_color("-10000"), None);
    assert_eq!(parse_hex_color("éé12"), None);
}

#[test]
fn mime_types_by_extension() {
    assert_eq!(mime_for_extension("PNG"), "image/png");
    assert_eq!(mime_for_extension("jpeg"), "image/jpeg");
    assert_eq!(mime_for_extension("Jpg"), "image/jpeg");
    assert_eq!(mime_for_extension("ico"), "image/x-icon");
    assert_eq!(mime_for_extension("svg"), "image/svg+xml");
    assert_eq!(mime_for_extension("webp"), "image/webp");
    assert_eq!(mime_for_extension("gif"), "image/gif");
    assert_eq!(mime_for_extension("txt"), "application/octet-stream");
}

#[test]
fn svg_is_recognised_by_content_in_the_first_kib() {
    assert!(looks_like_svg(b"<?xml version=\"1.0\"?><svg xmlns=\"http://www.w3.org/2000/svg\"/>"));
    assert!(looks_like_svg(b"\xff\xfe<svg>"));
    assert!(!looks_like_svg(b"\x89PNG\r\n"));
    let mut late = vec![b' '; 1024];
    late.extend_from_slice(b"<svg>");
    assert!(!looks_like_svg(&late));
}

#[test]
fn data_urls_use_the_extension_and_standard_base64() {
    assert_eq!(data_url_for("/x/icon.PNG", b"Man"), "data:image/png;base64,TWFu");
    assert_eq!(data_url_for("/x/icon", b"Ma"), "data:image/png;base64,TWE=");
    assert_eq!(data_url_for("a.ico", &[0xff]), "data:image/x-icon;base64,/w==");
    assert_eq!(data_url_for("a.bin", &[]), "data:application/octet-stream;base64,");
}

#[test]
fn clipboard_buffers_must_hold_the_whole_image() {
    assert!(check_clipboard_image(&vec![0u8; 16], 2, 2).is_ok());
    assert_eq!(check_clipboard_image(&vec![0u8; 15], 2, 2).unwrap_err(), "dati immagine non validi");
    assert!(check_clipboard_image(&vec![], 0, 7).is_ok());
}

#[test]
fn cached_icons_keep_known_extensions_only() {
    assert_eq!(cached_icon_extension("https://x.org/f.svg?x=1"), "svg");
    assert_eq!(cached_icon_extension("https://x.org/a/b.png"), "png");
    assert_eq!(cached_icon_extension("https://x.org/a/b.PNG"), "ico");
    assert_eq!(cached_icon_extension("https://x.org/"), "ico");
}

#[test]
fn favicons_sit_at_the_site_root() {
    assert_eq!(site_favicon_url("https://mail.example.com/inbox?x=1").unwrap(), "https://mail.example.com/favicon.ico");
    assert_eq!(site_favicon_url("mailto:someone@example.com").unwrap_err(), "invalid app url");
    assert_eq!(site_favicon_url("nope").unwrap_err(), "relative URL without a base");

    let mut c = AppConfig::empty();
    let v = c.create_app_with_ids(
        "Mail".to_string(),
        "https://mail.example.com/inbox".to_string(),
        None,
        None,
        None,
        None,
        None,
        "app-1".to_string(),
        "sub-1".to_string(),
        0,
    );
    assert_eq!(v.id, "app-1");
    assert_eq!(app_favicon_url(&c, "app-1").unwrap(), "https://mail.example.com/favicon.ico");
    assert_eq!(app_favicon_url(&c, "missing").unwrap_err(), "app not found");
    c.set_subspace_start_url("app-1", "sub-1", Some("https://other.example.net/x".to_string()));
    assert_eq!(subspace_favicon_url(&c, "app-1", "sub-1").unwrap(), "https://other.example.net/favicon.ico");
    assert_eq!(subspace_favicon_url(&c, "app-1", "nope").unwrap_err(), "subspace not found");
}

#[test]
fn icon_library_requests_need_a_query_and_a_key() {
    assert_eq!(macos_icons_request("  ", &Some("k".to_string())).unwrap_err(), "query vuota");
    assert_eq!(
        macos_icons_request("slack", &None).unwrap_err(),
        "Nessuna API key macOSicons impostata nelle impostazioni globali"
    );
    assert_eq!(macos_icons_request(" slack ", &Some("k".to_string())).unwrap(), ("slack".to_string(), "k".to_string()));
}
