use soulless::drawer_view::{app_id_from_payload, app_mime_types, drop_zone_paths, file_emoji, truncate_tile_label, uri_decode};
use soulless::easter_egg::{is_trigger, ORIGIN};
use soulless::placement::{BarEdge, BarPlugins, LauncherPosition, Wing};

#[test]
fn emoji_by_extension() {
    assert_eq!(file_emoji("report.PDF"), "📄");
    assert_eq!(file_emoji("archive.tar.gz"), "🗜");
    assert_eq!(file_emoji("main.rs"), "💻");
    assert_eq!(file_emoji("Makefile"), "📁");
    assert_eq!(file_emoji("photo.jpeg"), "🖼");
}

#[test]
fn latin1_uri_decode_and_labels() {
    assert_eq!(uri_decode("a%20b"), "a b");
    assert_eq!(uri_decode("%C3%A9"), "\u{c3}\u{a9}");
    assert_eq!(uri_decode("50%"), "50%");
    assert_eq!(uri_decode("%4"), "%4");
    assert_eq!(truncate_tile_label("Firefox", 7), "Firefox");
    assert_eq!(truncate_tile_label("Firefox", 4), "Fire…");
}

#[test]
fn passphrase_trigger() {
    assert_eq!(ORIGIN, "HMRDSmoke hooah");
    assert!(is_trigger("hooah"));
    assert!(is_trigger("  HOOAH "));
    assert!(!is_trigger(""));
    assert!(!is_trigger("hmrdsmoke"));
}

fn bar(wings: &str, center: &str) -> BarPlugins {
    BarPlugins { wings: wings.to_string(), center: center.to_string() }
}

#[test]
fn applet_bar_and_wing() {
    let id = "com.github.hmrdsmoke.soulless-applet";
    let none = bar("", "");
    let first = bar(&format!("Some(([\"{}\"], [\"x\"]))", id), "");
    let second = bar(&format!("Some(([\"x\"], [\"{}\"]))", id), "");
    let tight = bar(&format!("Some(([\"x\"],[\"{}\"]))", id), "");
    let single = bar(&format!("Some([\"{}\"])", id), "");
    let center = bar("Some(([], []))", &format!("Some([\"{}\"])", id));
    assert_eq!(LauncherPosition::find_applet_bar(&first, &none), ("Panel", Wing::First));
    assert_eq!(LauncherPosition::find_applet_bar(&second, &none), ("Panel", Wing::Second));
    assert_eq!(LauncherPosition::find_applet_bar(&tight, &none), ("Panel", Wing::Second));
    assert_eq!(LauncherPosition::find_applet_bar(&single, &none), ("Panel", Wing::First));
    assert_eq!(LauncherPosition::find_applet_bar(&center, &none), ("Panel", Wing::Center));
    assert_eq!(LauncherPosition::find_applet_bar(&none, &second), ("Dock", Wing::Second));
    assert_eq!(LauncherPosition::find_applet_bar(&none, &none), ("Panel", Wing::Center));
}

#[test]
fn bar_sizes_and_edges() {
    assert_eq!(LauncherPosition::bar_size_px(" XS\n"), 32);
    assert_eq!(LauncherPosition::bar_size_px("M"), 52);
    assert_eq!(LauncherPosition::bar_size_px("XL"), 78);
    assert_eq!(LauncherPosition::bar_size_px("Custom(50)"), 62);
    assert_eq!(LauncherPosition::bar_size_px("Custom( 8 )"), 20);
    assert_eq!(LauncherPosition::bar_size_px("Custom(x)"), 44);
    assert_eq!(LauncherPosition::bar_size_px(""), 44);
    assert_eq!(LauncherPosition::bar_anchor("Top\n"), BarEdge::Top);
    assert_eq!(LauncherPosition::bar_anchor("Right"), BarEdge::Right);
    assert_eq!(LauncherPosition::bar_anchor("whatever"), BarEdge::Bottom);
}

#[test]
fn drawer_drop_zone_reads_file_lines() {
    let data = b"  file:///tmp/a%20b\r\nhttp://x/y\nfile://file:///c%C3%A9\n# comment\n";
    assert_eq!(
        drop_zone_paths(data),
        vec!["/tmp/a b".to_string(), "/c\u{c3}\u{a9}".to_string()]
    );
    assert!(drop_zone_paths(b"").is_empty());
}

#[test]
fn dragged_app_tiles_carry_their_id() {
    assert_eq!(app_id_from_payload(b"  org.mozilla.firefox\n"), "org.mozilla.firefox");
    assert_eq!(app_id_from_payload(b""), "");
    assert_eq!(
        app_mime_types(),
        vec!["text/plain;charset=utf-8", "text/plain", "UTF8_STRING", "STRING"]
    );
}
