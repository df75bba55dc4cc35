use soulless::cache_policy::{is_stale, source_dirs};
use soulless::config::{parse_hex_rgb, ThemeVariant};
use soulless::icons::{
    alternate_name, classify_icon, fallback_icon, icon_basename, icon_file_path,
    raster_search_dirs, vector_search_dirs, IconCache, IconLookup, IconName, FALLBACK_ICON,
};
use soulless::procfs::{cpu_times, mem_totals, net_totals};
use soulless::startup::{
    activation_effect, lock_dir, parse_cli, refuse_panel_birth, residency, sandbox_unblessed,
    Activation, ActivationEffect, CliCommand, LockOutcome, Residency,
};

#[test]
fn icon_cache_round_trip() {
    let mut c = IconCache::new_in("/tmp/icons".to_string());
    assert!(c.is_empty());
    assert!(matches!(c.lookup(None), IconLookup::Fallback(p) if p == fallback_icon()));
    assert!(matches!(c.lookup(Some("firefox")), IconLookup::Miss));
    let r = c.settle("firefox", None, Some("/i/firefox-symbolic.png".to_string()));
    assert_eq!(r, "/i/firefox-symbolic.png");
    assert!(matches!(c.lookup(Some("firefox")), IconLookup::Cached(p) if p == "/i/firefox-symbolic.png"));
    let r = c.settle("nothing", None, None);
    assert_eq!(r, "/usr/share/icons/hicolor/48x48/apps/apport.png");
    let r = c.settle("gimp", Some("/i/gimp.png".to_string()), Some("/other".to_string()));
    assert_eq!(r, "/i/gimp.png");
    assert_eq!(c.len(), 3);
    c.clear();
    assert_eq!(c.len(), 0);
    assert_eq!(c.svg_cache_dir(), "/tmp/icons");
    assert_eq!(FALLBACK_ICON, "assets/launcher.png");
}

#[test]
fn icon_names_and_search_order() {
    assert_eq!(alternate_name("audio-volume-symbolic"), "audio-volume");
    assert_eq!(alternate_name("firefox"), "firefox-symbolic");
    assert!(matches!(classify_icon("steam_icon_620"), IconName::Steam(a) if a == "620"));
    assert!(matches!(classify_icon("/usr/share/pixmaps/x.png"), IconName::Absolute));
    assert!(matches!(classify_icon("firefox"), IconName::Themed));
    assert_eq!(icon_basename("apps/firefox"), Some("firefox".to_string()));
    assert_eq!(icon_basename("firefox"), None);
    assert_eq!(icon_basename("dir/"), Some(String::new()));
    let r = raster_search_dirs("/home/u/.local/share/icons/hicolor");
    assert_eq!(r.len(), 127);
    assert_eq!(r[0], "/home/u/.local/share/icons/hicolor/256x256/apps");
    assert_eq!(r[1], "/usr/share/icons/hicolor/256x256/apps");
    assert_eq!(r[2], "/usr/share/icons/Pop/256x256/apps");
    assert_eq!(r[3], "/home/u/.local/share/icons/hicolor/256x256/actions");
    assert_eq!(r[125], "/usr/share/icons/Pop/32x32/categories");
    assert_eq!(r[126], "/usr/share/pixmaps");
    let v = vector_search_dirs("/L");
    assert_eq!(v.len(), 30);
    assert_eq!(v[0], "/L/scalable/apps");
    assert_eq!(v[2], "/usr/share/icons/Cosmic/scalable/apps");
    assert_eq!(v[29], "/usr/share/icons/breeze/preferences/22");
    assert_eq!(icon_file_path("/d", "x", "png"), "/d/x.png");
}

#[test]
fn startup_decisions() {
    assert_eq!(parse_cli(None), CliCommand::Daemon);
    assert_eq!(parse_cli(Some("toggle")), CliCommand::Toggle);
    assert_eq!(parse_cli(Some("--help")), CliCommand::Help);
    assert_eq!(parse_cli(Some("-V")), CliCommand::Version);
    assert_eq!(parse_cli(Some("--frob")), CliCommand::Unknown("--frob".to_string()));
    assert!(refuse_panel_birth(true, None));
    assert!(refuse_panel_birth(true, Some("other")));
    assert!(!refuse_panel_birth(true, Some("applet")));
    assert!(!refuse_panel_birth(false, None));
    assert!(sandbox_unblessed(true, None));
    assert!(!sandbox_unblessed(false, None));
    assert_eq!(residency(LockOutcome::Won, false, false), Residency::Daemon);
    assert_eq!(residency(LockOutcome::Won, true, false), Residency::ReleaseAndRefuse);
    assert_eq!(residency(LockOutcome::Lost, false, true), Residency::ExitQuietly);
    assert_eq!(residency(LockOutcome::Lost, true, false), Residency::Forward);
    assert_eq!(residency(LockOutcome::Unavailable, true, false), Residency::Refuse);
    assert_eq!(residency(LockOutcome::Unavailable, false, false), Residency::Daemon);
    assert_eq!(lock_dir(Some("app.id".into()), Some("/run/user/1000".into())), Some("/run/user/1000/app/app.id".to_string()));
    assert_eq!(lock_dir(None, Some("/run/user/1000".into())), Some("/run/user/1000".to_string()));
    assert_eq!(lock_dir(Some("x".into()), None), None);
    assert_eq!(activation_effect(false, &Activation::Activate), ActivationEffect::ShowDeferred);
    assert_eq!(activation_effect(true, &Activation::Activate), ActivationEffect::Nothing);
    assert_eq!(activation_effect(true, &Activation::Action("toggle".into())), ActivationEffect::Dismiss);
    assert_eq!(activation_effect(false, &Activation::Action("toggle".into())), ActivationEffect::ShowNow);
    assert_eq!(activation_effect(false, &Activation::Action("other".into())), ActivationEffect::Nothing);
}

#[test]
fn theme_colours() {
    assert_eq!(ThemeVariant::default(), ThemeVariant::Chrome);
    assert_eq!(parse_hex_rgb("#E0E3E8"), Some((0xE0, 0xE3, 0xE8)));
    assert_eq!(parse_hex_rgb("  0a3d0a "), Some((0x0a, 0x3d, 0x0a)));
    assert_eq!(parse_hex_rgb("##ffffff"), Some((255, 255, 255)));
    assert_eq!(parse_hex_rgb("+f0000"), Some((15, 0, 0)));
    assert_eq!(parse_hex_rgb("#E0E3E"), None);
    assert_eq!(parse_hex_rgb("#GGGGGG"), None);
    assert_eq!(parse_hex_rgb("ééé"), None);
    // Six bytes that do not split into three pairs: no colour.
    assert_eq!(parse_hex_rgb("aé€"), None);
}

#[test]
fn cache_staleness() {
    let s = 1_000_000_000u128;
    assert!(is_stale(None, 100 * s, 24, &[]));
    assert!(!is_stale(Some(100 * s), 200 * s, 24, &[Some(50 * s), None]));
    assert!(is_stale(Some(100 * s), 200 * s, 24, &[Some(150 * s)]));
    assert!(is_stale(Some(0), (24 * 3600 + 1) * s, 24, &[]));
    assert!(!is_stale(Some(0), 24 * 3600 * s, 24, &[]));
    assert!(is_stale(Some(10 * s), 5 * s, 24, &[]));
    assert_eq!(
        source_dirs("desktop", "/home/u", Some("/a:/b".into())),
        vec!["/a/applications", "/b/applications", "/home/u/.local/share/applications"]
    );
    assert_eq!(
        source_dirs("desktop", "/home/u", None),
        vec!["/usr/local/share/applications", "/usr/share/applications", "/home/u/.local/share/applications"]
    );
    assert_eq!(
        source_dirs("flatpak", "/h", None),
        vec!["/var/lib/flatpak/exports/share/applications", "/h/.local/share/flatpak/exports/share/applications"]
    );
    assert!(source_dirs("steam", "/h", None).is_empty());
}

#[test]
fn proc_readings() {
    let dev = "Inter-|   Receive\n face |bytes\n    lo: 100 1 0 0 0 0 0 0 200 2 0 0 0 0 0 0\n  eth0: 1000 10 0 0 0 0 0 0 2000 20 0 0 0 0 0 0\n  wg0: 5 0 0 0 0 0 0 0 5 0 0 0 0 0 0 0\n wlan0: 30 1 0 0 0 0 0 0 40 1 0 0 0 0 0 0\nbad line\n";
    assert_eq!(net_totals(dev), (1030, 2040));
    assert_eq!(net_totals(""), (0, 0));
    let stat = "cpu  10 20 30 40 5 0 0 0 0 0\ncpu0 1 2 3 4\n";
    assert_eq!(cpu_times(stat), Some((45, 105)));
    assert_eq!(cpu_times("cpu  1 2 3\n"), None);
    assert_eq!(cpu_times("cpu0 1 2 3 4 5\n"), None);
    assert_eq!(cpu_times("cpu  1 2 x 4\n"), Some((4, 7)));
    let mem = "MemTotal:  1000 kB\nMemFree: 10 kB\nMemAvailable:  250 kB\n";
    assert_eq!(mem_totals(mem), Some((1000, 250)));
    assert_eq!(mem_totals("MemFree: 3 kB\n"), None);
    assert_eq!(mem_totals("MemTotal: lots\n"), None);
}
