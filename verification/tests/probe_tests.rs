use soulless::icons::{first_hit, icon_probes, raster_search_dirs, vector_search_dirs, ProbeHit, ProbeKind};

#[test]
fn probes_go_raster_first_then_svg_dirs() {
    let local = "/home/u/.local/share/icons/hicolor";
    let p = icon_probes("firefox", local);
    let r = raster_search_dirs(local).len();
    let v = vector_search_dirs(local).len();
    assert_eq!(p.len(), 3 * r + v);
    assert_eq!(p[0], ("/home/u/.local/share/icons/hicolor/256x256/apps/firefox.png".to_string(), ProbeKind::Raster));
    assert_eq!(p[1], ("/home/u/.local/share/icons/hicolor/256x256/apps/firefox.jpg".to_string(), ProbeKind::Raster));
    assert_eq!(p[2], ("/home/u/.local/share/icons/hicolor/256x256/apps/firefox.svg".to_string(), ProbeKind::Vector));
    assert_eq!(p[3], ("/usr/share/icons/hicolor/256x256/apps/firefox.png".to_string(), ProbeKind::Raster));
    assert_eq!(p[3 * r - 3], ("/usr/share/pixmaps/firefox.png".to_string(), ProbeKind::Raster));
    assert_eq!(p[3 * r], ("/home/u/.local/share/icons/hicolor/scalable/apps/firefox.svg".to_string(), ProbeKind::Vector));
    assert_eq!(p[p.len() - 1], ("/usr/share/icons/breeze/preferences/22/firefox.svg".to_string(), ProbeKind::Vector));
}

#[test]
fn the_first_existing_probe_decides() {
    let probes = vec![
        ("a.png".to_string(), ProbeKind::Raster),
        ("a.svg".to_string(), ProbeKind::Vector),
        ("b.png".to_string(), ProbeKind::Raster),
    ];
    assert!(matches!(first_hit(&probes, &[false, true, true]), ProbeHit::Vector(p) if p == "a.svg"));
    assert!(matches!(first_hit(&probes, &[false, false, true]), ProbeHit::Raster(p) if p == "b.png"));
    assert!(matches!(first_hit(&probes, &[true, true, true]), ProbeHit::Raster(p) if p == "a.png"));
    assert!(matches!(first_hit(&probes, &[false, false, false]), ProbeHit::Miss));
    assert!(matches!(first_hit(&probes, &[]), ProbeHit::Miss));
}
