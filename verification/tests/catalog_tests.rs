use soulless::catalog::{AppEntry, AppSource};
use soulless::entries::{
    binary_app, cli_blacklisted, desktop_app, file_app, flatpak_app, home_excluded,
    is_jetbrains_desktop_name, is_steam_manifest, jetbrains_desktop_app, jetbrains_toolbox_app,
    keep_cli_command, keep_desktop_entry, steam_app, strip_flatpak_placeholders, wine_app,
};
use soulless::index_order::finalize_index;
use soulless::entries::desktop_candidate;
use soulless::background::{load_background_rgba, pick_background};

#[test]
fn desktop_and_flatpak_entries() {
    assert!(keep_desktop_entry(false, "firefox %u", "Firefox"));
    assert!(!keep_desktop_entry(true, "firefox %u", "Firefox"));
    assert!(!keep_desktop_entry(false, "/usr/libexec/polkit-agent", "Agent"));
    let e = desktop_app(Some("firefox.desktop"), "Firefox", "firefox %u", "/i/ff.png".to_string());
    assert_eq!(e.id, "desktop:firefox.desktop");
    assert_eq!(e.exec_line, "firefox");
    assert_eq!(e.lower_name, "firefox");
    assert_eq!(e.source, AppSource::Desktop);
    assert_eq!(e.launch_count, 0);
    assert!(e.keywords.is_empty());
    assert_eq!(desktop_app(None, "Name", "x", String::new()).id, "desktop:Name");
    assert_eq!(strip_flatpak_placeholders(" app %U %%u %k "), "app  %");
    let f = flatpak_app(Some("org.x.desktop"), "X", "x %F", "i".to_string());
    assert_eq!(f.id, "flatpak:org.x.desktop");
    assert_eq!(f.exec_line, "x");
    assert_eq!(f.keywords, vec!["flatpak"]);
    assert_eq!(f.categories, vec!["Flatpak"]);
}

#[test]
fn steam_binary_file_entries() {
    assert!(is_steam_manifest("appmanifest_620.acf"));
    assert!(!is_steam_manifest("libraryfolders.vdf"));
    let s = steam_app("620", "Portal 2", "/i/h.jpg".to_string());
    assert_eq!(s.id, "steam:620");
    assert_eq!(s.exec_line, "steam steam://rungameid/620");
    assert_eq!(s.keywords, vec!["steam", "game"]);
    assert!(cli_blacklisted("bash"));
    assert!(!cli_blacklisted("htop"));
    assert!(keep_cli_command("htop", true));
    assert!(!keep_cli_command("htop", false));
    assert!(!keep_cli_command("ls", true));
    assert!(!keep_cli_command("x86_64-linux-gnu-gcc", true));
    assert!(!keep_cli_command("armv7", true));
    assert!(!keep_cli_command("pkg-config", true));
    let b = binary_app("/usr/bin/htop", "htop", "u".to_string());
    assert_eq!(b.id, "binary:/usr/bin/htop");
    assert_eq!(b.exec_line, "cosmic-term -e sh -c 'htop --help 2>&1 | less'");
    assert_eq!(b.categories, vec!["Binary"]);
    let d = file_app("/home/u/Docs", "Docs", true, "folder.png", "file.png");
    assert_eq!(d.source, AppSource::Folder);
    assert_eq!(d.icon_path, "folder.png");
    assert_eq!(d.exec_line, "xdg-open /home/u/Docs");
    let f = file_app("/home/u/a.txt", "a.txt", false, "folder.png", "file.png");
    assert_eq!(f.source, AppSource::File);
    assert_eq!(f.icon_path, "file.png");
    assert!(home_excluded("node_modules"));
    assert!(!home_excluded("Projects"));
}

#[test]
fn jetbrains_and_wine_entries() {
    let t = jetbrains_toolbox_app("pycharm", "/opt/pycharm.sh");
    assert_eq!(t.name, "PyCharm");
    assert_eq!(t.id, "jetbrains:pycharm");
    assert_eq!(t.icon_path, "/usr/share/icons/hicolor/48x48/apps/apport.png");
    assert!(is_jetbrains_desktop_name("jetbrains-idea.desktop"));
    assert!(!is_jetbrains_desktop_name("firefox.desktop"));
    let d = jetbrains_desktop_app("Name=GoLand\nExec=/opt/goland.sh\n").unwrap();
    assert_eq!(d.id, "jetbrains-desktop:GoLand");
    assert_eq!(d.icon_path, "/usr/share/icons/hicolor/48x48/apps/apport.png");
    let d = jetbrains_desktop_app("Name=GoLand\nExec=g\nIcon=/i/g.png\n").unwrap();
    assert_eq!(d.icon_path, "/i/g.png");
    assert!(jetbrains_desktop_app("Name=X\n").is_none());
    let w = wine_app("/p/Game.lnk", "Game").unwrap();
    assert_eq!(w.exec_line, "wine start /unix \"/p/Game.lnk\"");
    assert_eq!(w.keywords, vec!["wine", "windows"]);
    assert!(wine_app("/p/Uninstall Game.lnk", "Uninstall Game").is_none());
    assert!(wine_app("/p/Setup.lnk", "SETUP").is_none());
}

fn entry(name: &str, lower: &str, id: &str) -> AppEntry {
    AppEntry {
        id: id.to_string(),
        name: name.to_string(),
        exec_line: String::new(),
        icon_path: String::new(),
        source: AppSource::Desktop,
        lower_name: lower.to_string(),
        keywords: vec![],
        categories: vec![],
        launch_count: 0,
        last_launched: None,
        desktop_path: None,
    }
}

#[test]
fn finalize_dedups_then_sorts_stably() {
    let apps = vec![
        entry("Zed", "zed", "1"),
        entry("alpha", "alpha", "2"),
        entry("ZED", "zed", "3"),
        entry("Beta", "beta", "4"),
        entry("Alpha", "alpha2", "5"),
        entry("Beta", "beta2", "6"),
    ];
    let out = finalize_index(apps);
    let ids: Vec<&str> = out.iter().map(|a| a.id.as_str()).collect();
    assert_eq!(ids, vec!["5", "4", "6", "1", "2"]);
    assert!(finalize_index(Vec::new()).is_empty());
}

#[test]
fn desktop_files_are_parsed_and_screened() {
    let text = "[Desktop Entry]\nType=Application\nName=Firefox\nExec=firefox %u\nIcon=firefox\n";
    let c = desktop_candidate("/usr/share/applications/firefox.desktop", text, true, None).unwrap();
    assert_eq!(c.name, "Firefox");
    assert_eq!(c.exec_line, "firefox %u");
    assert_eq!(c.icon, Some("firefox".to_string()));
    let hidden = "[Desktop Entry]\nName=Hidden\nExec=h\nNoDisplay=true\n";
    assert!(desktop_candidate("/a/h.desktop", hidden, true, None).is_none());
    assert!(desktop_candidate("/a/h.desktop", hidden, false, None).is_some());
    let service = "[Desktop Entry]\nName=Thing\nExec=/usr/lib/thing-daemon\n";
    assert!(desktop_candidate("/a/t.desktop", service, true, None).is_none());
    let no_exec = "[Desktop Entry]\nName=NoExec\n";
    assert!(desktop_candidate("/a/n.desktop", no_exec, false, None).is_none());
    assert!(desktop_candidate("/a/not-a-desktop-file.txt", text, false, None).is_none());
    // A translation counts only for an entry with a gettext domain.
    let c = desktop_candidate("/usr/share/applications/firefox.desktop", text, true, Some("Feuerfuchs".into())).unwrap();
    assert_eq!(c.name, "Firefox");
    let ubuntu = "[Desktop Entry]\nName=Files\nExec=nautilus\nX-Ubuntu-Gettext-Domain=nautilus\n";
    let c = desktop_candidate("/a/files.desktop", ubuntu, true, Some("Dateien".into())).unwrap();
    assert_eq!(c.name, "Dateien");
    let c = desktop_candidate("/a/files.desktop", ubuntu, true, None).unwrap();
    assert_eq!(c.name, "Files");
}

#[test]
fn background_choice() {
    let entries = vec![
        "/bg/notes.txt".to_string(),
        "/bg/zebra.PNG".to_string(),
        "/bg/alpine.webp".to_string(),
        "/bg/Beach.jpg".to_string(),
    ];
    assert_eq!(pick_background(&entries), Some("/bg/Beach.jpg".to_string()));
    assert_eq!(pick_background(&["/bg/readme".to_string()]), None);
    assert_eq!(pick_background(&[]), None);
    assert!(load_background_rgba("/bg/x.png", b"not an image", 4, 4).is_none());
    assert!(load_background_rgba("/bg/x.unknown", b"", 4, 4).is_none());
}

#[test]
fn background_pixels_fill_the_panel() {
    let img = image::RgbaImage::from_pixel(2, 3, image::Rgba([10, 20, 30, 255]));
    let mut png = Vec::new();
    image::DynamicImage::ImageRgba8(img)
        .write_to(&mut std::io::Cursor::new(&mut png), image::ImageFormat::Png)
        .unwrap();
    let px = load_background_rgba("/bg/tiny.png", &png, 4, 4).unwrap();
    assert_eq!(px.len(), 4 * 4 * 4);
    assert_eq!(&px[0..4], &[10, 20, 30, 255]);
    assert!(load_background_rgba("/bg/tiny.jpg", &png, 4, 4).is_none());
}

#[test]
fn appimages_are_named_by_their_stem() {
    assert!(soulless::entries::is_appimage_path("/home/u/Applications/Tool_Kit-1.2.AppImage"));
    assert!(!soulless::entries::is_appimage_path("/home/u/Applications/tool.appimage"));
    assert!(!soulless::entries::is_appimage_path("/home/u/Applications/AppImage"));
    let e = soulless::entries::appimage_app("/home/u/Applications/Tool_Kit.AppImage", "Tool_Kit", "i.png".to_string());
    assert_eq!(e.id, "appimage:/home/u/Applications/Tool_Kit.AppImage");
    assert_eq!(e.name, "Tool Kit");
    assert_eq!(e.lower_name, "tool kit");
    assert_eq!(e.exec_line, "/home/u/Applications/Tool_Kit.AppImage");
    assert_eq!(e.keywords, vec!["appimage"]);
    assert_eq!(e.categories, vec!["Portable"]);
}

#[test]
fn parsed_fields_become_candidates() {
    let f = |name: Option<&str>, exec: Option<&str>, hidden: bool, domain: Option<&str>| soulless::entries::DesktopFields {
        name: name.map(String::from),
        exec_line: exec.map(String::from),
        no_display: hidden,
        icon: Some("i".to_string()),
        gettext_domain: domain.map(String::from),
    };
    let c = soulless::entries::candidate_from_fields(Some(f(Some("Files"), Some("nautilus"), false, Some("nautilus"))), true, Some("Dateien".into())).unwrap();
    assert_eq!(c.name, "Dateien");
    assert_eq!(c.icon, Some("i".to_string()));
    assert!(soulless::entries::candidate_from_fields(Some(f(Some("Files"), Some("nautilus"), true, None)), true, None).is_none());
    assert!(soulless::entries::candidate_from_fields(Some(f(Some("Files"), Some("nautilus"), true, None)), false, None).is_some());
    assert!(soulless::entries::candidate_from_fields(Some(f(None, Some("x"), false, None)), false, None).is_none());
    assert!(soulless::entries::candidate_from_fields(None, false, None).is_none());
}
