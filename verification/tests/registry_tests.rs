use soulless::appid::{find_app, resolve};
use soulless::catalog::{AppEntry, AppSource};
use soulless::drawers::{Drawer, DrawerFile, DrawerState};
use soulless::migrate::{migrate_drawers, prune_dead_apps};
use soulless::registry::{EntryKind, Registry};

fn app(id: &str, name: &str) -> AppEntry {
    AppEntry {
        id: id.to_string(),
        name: name.to_string(),
        exec_line: format!("run-{}", name),
        icon_path: format!("/icons/{}.png", name),
        source: AppSource::Desktop,
        lower_name: name.to_lowercase(),
        keywords: vec![],
        categories: vec![],
        launch_count: 0,
        last_launched: None,
        desktop_path: None,
    }
}

fn is_uuid(s: &str) -> bool {
    uuid::Uuid::parse_str(s).is_ok()
}

#[test]
fn register_app_twice_gives_same_id() {
    let mut r = Registry::new();
    let a = r.register_app("desktop:firefox.desktop", "Firefox", "firefox %u", "/i/ff.png");
    assert!(is_uuid(&a));
    assert_eq!(a.len(), 36);
    let b = r.register_app("desktop:firefox.desktop", "Other", "other", "/x");
    assert_eq!(a, b);
    let e = r.get(&a).unwrap();
    assert_eq!(e.kind, EntryKind::App);
    assert_eq!(e.name, "Firefox");
    assert_eq!(e.exec_or_path, "firefox %u");
    assert_eq!(e.icon, "/i/ff.png");
    assert_eq!(e.source_id, "desktop:firefox.desktop");
    assert_eq!(e.id, a);
}

#[test]
fn distinct_sources_get_distinct_ids() {
    let mut r = Registry::new();
    let a = r.register_app("desktop:a", "A", "a", "");
    let b = r.register_app("desktop:b", "B", "b", "");
    assert_ne!(a, b);
    assert!(r.get("not-an-id").is_none());
}

#[test]
fn register_path_uses_file_name_and_path_key() {
    let mut r = Registry::new();
    let id = r.register_path("/home/u/Documents/report.pdf", EntryKind::File);
    let e = r.get(&id).unwrap();
    assert_eq!(e.name, "report.pdf");
    assert_eq!(e.exec_or_path, "/home/u/Documents/report.pdf");
    assert_eq!(e.source_id, "path:/home/u/Documents/report.pdf");
    assert_eq!(e.icon, "");
    assert_eq!(e.kind, EntryKind::File);
    let again = r.register_path("/home/u/Documents/report.pdf", EntryKind::Dir);
    assert_eq!(id, again);
    let root = r.register_path("/", EntryKind::Dir);
    assert_eq!(r.get(&root).unwrap().name, "/");
}

#[test]
fn find_app_returns_first_position() {
    let apps = vec![app("a", "One"), app("b", "Two"), app("a", "Three")];
    assert_eq!(find_app(&apps, "a"), Some(0));
    assert_eq!(find_app(&apps, "b"), Some(1));
    assert_eq!(find_app(&apps, "c"), None);
}

#[test]
fn resolve_direct_then_through_registry() {
    let apps = vec![app("desktop:a", "A"), app("desktop:b", "B")];
    let mut r = Registry::new();
    let id = r.register_app("desktop:b", "B", "b", "");
    assert_eq!(resolve("desktop:a", &apps, &r).unwrap().name, "A");
    assert_eq!(resolve(&id, &apps, &r).unwrap().name, "B");
    assert!(resolve("unknown", &apps, &r).is_none());
    let gone = r.register_app("desktop:gone", "G", "g", "");
    assert!(resolve(&gone, &apps, &r).is_none());
}

#[test]
fn migrate_replaces_known_ids_and_registers_files() {
    let apps = vec![app("desktop:a", "A"), app("desktop:b", "B")];
    let mut r = Registry::new();
    let mut s = DrawerState {
        drawers: vec![Drawer {
            name: "D".into(),
            icon: "".into(),
            apps: vec!["desktop:a".into(), "missing".into()],
            files: vec![DrawerFile { path: "/f/x.txt".into(), name: "x.txt".into() }],
        }],
    };
    assert!(migrate_drawers(&mut s, &mut r, &apps));
    let pinned = s.apps_in_drawer("D").to_vec();
    assert_eq!(pinned.len(), 2);
    assert!(is_uuid(&pinned[0]));
    assert_eq!(pinned[1], "missing");
    assert_eq!(r.get(&pinned[0]).unwrap().source_id, "desktop:a");
    // The file is now known to the registry.
    let fid = r.register_path("/f/x.txt", EntryKind::File);
    assert_eq!(r.get(&fid).unwrap().name, "x.txt");
    // A second run changes nothing.
    let before = s.apps_in_drawer("D").to_vec();
    assert!(!migrate_drawers(&mut s, &mut r, &apps));
    assert_eq!(s.apps_in_drawer("D").to_vec(), before);
}

#[test]
fn prune_removes_unresolvable_ids_once() {
    let apps = vec![app("desktop:a", "A")];
    let r = Registry::new();
    let mut s = DrawerState {
        drawers: vec![Drawer {
            name: "D".into(),
            icon: "".into(),
            apps: vec!["desktop:a".into(), "dead".into()],
            files: vec![],
        }],
    };
    assert!(prune_dead_apps(&mut s, &r, &apps));
    assert_eq!(s.apps_in_drawer("D"), &["desktop:a".to_string()]);
    assert!(!prune_dead_apps(&mut s, &r, &apps));
}

#[test]
fn every_uuid_form_is_left_in_place() {
    let forms = [
        "936da01f9abd4d9d80c702af85c822a8",
        "936DA01F-9ABD-4D9D-80C7-02AF85C822A8",
        "{936da01f-9abd-4d9d-80c7-02af85c822a8}",
        "URN:uuid:936da01f-9abd-4d9d-80c7-02af85c822a8",
    ];
    let apps: Vec<AppEntry> = forms.iter().map(|f| app(f, "X")).chain([app("desktop:g", "G")]).collect();
    let mut r = Registry::new();
    let mut s = DrawerState {
        drawers: vec![Drawer {
            name: "D".into(),
            icon: "".into(),
            apps: forms.iter().map(|f| f.to_string()).chain(["desktop:g".to_string()]).collect(),
            files: vec![],
        }],
    };
    assert!(migrate_drawers(&mut s, &mut r, &apps));
    let pinned = s.apps_in_drawer("D").to_vec();
    for (k, f) in forms.iter().enumerate() {
        assert_eq!(pinned[k], *f);
    }
    assert_ne!(pinned[4], "desktop:g");
}
