use soulless::drawers::{Drawer, DrawerFile, DrawerState};

fn names(s: &DrawerState) -> Vec<String> {
    s.drawer_names()
}

fn empty_state() -> DrawerState {
    DrawerState { drawers: Vec::new() }
}

#[test]
fn default_has_four_drawers_in_order() {
    let s = DrawerState::default();
    assert_eq!(names(&s), vec!["Daily Apps", "Work", "Games", "Utilities"]);
    assert_eq!(s.drawers()[0].icon, "⭐");
    assert_eq!(s.drawers()[3].icon, "⚙");
    assert_eq!(s.drawer_count(), 4);
}

#[test]
fn create_drawer_appends_and_ignores_duplicate_names() {
    let mut s = empty_state();
    s.create_drawer("A".to_string(), "x".to_string());
    s.create_drawer("B".to_string(), "y".to_string());
    s.create_drawer("A".to_string(), "z".to_string());
    assert_eq!(names(&s), vec!["A", "B"]);
    assert_eq!(s.drawers()[0].icon, "x");
}

#[test]
fn remove_drawer_drops_every_drawer_with_that_name() {
    let mut s = DrawerState {
        drawers: vec![
            Drawer { name: "A".into(), icon: "".into(), apps: vec![], files: vec![] },
            Drawer { name: "B".into(), icon: "".into(), apps: vec![], files: vec![] },
            Drawer { name: "A".into(), icon: "".into(), apps: vec![], files: vec![] },
        ],
    };
    s.remove_drawer("A");
    assert_eq!(names(&s), vec!["B"]);
    s.remove_drawer("missing");
    assert_eq!(names(&s), vec!["B"]);
}

#[test]
fn rename_drawer_refuses_taken_names() {
    let mut s = DrawerState::default();
    s.rename_drawer("Work", "Games");
    assert_eq!(names(&s), vec!["Daily Apps", "Work", "Games", "Utilities"]);
    s.rename_drawer("Work", "Office");
    assert_eq!(names(&s), vec!["Daily Apps", "Office", "Games", "Utilities"]);
    s.rename_drawer("Nope", "Other");
    assert_eq!(names(&s), vec!["Daily Apps", "Office", "Games", "Utilities"]);
}

#[test]
fn set_icon_changes_only_that_drawer() {
    let mut s = DrawerState::default();
    s.set_drawer_icon("Games", "🕹".to_string());
    assert_eq!(s.drawers()[2].icon, "🕹");
    assert_eq!(s.drawers()[1].icon, "💼");
}

#[test]
fn move_up_then_down_restores_order() {
    let mut s = DrawerState::default();
    s.move_drawer_up("Games");
    assert_eq!(names(&s), vec!["Daily Apps", "Games", "Work", "Utilities"]);
    s.move_drawer_down("Games");
    assert_eq!(names(&s), vec!["Daily Apps", "Work", "Games", "Utilities"]);
    s.move_drawer_up("Daily Apps");
    s.move_drawer_down("Utilities");
    assert_eq!(names(&s), vec!["Daily Apps", "Work", "Games", "Utilities"]);
}

#[test]
fn toggle_twice_restores_and_pins() {
    let mut s = DrawerState::default();
    s.toggle_app("Work", "firefox");
    assert!(s.is_pinned("Work", "firefox"));
    assert_eq!(s.apps_in_drawer("Work"), &["firefox".to_string()]);
    s.toggle_app("Work", "firefox");
    assert!(!s.is_pinned("Work", "firefox"));
    assert!(s.apps_in_drawer("Work").is_empty());
}

#[test]
fn add_app_is_idempotent_and_remove_unpins() {
    let mut s = DrawerState::default();
    s.add_app("Games", "steam".to_string());
    s.add_app("Games", "steam".to_string());
    assert_eq!(s.app_count("Games"), 1);
    s.add_app("Games", "lutris".to_string());
    s.remove_app("Games", "steam");
    assert_eq!(s.apps_in_drawer("Games"), &["lutris".to_string()]);
    assert!(!s.is_pinned("Games", "steam"));
    s.add_app("Missing", "x".to_string());
    assert_eq!(s.app_count("Missing"), 0);
}

#[test]
fn files_skip_duplicates_and_count_as_items() {
    let mut s = DrawerState::default();
    s.add_app("Work", "editor".to_string());
    s.add_file("Work", "/home/u/a.pdf".to_string(), "a.pdf".to_string());
    s.add_file("Work", "/home/u/a.pdf".to_string(), "other".to_string());
    assert_eq!(s.files_in_drawer("Work").len(), 1);
    assert_eq!(s.files_in_drawer("Work")[0].name, "a.pdf");
    assert_eq!(s.item_count("Work"), 2);
    s.remove_file("Work", "/home/u/a.pdf");
    assert_eq!(s.item_count("Work"), 1);
    assert_eq!(s.item_count("Nope"), 0);
}

#[test]
fn clear_empties_apps_and_files() {
    let mut s = DrawerState::default();
    s.add_app("Work", "a".to_string());
    s.add_file("Work", "/p".to_string(), "p".to_string());
    s.clear_drawer("Work");
    assert_eq!(s.item_count("Work"), 0);
    let f = DrawerFile { path: "/x".into(), name: "x".into() };
    assert_eq!(f.name, "x");
}
