use soulless::navigation::{key_command, Key, KeyCommand, drawer_for_digit, drop_effect, DropEffect, DropSite, enter_launch, grid_down, grid_up, next_drawer, prev_drawer, tab_target, Page, TabTarget};

fn names(v: &[&str]) -> Vec<String> {
    v.iter().map(|s| s.to_string()).collect()
}

#[test]
fn grid_moves() {
    // 10 items, 4 per row: rows [0..4), [4..8), [8..10).
    assert_eq!(grid_down(None, 10, 4), 0);
    assert_eq!(grid_down(Some(1), 10, 4), 5);
    assert_eq!(grid_down(Some(6), 10, 4), 9);
    assert_eq!(grid_down(Some(9), 10, 4), 9);
    assert_eq!(grid_down(Some(3), 4, 4), 3);
    assert_eq!(grid_up(Some(5), 4), Some(1));
    assert_eq!(grid_up(Some(3), 4), None);
    assert_eq!(grid_up(None, 4), None);
}

#[test]
fn drawer_steps() {
    let n = names(&["A", "B", "C"]);
    assert_eq!(next_drawer(&n, None), Some("A".to_string()));
    assert_eq!(next_drawer(&n, Some("A")), Some("B".to_string()));
    assert_eq!(next_drawer(&n, Some("C")), None);
    assert_eq!(next_drawer(&n, Some("zzz")), Some("B".to_string()));
    assert_eq!(prev_drawer(&n, Some("B")), Some("A".to_string()));
    assert_eq!(prev_drawer(&n, Some("A")), None);
    assert_eq!(prev_drawer(&n, None), None);
    assert_eq!(next_drawer(&[], None), None);
}

#[test]
fn tab_cycles_through_drawers_and_search() {
    let n = names(&["A", "B"]);
    assert_eq!(tab_target(&n, None), TabTarget::Drawer("A".to_string()));
    assert_eq!(tab_target(&n, Some("A")), TabTarget::Drawer("B".to_string()));
    assert_eq!(tab_target(&n, Some("B")), TabTarget::SearchBar);
    assert_eq!(tab_target(&n, Some("gone")), TabTarget::Drawer("A".to_string()));
    assert_eq!(tab_target(&[], None), TabTarget::NoDrawers);
}

#[test]
fn enter_choice() {
    let f = Some("focused".to_string());
    let t = Some("top".to_string());
    assert_eq!(enter_launch(Page::Terminal, f.clone(), "q", true, t.clone()), None);
    assert_eq!(enter_launch(Page::Monitors, f.clone(), "", false, t.clone()), f);
    assert_eq!(enter_launch(Page::Monitors, None, " q ", true, t.clone()), t);
    assert_eq!(enter_launch(Page::Monitors, None, "   ", true, t.clone()), None);
    assert_eq!(enter_launch(Page::Monitors, None, "q", false, t), None);
}

#[test]
fn ctrl_digit_opens_drawer_by_position() {
    let n = names(&["Games", "Work", "Media"]);
    assert_eq!(drawer_for_digit(&n, "1"), Some("Games".to_string()));
    assert_eq!(drawer_for_digit(&n, "3"), Some("Media".to_string()));
    assert_eq!(drawer_for_digit(&n, "4"), None);
    assert_eq!(drawer_for_digit(&n, "0"), None);
    assert_eq!(drawer_for_digit(&n, "a"), None);
    assert_eq!(drawer_for_digit(&n, ""), None);
    assert_eq!(drawer_for_digit(&[], "1"), None);
}

#[test]
fn drops_reach_the_open_drawer_only_as_uri_lists() {
    let data = b"file:///home/u/a%20b.txt\r\nhttp://x/y\r\nfile:///gone\r\n";
    let yes = [true, false];
    assert_eq!(
        drop_effect(&DropSite::Pinned("Work".to_string()), "text/uri-list", data, &yes),
        DropEffect::Drawer("Work".to_string(), vec!["/home/u/a b.txt".to_string()])
    );
    assert_eq!(
        drop_effect(&DropSite::Vault, "text/uri-list", data, &[true, true]),
        DropEffect::Vault(vec!["/home/u/a b.txt".to_string(), "/gone".to_string()])
    );
    assert_eq!(drop_effect(&DropSite::Search, "text/uri-list", data, &yes), DropEffect::Nothing);
    assert_eq!(drop_effect(&DropSite::Vault, "text/plain", data, &yes), DropEffect::Nothing);
    assert_eq!(drop_effect(&DropSite::Vault, "text/uri-list", b"http://x/y\n", &yes), DropEffect::Nothing);
    // Nothing that exists: nothing is handed on.
    assert_eq!(drop_effect(&DropSite::Vault, "text/uri-list", data, &[false, false]), DropEffect::Nothing);
}

#[test]
fn only_existing_paths_are_kept() {
    let paths = vec!["/a".to_string(), "/b".to_string(), "/c".to_string()];
    assert_eq!(soulless::utils::existing_paths(paths.clone(), &[true, false, true]), vec!["/a", "/c"]);
    assert_eq!(soulless::utils::existing_paths(paths, &[false]), Vec::<String>::new());
}

#[test]
fn keys_map_to_commands() {
    let n = names(&["Games", "Work"]);
    let k = |key: Key, ctrl: bool, open: Option<&str>, in_search: bool, show: bool, len: usize, focused: Option<usize>, exec: Option<&str>| {
        key_command(&key, ctrl, &n, open, in_search, show, len, focused, exec.map(|e| e.to_string()))
    };
    assert_eq!(k(Key::Escape, false, None, true, false, 0, None, None), KeyCommand::Close);
    // Results grid of 10, 4 per row.
    assert_eq!(k(Key::ArrowDown, false, None, true, true, 10, None, None), KeyCommand::FocusResult(0));
    assert_eq!(k(Key::ArrowDown, false, None, true, true, 10, Some(5), None), KeyCommand::FocusResult(9));
    assert_eq!(k(Key::ArrowDown, false, None, true, true, 0, None, None), KeyCommand::ScrollToFocus);
    assert_eq!(k(Key::ArrowUp, false, None, true, true, 10, Some(6), None), KeyCommand::FocusResult(2));
    assert_eq!(k(Key::ArrowUp, false, None, true, true, 10, Some(2), None), KeyCommand::ClearFocus);
    // Drawers when no grid shows.
    assert_eq!(k(Key::ArrowDown, false, None, true, false, 0, None, None), KeyCommand::OpenDrawer("Games".into()));
    assert_eq!(k(Key::ArrowDown, false, Some("Games"), false, false, 0, None, None), KeyCommand::OpenDrawer("Work".into()));
    assert_eq!(k(Key::ArrowDown, false, Some("Work"), false, false, 0, None, None), KeyCommand::Nothing);
    assert_eq!(k(Key::ArrowUp, false, Some("Work"), false, false, 0, None, None), KeyCommand::OpenDrawer("Games".into()));
    assert_eq!(k(Key::ArrowUp, false, None, true, false, 0, None, None), KeyCommand::Nothing);
    assert_eq!(k(Key::Enter, false, None, true, true, 3, Some(1), Some("gimp")), KeyCommand::Launch("gimp".into()));
    assert_eq!(k(Key::Enter, false, None, true, true, 3, None, Some("gimp")), KeyCommand::Nothing);
    assert_eq!(k(Key::ArrowRight, false, None, true, true, 3, None, None), KeyCommand::FocusNext);
    assert_eq!(k(Key::ArrowLeft, false, None, true, true, 3, None, None), KeyCommand::FocusPrev);
    assert_eq!(k(Key::Character("2".into()), true, None, true, false, 0, None, None), KeyCommand::OpenDrawer("Work".into()));
    assert_eq!(k(Key::Character("s".into()), true, Some("Work"), false, false, 0, None, None), KeyCommand::Nothing);
    assert_eq!(k(Key::Character("s".into()), false, Some("Work"), false, false, 0, None, None), KeyCommand::FocusSearch);
    assert_eq!(k(Key::Character("s".into()), false, None, true, false, 0, None, None), KeyCommand::Nothing);
    assert_eq!(k(Key::Character("v".into()), false, Some("Work"), false, false, 0, None, None), KeyCommand::OpenVault);
    assert_eq!(k(Key::Other, false, None, true, false, 0, None, None), KeyCommand::Nothing);
}
