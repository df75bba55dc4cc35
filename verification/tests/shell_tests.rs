use soulless::navigation::Page;
use soulless::startup::{Activation, ActivationEffect, Shell};

#[test]
fn a_show_starts_fresh_and_a_second_activate_does_nothing() {
    let mut s = Shell::new();
    s.page = Page::Terminal;
    s.terminal.input = "ls".to_string();
    assert!(s.terminal.submit().is_some());
    assert!(s.terminal.is_running());
    let g = s.terminal.generation();
    assert_eq!(s.activate(&Activation::Activate), ActivationEffect::ShowDeferred);
    assert!(s.surface_open);
    assert_eq!(s.page, Page::Monitors);
    assert_eq!(s.terminal.input, "");
    assert!(s.terminal.scrollback().is_empty());
    assert!(!s.terminal.is_running());
    assert_eq!(s.terminal.generation(), g.wrapping_add(1));
    s.page = Page::Terminal;
    assert_eq!(s.activate(&Activation::Activate), ActivationEffect::Nothing);
    assert_eq!(s.page, Page::Terminal);
    assert!(s.surface_open);
}

#[test]
fn toggle_hides_then_shows() {
    let mut s = Shell::new();
    assert_eq!(s.activate(&Activation::Action("toggle".to_string())), ActivationEffect::ShowNow);
    assert!(s.surface_open);
    s.page = Page::Terminal;
    assert_eq!(s.activate(&Activation::Action("toggle".to_string())), ActivationEffect::Dismiss);
    assert!(!s.surface_open);
    assert_eq!(s.page, Page::Terminal);
    assert_eq!(s.activate(&Activation::Action("other".to_string())), ActivationEffect::Nothing);
    assert!(!s.surface_open);
}
