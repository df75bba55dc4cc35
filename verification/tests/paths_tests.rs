use soulless::paths::{
    backgrounds_dir, backgrounds_dir_for, cache_path, cache_path_for, config_path, config_path_for,
    host, host_prefix_for, icon_cache_dir_for, is_hidden, join_path, registry_path_for, sandboxed,
    theme_path_for,
};

#[test]
fn join_follows_path_join() {
    assert_eq!(join_path("/a", "b"), "/a/b");
    assert_eq!(join_path("/a/", "b"), "/a/b");
    assert_eq!(join_path("", "b"), "b");
    assert_eq!(join_path("/a", "/etc"), "/etc");
    for (b, c) in [("/x/y", "z.ron"), ("rel", "sub/dir"), ("/", "t")] {
        assert_eq!(join_path(b, c), std::path::Path::new(b).join(c).to_str().unwrap());
    }
}

#[test]
fn launcher_locations() {
    assert_eq!(config_path_for(Some("/home/u/.config".into())), "/home/u/.config/soulless/config.ron");
    assert_eq!(config_path_for(None), "~/.config/soulless/config.ron");
    assert_eq!(backgrounds_dir_for(Some("/c".into())), "/c/soulless/backgrounds");
    assert_eq!(theme_path_for(Some("/c".into())), Some("/c/soulless/theme.ron".to_string()));
    assert_eq!(cache_path_for(None, "desktop"), "/tmp/soulless/desktop.bin");
    assert_eq!(icon_cache_dir_for(Some("/k".into())), "/k/soulless/icons");
    assert_eq!(registry_path_for(None), "~/.local/share/soulless/app_registry.json");
    assert!(config_path().ends_with("soulless/config.ron"));
    assert!(backgrounds_dir().ends_with("soulless/backgrounds"));
    assert!(cache_path("steam").ends_with("soulless/steam.bin"));
}

#[test]
fn sandbox_prefix() {
    assert_eq!(host_prefix_for(true, true), "/run/host");
    assert_eq!(host_prefix_for(true, false), "");
    assert_eq!(host_prefix_for(false, true), "");
    assert_eq!(host("/run/host", "/usr/share/icons"), "/run/host/usr/share/icons");
    assert_eq!(host("", "/usr/bin"), "/usr/bin");
    assert!(sandboxed("/run/host"));
    assert!(!sandboxed(""));
}

#[test]
fn hidden_entries() {
    assert!(is_hidden("/home/u/.cache"));
    assert!(!is_hidden("/home/u/Documents"));
    assert!(!is_hidden("/"));
    assert!(!is_hidden("/home/u/.."));
}
