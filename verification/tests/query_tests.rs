use soulless::catalog::{AppEntry, AppSource};
use soulless::query::{interpret, interpret_at, parse_count, score_app, top_recent, DAY};

fn app(name: &str, source: AppSource, count: u32, last: Option<u64>) -> AppEntry {
    AppEntry {
        id: name.to_string(),
        name: name.to_string(),
        exec_line: name.to_string(),
        icon_path: String::new(),
        source,
        lower_name: name.to_lowercase(),
        keywords: vec![],
        categories: vec![],
        launch_count: count,
        last_launched: last,
        desktop_path: None,
    }
}

#[test]
fn parse_count_examples() {
    assert_eq!(parse_count("last 5", 10), 5);
    assert_eq!(parse_count("last ten", 10), 10);
    assert_eq!(parse_count("last", 7), 7);
    assert_eq!(parse_count("recent twenty apps", 10), 20);
    assert_eq!(parse_count("last +3", 10), 3);
    assert_eq!(parse_count("last hundred", 1), 100);
}

#[test]
fn source_filters() {
    let apps = vec![
        app("a", AppSource::File, 0, None),
        app("b", AppSource::Desktop, 0, None),
        app("c", AppSource::Steam, 0, None),
        app("d", AppSource::Flatpak, 0, None),
        app("e", AppSource::Binary, 0, None),
        app("f", AppSource::AppImage, 0, None),
    ];
    assert_eq!(interpret_at("files", &apps, 0), Some(vec![0]));
    assert_eq!(interpret_at(" APPS ", &apps, 0), Some(vec![1, 3, 5]));
    assert_eq!(interpret_at("games", &apps, 0), Some(vec![2]));
    assert_eq!(interpret_at("flatpaks", &apps, 0), Some(vec![3]));
    assert_eq!(interpret_at("appimage", &apps, 0), Some(vec![5]));
    assert_eq!(interpret_at("commands", &apps, 0), Some(vec![4]));
    assert_eq!(interpret_at("firefox", &apps, 0), None);
}

#[test]
fn time_and_usage_filters() {
    let now = 10 * DAY;
    let apps = vec![
        app("a", AppSource::Desktop, 1, Some(now - 10)),
        app("b", AppSource::Desktop, 2, Some(now - DAY - 5)),
        app("c", AppSource::Desktop, 3, Some(now - 3 * DAY)),
        app("d", AppSource::Desktop, 0, None),
    ];
    assert_eq!(interpret_at("today", &apps, now), Some(vec![0]));
    assert_eq!(interpret_at("yesterday", &apps, now), Some(vec![1]));
    assert_eq!(interpret_at("this week", &apps, now), Some(vec![0, 1, 2]));
    assert_eq!(interpret_at("unused", &apps, now), Some(vec![3]));
}

#[test]
fn launches_after_the_clock_read_as_long_ago() {
    let now = 10 * DAY;
    let apps = vec![
        app("a", AppSource::Desktop, 1, Some(now + 60)),
        app("b", AppSource::Desktop, 1, Some(now - 10)),
    ];
    assert_eq!(interpret_at("today", &apps, now), Some(vec![1]));
    assert_eq!(interpret_at("week", &apps, now), Some(vec![1]));
    assert_eq!(interpret_at("yesterday", &apps, now), Some(vec![]));
    // The clock-reading form answers every smart query with a list.
    assert!(interpret("today", &apps).is_some());
    assert!(interpret("yesterday", &apps).is_some());
    assert!(interpret("hello", &apps).is_none());
    // Wrapping as `now - t` does: a stamp just below 2^64 past 0 is 1 s old.
    let wrap = vec![app("w", AppSource::Desktop, 1, Some(u64::MAX))];
    assert_eq!(interpret_at("today", &wrap, 0), Some(vec![0]));
}

#[test]
fn recent_queries_sort_newest_first_and_take_count() {
    let apps = vec![
        app("a", AppSource::Desktop, 1, Some(100)),
        app("b", AppSource::Desktop, 1, Some(300)),
        app("c", AppSource::Desktop, 1, None),
        app("d", AppSource::Desktop, 1, Some(200)),
    ];
    assert_eq!(interpret_at("last 2", &apps, 1000), Some(vec![1, 3]));
    assert_eq!(interpret_at("recent", &apps, 1000), Some(vec![1, 3, 0]));
    assert_eq!(top_recent(&apps, 1), vec![1]);
    assert!(interpret("files", &apps).is_some());
}

#[test]
fn score_examples() {
    let now = 100 * DAY;
    let a = app("Firefox", AppSource::Desktop, 3, Some(now - 10));
    assert_eq!(score_app(&a, "firefox", now), 100_000 + 30 + 500);
    assert_eq!(score_app(&a, "fire", now), 75_000 + 30 + 500);
    let b = app("Firefox", AppSource::Desktop, 500, Some(now - 2 * DAY));
    assert_eq!(score_app(&b, "fox", now), 50_000 + 1000 + 300);
    let c = app("Firefox", AppSource::Desktop, 0, Some(now - 8 * DAY));
    assert_eq!(score_app(&c, "xyz", now), 25_000);
}
