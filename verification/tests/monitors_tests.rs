use soulless::monitors::{MonitorsState, OutputChange, OutputInfo, OutputMode};

fn info(name: Option<&str>, size: (i32, i32), current_hz: i32) -> OutputInfo {
    OutputInfo {
        id: 7,
        name: name.map(|s| s.to_string()),
        make: "Dell".to_string(),
        model: "U2720Q".to_string(),
        modes: vec![
            OutputMode { refresh_rate: 30000, current: false },
            OutputMode { refresh_rate: current_hz, current: true },
            OutputMode { refresh_rate: 144000, current: true },
        ],
        logical_size: Some(size),
    }
}

#[test]
fn created_outputs_join_the_census() {
    let mut c: MonitorsState<f32> = MonitorsState::new();
    c.apply(OutputChange::Created(Some(info(Some("DP-1"), (2560, 1440), 164834))), "a".to_string());
    c.apply(OutputChange::Created(Some(info(None, (1920, 1080), 60000))), "b".to_string());
    c.apply(OutputChange::Created(None), "c".to_string());
    assert_eq!(c.monitors.len(), 3);
    assert_eq!(c.monitors[0].name, "DP-1");
    assert_eq!(c.monitors[0].refresh_mhz, 164834);
    assert_eq!(c.monitors[0].global_id, 7);
    assert_eq!(c.monitors[1].name, "Dell U2720Q");
    assert_eq!(c.monitors[2].name, "unknown");
    assert_eq!(c.monitors[2].refresh_mhz, 0);
    assert_eq!(c.monitors[2].global_id, 0);
    assert_eq!(c.monitors[2].logical_size, None);
}

#[test]
fn no_current_mode_reads_zero_hz() {
    let mut c: MonitorsState<f32> = MonitorsState::new();
    let mut i = info(Some("HDMI-A-1"), (800, 600), 1);
    i.modes = vec![OutputMode { refresh_rate: 60000, current: false }];
    c.apply(OutputChange::InfoUpdate(i), "k".to_string());
    assert_eq!(c.monitors.len(), 1);
    assert_eq!(c.monitors[0].refresh_mhz, 0);
}

#[test]
fn update_keeps_the_measured_reading() {
    let mut c: MonitorsState<f32> = MonitorsState::new();
    c.apply(OutputChange::Created(Some(info(Some("DP-1"), (2560, 1440), 60000))), "a".to_string());
    c.surface_on(2560, 1440);
    assert_eq!(c.active_key, Some("a".to_string()));
    c.record_fps(143.5);
    assert_eq!(c.monitors[0].live_fps, Some(143.5));
    c.apply(OutputChange::InfoUpdate(info(Some("DP-2"), (2560, 1440), 120000)), "a".to_string());
    assert_eq!(c.monitors.len(), 1);
    assert_eq!(c.monitors[0].name, "DP-2");
    assert_eq!(c.monitors[0].refresh_mhz, 120000);
    assert_eq!(c.monitors[0].live_fps, Some(143.5));
}

#[test]
fn removal_and_unmatched_sizes() {
    let mut c: MonitorsState<f32> = MonitorsState::new();
    c.apply(OutputChange::Created(Some(info(Some("DP-1"), (2560, 1440), 60000))), "a".to_string());
    c.apply(OutputChange::Created(Some(info(Some("DP-2"), (1920, 1080), 60000))), "b".to_string());
    c.surface_on(1920, 1080);
    assert_eq!(c.active_key, Some("b".to_string()));
    // No output of this size: the last active one stays.
    c.surface_on(640, 480);
    assert_eq!(c.active_key, Some("b".to_string()));
    c.apply(OutputChange::Removed, "b".to_string());
    assert_eq!(c.monitors.len(), 1);
    assert_eq!(c.monitors[0].key, "a");
    // The active key outlives its row; a reading then lands nowhere.
    assert_eq!(c.active_key, Some("b".to_string()));
    c.record_fps(60.0);
    assert_eq!(c.monitors[0].live_fps, None);
    c.apply(OutputChange::Removed, "zzz".to_string());
    assert_eq!(c.monitors.len(), 1);
}
