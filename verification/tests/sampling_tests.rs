use soulless::sampling::{disk_tick, push_capped, DISK_REFRESH_TICKS, FPS_HISTORY, MONITOR_HISTORY};

#[test]
fn histories_keep_a_fixed_window() {
    let mut v: Vec<f32> = vec![0.0; MONITOR_HISTORY];
    push_capped(&mut v, 5.5, MONITOR_HISTORY);
    assert_eq!(v.len(), MONITOR_HISTORY);
    assert_eq!(v[MONITOR_HISTORY - 1], 5.5);
    let mut w: Vec<u32> = vec![1, 2];
    push_capped(&mut w, 3, 3);
    assert_eq!(w, vec![1, 2, 3]);
    push_capped(&mut w, 4, 3);
    assert_eq!(w, vec![2, 3, 4]);
    let mut f: Vec<f32> = vec![0.0; FPS_HISTORY];
    for i in 0..100 {
        push_capped(&mut f, i as f32, FPS_HISTORY);
    }
    assert_eq!(f.len(), 60);
    assert_eq!(f[0], 40.0);
}

#[test]
fn disk_is_read_once_per_period() {
    assert_eq!(disk_tick(0), (true, DISK_REFRESH_TICKS));
    assert_eq!(disk_tick(7), (false, 6));
    let mut c = 0;
    let mut reads = 0;
    for _ in 0..62 {
        let (read, next) = disk_tick(c);
        if read {
            reads += 1;
        }
        c = next;
    }
    assert_eq!(reads, 2);
}
