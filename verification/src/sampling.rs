//! Rolling sample histories for the monitor graphs, and the pacing of the
//! slow disk reading.

use vstd::prelude::*;

verus! {

/// Points kept by the frame-time graph.
pub const FPS_HISTORY: usize = 60;

/// Points kept by the network, system and hardware graphs.
pub const MONITOR_HISTORY: usize = 30;

/// Ticks between two disk readings (`df` is a process to start).
pub const DISK_REFRESH_TICKS: u32 = 30;

/// A history after one more sample: appended, then the oldest dropped
/// once the history holds more than `cap`.
pub open spec fn capped_push<F>(v: Seq<F>, value: F, cap: nat) -> Seq<F> {
    if v.len() + 1 > cap {
        v.push(value).drop_first()
    } else {
        v.push(value)
    }
}

/// Append a sample, dropping the oldest once there are more than `cap`.
pub fn push_capped<F>(v: &mut Vec<F>, value: F, cap: usize)
    ensures
        final(v)@ == capped_push(old(v)@, value, cap as nat),
{
    v.push(value);
    if v.len() > cap {
        v.remove(0);
        assert(final(v)@ =~= capped_push(old(v)@, value, cap as nat));
    }
}

/// A history that is full stays full: each new sample pushes the oldest
/// out, and the newest is always the last point.
pub proof fn law_full_history_keeps_its_length<F>(v: Seq<F>, value: F, cap: nat)
    requires
        v.len() == cap,
        cap > 0,
    ensures
        capped_push(v, value, cap).len() == cap,
        capped_push(v, value, cap).last() == value,
        capped_push(v, value, cap) == v.drop_first().push(value),
{
    assert(v.push(value).drop_first() =~= v.drop_first().push(value));
}

/// A history never grows past its cap once within it.
pub proof fn law_history_stays_within_cap<F>(v: Seq<F>, value: F, cap: nat)
    requires
        v.len() <= cap,
    ensures
        capped_push(v, value, cap).len() <= cap,
        capped_push(v, value, cap).len() >= v.len(),
{
}

/// One tick of the disk countdown: at zero the disk is read and the count
/// starts again from `DISK_REFRESH_TICKS`; otherwise it counts down and
/// the last reading is shown again.
pub open spec fn disk_tick_spec(countdown: u32) -> (bool, u32) {
    if countdown == 0 {
        (true, DISK_REFRESH_TICKS)
    } else {
        (false, (countdown - 1) as u32)
    }
}

pub fn disk_tick(countdown: u32) -> (r: (bool, u32))
    ensures
        r == disk_tick_spec(countdown),
{
    if countdown == 0 {
        (true, DISK_REFRESH_TICKS)
    } else {
        (false, countdown - 1)
    }
}

pub open spec fn ticks_from(countdown: u32, n: nat) -> u32
    decreases n,
{
    if n == 0 {
        countdown
    } else {
        disk_tick_spec(ticks_from(countdown, (n - 1) as nat)).1
    }
}

/// After a disk reading, the next one comes on exactly the
/// `DISK_REFRESH_TICKS + 1`-th tick: none of the ticks between reads it.
pub proof fn law_disk_read_every_refresh_period(k: nat)
    requires
        k <= DISK_REFRESH_TICKS,
    ensures
        ticks_from(DISK_REFRESH_TICKS, k) == DISK_REFRESH_TICKS - k,
        k < DISK_REFRESH_TICKS ==> !disk_tick_spec(ticks_from(DISK_REFRESH_TICKS, k)).0,
        k == DISK_REFRESH_TICKS ==> disk_tick_spec(ticks_from(DISK_REFRESH_TICKS, k)).0,
    decreases k,
{
    if k > 0 {
        law_disk_read_every_refresh_period((k - 1) as nat);
    }
}

} // verus!
