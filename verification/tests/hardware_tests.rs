use soulless::hardware::{
    average_mhz, best_gpu, gpu_driver_rank, gpu_snapshot_from_sysfs, parse_sysfs_u64,
    ram_freq_cache_text, ram_freq_from_cache, GpuSnapshot,
};

fn names(v: &[&str]) -> Vec<String> {
    v.iter().map(|s| s.to_string()).collect()
}

#[test]
fn driver_ranks_follow_priority() {
    assert_eq!(gpu_driver_rank("amdgpu\n"), Some(0));
    assert_eq!(gpu_driver_rank("nouveau"), Some(1));
    assert_eq!(gpu_driver_rank("  radeon "), Some(2));
    assert_eq!(gpu_driver_rank("i915\n"), Some(3));
    assert_eq!(gpu_driver_rank("xe"), Some(4));
    assert_eq!(gpu_driver_rank("k10temp\n"), None);
    assert_eq!(gpu_driver_rank(""), None);
}

#[test]
fn discrete_card_wins_whatever_the_order() {
    assert_eq!(best_gpu(&names(&["i915\n", "k10temp\n", "amdgpu\n"])), Some(2));
    assert_eq!(best_gpu(&names(&["amdgpu\n", "i915\n", "amdgpu\n"])), Some(0));
    assert_eq!(best_gpu(&names(&["xe\n", "nvme\n", "i915\n"])), Some(2));
    assert_eq!(best_gpu(&names(&["nvme\n", "acpitz\n"])), None);
    assert_eq!(best_gpu(&[]), None);
}

#[test]
fn sysfs_units_are_converted() {
    let s = gpu_snapshot_from_sysfs(Some(54_000), Some(1_850_000_000), Some(96_000_000), Some(2_147_483_648), Some(8_589_934_592));
    assert_eq!(
        s,
        Some(GpuSnapshot {
            temp: Some(54),
            core_clock_mhz: Some(1850),
            mem_clock_mhz: Some(96),
            vram_used_mb: Some(2048),
            vram_total_mb: Some(8192),
        })
    );
    let only_temp = gpu_snapshot_from_sysfs(Some(41_999), None, None, None, None).unwrap();
    assert_eq!(only_temp.temp, Some(41));
    assert_eq!(only_temp.vram_total_mb, None);
    assert_eq!(gpu_snapshot_from_sysfs(None, None, None, None, None), None);
    // A value past 32 bits after division keeps its low bits, as a cast does.
    let huge = gpu_snapshot_from_sysfs(Some(u64::MAX), None, None, None, None).unwrap();
    assert_eq!(huge.temp, Some(((u64::MAX / 1000) as u32)));
}

#[test]
fn sysfs_numbers_are_trimmed_then_parsed() {
    assert_eq!(parse_sysfs_u64("1850000000\n"), Some(1_850_000_000));
    assert_eq!(parse_sysfs_u64(" 7 "), Some(7));
    assert_eq!(parse_sysfs_u64("-1\n"), None);
    assert_eq!(parse_sysfs_u64("\n"), None);
    assert_eq!(parse_sysfs_u64("18446744073709551616"), None);
}

#[test]
fn average_clock_rounds_down() {
    assert_eq!(average_mhz(&[3000, 3001, 4200]), 3400);
    assert_eq!(average_mhz(&[]), 0);
}

#[test]
fn ram_clock_cache_reads_back_what_it_wrote() {
    assert_eq!(ram_freq_cache_text(Some(3200)), "3200");
    assert_eq!(ram_freq_cache_text(None), "none");
    assert_eq!(ram_freq_from_cache("3200\n"), Some(Some(3200)));
    assert_eq!(ram_freq_from_cache(" none\n"), Some(None));
    assert_eq!(ram_freq_from_cache("garbage"), None);
    assert_eq!(ram_freq_from_cache("4294967296"), None);
    for m in [Some(0u32), Some(6400), Some(u32::MAX), None] {
        assert_eq!(ram_freq_from_cache(&ram_freq_cache_text(m)), Some(m));
    }
}
