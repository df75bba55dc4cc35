//! The integer side of the hardware monitor: which GPU's sensors to read,
//! the units its sysfs files are converted to, the average CPU clock, and
//! the one-line cache that keeps the RAM clock from asking for root twice.

use vstd::prelude::*;

use crate::text::{
    all_digits, chars_eq_str, digit_char, digit_value, digits_value, is_ascii_digit, is_ws,
    nat_decimal, parse_unsigned, parse_unsigned_chars, string_of, trim, trim_end, trim_start,
    trim_str, u64_to_string, unsigned_digits,
};

verus! {

// ---------------------------------------------------------------------------
// GPU choice
// ---------------------------------------------------------------------------

/// Drivers recognised, most preferred first: a discrete card's driver wins
/// over an integrated one whatever order the cards are listed in.
pub open spec fn driver_priority() -> Seq<Seq<char>> {
    seq![
        seq!['a', 'm', 'd', 'g', 'p', 'u'],
        seq!['n', 'o', 'u', 'v', 'e', 'a', 'u'],
        seq!['r', 'a', 'd', 'e', 'o', 'n'],
        seq!['i', '9', '1', '5'],
        seq!['x', 'e'],
    ]
}

/// The rank of a hwmon `name` file's contents (trimmed) among the
/// recognised drivers.
pub open spec fn driver_rank(name_file: Seq<char>) -> Option<nat> {
    let n = trim(name_file);
    if driver_priority().contains(n) {
        Some(crate::seqs::first_index(driver_priority(), n) as nat)
    } else {
        None
    }
}

pub fn gpu_driver_rank(name_file: &str) -> (r: Option<usize>)
    ensures
        match r {
            Some(k) => driver_rank(name_file@) == Some(k as nat),
            None => driver_rank(name_file@) is None,
        },
{
    let n = trim_str(name_file);
    let ghost p = driver_priority();
    proof {
        reveal_strlit("amdgpu");
        reveal_strlit("nouveau");
        reveal_strlit("radeon");
        reveal_strlit("i915");
        reveal_strlit("xe");
    }
    let k: usize = if chars_eq_str(n.as_slice(), "amdgpu") {
        0
    } else if chars_eq_str(n.as_slice(), "nouveau") {
        1
    } else if chars_eq_str(n.as_slice(), "radeon") {
        2
    } else if chars_eq_str(n.as_slice(), "i915") {
        3
    } else if chars_eq_str(n.as_slice(), "xe") {
        4
    } else {
        5
    };
    assert("amdgpu"@ =~= p[0]);
    assert("nouveau"@ =~= p[1]);
    assert("radeon"@ =~= p[2]);
    assert("i915"@ =~= p[3]);
    assert("xe"@ =~= p[4]);
    if k < 5 {
        proof {
            assert(p[k as int] == n@);
            assert(crate::seqs::first_at(p, n@, k as int)) by {
                assert forall|j: int| 0 <= j < k implies #[trigger] p[j] != n@ by {
                    assert(p[j] != p[k as int]) by {
                        if p[j] == p[k as int] {
                            assert(p[j].len() == p[k as int].len());
                            assert(p[j][0] == p[k as int][0]);
                        }
                    }
                }
            }
            crate::seqs::lemma_found_first(p, n@, k as int);
        }
        Some(k)
    } else {
        assert(!p.contains(n@)) by {
            if p.contains(n@) {
                let j = choose|j: int| 0 <= j < p.len() && p[j] == n@;
                assert(p[j] == n@);
            }
        }
        None
    }
}

/// Among hwmon nodes in the order they were listed (each given by its
/// `name` file), the one to read: a recognised driver of the lowest rank,
/// the first listed among equals; none when no driver is recognised.
pub fn best_gpu(names: &[String]) -> (r: Option<usize>)
    ensures
        match r {
            Some(i) => {
                &&& i < names@.len()
                &&& driver_rank(names@[i as int]@) is Some
                &&& forall|j: int|
                    0 <= j < names@.len() && (#[trigger] driver_rank(names@[j]@)) is Some
                        ==> driver_rank(names@[i as int]@)->0 <= driver_rank(names@[j]@)->0
                &&& forall|j: int|
                    0 <= j < i && (#[trigger] driver_rank(names@[j]@)) is Some
                        ==> driver_rank(names@[i as int]@)->0 < driver_rank(names@[j]@)->0
            },
            None => forall|j: int| 0 <= j < names@.len() ==> (#[trigger] driver_rank(names@[j]@)) is None,
        },
{
    let mut best: Option<(usize, usize)> = None;
    let mut i: usize = 0;
    while i < names.len()
        invariant
            i <= names@.len(),
            match best {
                Some((b, rank)) => {
                    &&& b < i
                    &&& driver_rank(names@[b as int]@) == Some(rank as nat)
                    &&& forall|j: int|
                        0 <= j < i && (#[trigger] driver_rank(names@[j]@)) is Some
                            ==> rank <= driver_rank(names@[j]@)->0
                    &&& forall|j: int|
                        0 <= j < b && (#[trigger] driver_rank(names@[j]@)) is Some
                            ==> rank < driver_rank(names@[j]@)->0
                },
                None => forall|j: int| 0 <= j < i ==> (#[trigger] driver_rank(names@[j]@)) is None,
            },
        decreases names@.len() - i,
    {
        if let Some(rank) = gpu_driver_rank(names[i].as_str()) {
            let better = match best {
                None => true,
                Some((_, r)) => rank < r,
            };
            if better {
                best = Some((i, rank));
            }
        }
        i = i + 1;
    }
    match best {
        Some((b, _)) => Some(b),
        None => None,
    }
}

// ---------------------------------------------------------------------------
// GPU readings
// ---------------------------------------------------------------------------

/// What the monitor shows of a GPU; a field the driver does not expose is
/// none.
#[derive(Debug, Clone, Copy, PartialEq, Eq)]
pub struct GpuSnapshot {
    /// Degrees Celsius.
    pub temp: Option<u32>,
    /// Core clock in MHz.
    pub core_clock_mhz: Option<u32>,
    /// Memory clock in MHz.
    pub mem_clock_mhz: Option<u32>,
    /// VRAM in use, MiB.
    pub vram_used_mb: Option<u64>,
    /// VRAM in all, MiB.
    pub vram_total_mb: Option<u64>,
}

/// `x / d` narrowed to 32 bits, as an `as u32` cast keeps the low bits.
pub open spec fn div_to_u32(x: u64, d: nat) -> u32 {
    ((x as nat / d) % 0x1_0000_0000) as u32
}

pub open spec fn map_div_u32(o: Option<u64>, d: nat) -> Option<u32> {
    match o {
        Some(x) => Some(div_to_u32(x, d)),
        None => None,
    }
}

pub open spec fn map_div_u64(o: Option<u64>, d: nat) -> Option<u64> {
    match o {
        Some(x) => Some((x as nat / d) as u64),
        None => None,
    }
}

fn div_u32(o: Option<u64>, d: u64) -> (r: Option<u32>)
    requires
        d > 0,
    ensures
        r == map_div_u32(o, d as nat),
{
    match o {
        Some(x) => Some(((x / d) % 0x1_0000_0000) as u32),
        None => None,
    }
}

fn div_u64(o: Option<u64>, d: u64) -> (r: Option<u64>)
    requires
        d > 0,
    ensures
        r == map_div_u64(o, d as nat),
{
    match o {
        Some(x) => Some(x / d),
        None => None,
    }
}

/// The snapshot from the sysfs readings of a card (temperature in
/// millidegrees, clocks in Hz, VRAM in bytes), or none when not one of
/// them could be read.
pub fn gpu_snapshot_from_sysfs(
    temp_millideg: Option<u64>,
    core_clock_hz: Option<u64>,
    mem_clock_hz: Option<u64>,
    vram_used_bytes: Option<u64>,
    vram_total_bytes: Option<u64>,
) -> (r: Option<GpuSnapshot>)
    ensures
        (temp_millideg is None && core_clock_hz is None && mem_clock_hz is None
            && vram_used_bytes is None && vram_total_bytes is None) ==> r is None,
        !(temp_millideg is None && core_clock_hz is None && mem_clock_hz is None
            && vram_used_bytes is None && vram_total_bytes is None) ==> r == Some(
            GpuSnapshot {
                temp: map_div_u32(temp_millideg, 1000),
                core_clock_mhz: map_div_u32(core_clock_hz, 1_000_000),
                mem_clock_mhz: map_div_u32(mem_clock_hz, 1_000_000),
                vram_used_mb: map_div_u64(vram_used_bytes, 1_048_576),
                vram_total_mb: map_div_u64(vram_total_bytes, 1_048_576),
            },
        ),
{
    let temp = div_u32(temp_millideg, 1000);
    let core = div_u32(core_clock_hz, 1_000_000);
    let mem = div_u32(mem_clock_hz, 1_000_000);
    let used = div_u64(vram_used_bytes, 1_048_576);
    let total = div_u64(vram_total_bytes, 1_048_576);
    if temp.is_none() && core.is_none() && mem.is_none() && used.is_none() && total.is_none() {
        return None;
    }
    Some(
        GpuSnapshot {
            temp,
            core_clock_mhz: core,
            mem_clock_mhz: mem,
            vram_used_mb: used,
            vram_total_mb: total,
        },
    )
}

/// A sysfs counter file: its trimmed text as a `u64`.
pub fn parse_sysfs_u64(text: &str) -> (r: Option<u64>)
    ensures
        match r {
            Some(v) => parse_unsigned(trim(text@), u64::MAX as nat) == Some(v as nat),
            None => parse_unsigned(trim(text@), u64::MAX as nat) is None,
        },
{
    let t = trim_str(text);
    parse_unsigned_chars(t.as_slice(), u64::MAX)
}

// ---------------------------------------------------------------------------
// CPU clock
// ---------------------------------------------------------------------------

pub open spec fn sum_of(v: Seq<u64>) -> nat
    decreases v.len(),
{
    if v.len() == 0 {
        0
    } else {
        sum_of(v.drop_last()) + v.last() as nat
    }
}

proof fn lemma_sum_of_prefix(v: Seq<u64>, k: int)
    requires
        0 <= k <= v.len(),
    ensures
        sum_of(v.take(k)) <= sum_of(v),
    decreases v.len() - k,
{
    if k < v.len() {
        lemma_sum_of_prefix(v, k + 1);
        assert(v.take(k + 1).drop_last() =~= v.take(k));
    } else {
        assert(v.take(k) =~= v);
    }
}

/// The mean clock of all cores in MHz, rounded down; 0 with no cores.
pub fn average_mhz(freqs: &[u64]) -> (r: u64)
    requires
        sum_of(freqs@) <= u64::MAX,
    ensures
        freqs@.len() == 0 ==> r == 0,
        freqs@.len() > 0 ==> r as nat == sum_of(freqs@) / (freqs@.len() as nat),
{
    let n = freqs.len();
    if n == 0 {
        return 0;
    }
    let mut total: u64 = 0;
    let mut i: usize = 0;
    while i < n
        invariant
            n == freqs@.len(),
            i <= n,
            sum_of(freqs@) <= u64::MAX,
            total as nat == sum_of(freqs@.take(i as int)),
        decreases n - i,
    {
        proof {
            assert(freqs@.take(i + 1).drop_last() =~= freqs@.take(i as int));
            lemma_sum_of_prefix(freqs@, i + 1);
        }
        total = total + freqs[i];
        i = i + 1;
    }
    assert(freqs@.take(n as int) =~= freqs@);
    total / (n as u64)
}

// ---------------------------------------------------------------------------
// RAM clock cache
// ---------------------------------------------------------------------------

pub open spec fn none_word() -> Seq<char> {
    seq!['n', 'o', 'n', 'e']
}

/// What the cache file says: `Some(None)` for a recorded failure ("none"),
/// `Some(Some(mhz))` for a recorded clock, `None` when it says neither and
/// the clock has to be read afresh.
pub open spec fn ram_cache_spec(contents: Seq<char>) -> Option<Option<u32>> {
    let t = trim(contents);
    if t == none_word() {
        Some(None)
    } else {
        match parse_unsigned(t, u32::MAX as nat) {
            Some(v) => Some(Some(v as u32)),
            None => None,
        }
    }
}

pub fn ram_freq_from_cache(contents: &str) -> (r: Option<Option<u32>>)
    ensures
        r == ram_cache_spec(contents@),
{
    let t = trim_str(contents);
    proof {
        reveal_strlit("none");
    }
    assert("none"@ =~= none_word());
    if chars_eq_str(t.as_slice(), "none") {
        return Some(None);
    }
    match parse_unsigned_chars(t.as_slice(), 0xffff_ffff) {
        Some(v) => Some(Some(v as u32)),
        None => None,
    }
}

/// What the cache file is written with: the clock, or "none" so that the
/// failed read is not tried again.
pub open spec fn ram_cache_text_spec(mhz: Option<u32>) -> Seq<char> {
    match mhz {
        Some(m) => nat_decimal(m as nat),
        None => none_word(),
    }
}

pub fn ram_freq_cache_text(mhz: Option<u32>) -> (s: String)
    ensures
        s@ == ram_cache_text_spec(mhz),
{
    match mhz {
        Some(m) => u64_to_string(m as u64),
        None => {
            let s = string_of(&['n', 'o', 'n', 'e']);
            assert(s@ =~= none_word());
            s
        },
    }
}

/// Whatever the RAM clock cache is written with reads back as the same
/// outcome: a recorded clock as that clock, a recorded failure as a
/// failure, so the slow read never runs twice.
pub proof fn law_ram_cache_round_trip(mhz: Option<u32>)
    ensures
        ram_cache_spec(ram_cache_text_spec(mhz)) == Some(mhz),
{
    match mhz {
        Some(m) => {
            let s = nat_decimal(m as nat);
            crate::text::lemma_nat_decimal(m as nat);
            assert(!is_ws(s[0]));
            assert(trim_start(s) == s);
            assert(!is_ws(s.last())) by {
                assert(is_ascii_digit(s[s.len() - 1]));
            }
            assert(trim_end(s) == s);
            assert(s != none_word()) by {
                assert(is_ascii_digit(s[0]));
            }
            assert(unsigned_digits(s) == s) by {
                assert(is_ascii_digit(s[0]));
            }
        },
        None => {
            let s = none_word();
            assert(trim_start(s) == s);
            assert(trim_end(s) == s);
        },
    }
}

} // verus!
