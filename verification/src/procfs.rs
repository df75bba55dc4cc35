//! The integer readings the monitors take from `/proc`: network byte
//! counters, CPU time counters and memory totals.

use vstd::prelude::*;

use crate::sources::kb_spec;
use crate::text::{
    chars_eq_str, chars_of, find_chars, find_spec, has_char, has_prefix, lines, parse_unsigned,
    parse_unsigned_chars, split_lines, split_whitespace, starts_with_str, sub_vec, trim,
    trim_chars, views, words,
};

verus! {

/// A counter field: its `u64` value, 0 when it does not parse.
pub open spec fn count_or_zero(w: Seq<char>) -> nat {
    match parse_unsigned(w, u64::MAX as nat) {
        Some(v) => v,
        None => 0,
    }
}

fn count_or_zero_exec(w: &[char]) -> (r: u64)
    ensures
        r as nat == count_or_zero(w@),
{
    match parse_unsigned_chars(w, u64::MAX) {
        Some(v) => v,
        None => 0,
    }
}

// ---------------------------------------------------------------------------
// /proc/net/dev
// ---------------------------------------------------------------------------

/// Loopback and virtual interfaces are not counted: VPN traffic would be
/// counted twice, containers add noise.
pub open spec fn skipped_iface(iface: Seq<char>) -> bool {
    ||| iface == "lo"@
    ||| has_prefix(iface, "tun"@) || has_prefix(iface, "tap"@) || has_prefix(iface, "wg"@)
    ||| has_prefix(iface, "docker"@) || has_prefix(iface, "veth"@) || has_prefix(iface, "br-"@)
    ||| has_prefix(iface, "virbr"@) || has_prefix(iface, "vnet"@)
}

/// The received and sent bytes one interface line contributes.
pub open spec fn iface_bytes(line: Seq<char>) -> (nat, nat) {
    let t = trim(line);
    if !has_char(t, ':') {
        (0, 0)
    } else {
        let colon = find_spec(t, seq![':']);
        let iface = trim(t.take(colon));
        let fields = words(t.skip(colon + 1));
        if skipped_iface(iface) || fields.len() < 9 {
            (0, 0)
        } else {
            (count_or_zero(fields[0]), count_or_zero(fields[8]))
        }
    }
}

/// Totals over interface lines.
pub open spec fn net_sums(ls: Seq<Seq<char>>) -> (nat, nat)
    decreases ls.len(),
{
    if ls.len() == 0 {
        (0, 0)
    } else {
        let (r, t) = net_sums(ls.drop_last());
        let (a, b) = iface_bytes(ls.last());
        (r + a, t + b)
    }
}

/// RX and TX byte totals of `/proc/net/dev` (its two header lines skipped).
pub open spec fn net_totals_spec(data: Seq<char>) -> (nat, nat) {
    if lines(data).len() > 2 {
        net_sums(lines(data).skip(2))
    } else {
        (0, 0)
    }
}

/// Name prefixes of virtual interfaces: VPN tunnels, containers, bridges
/// and virtual machines.
pub open spec fn virtual_iface_prefixes() -> Seq<Seq<char>> {
    seq!["tun"@, "tap"@, "wg"@, "docker"@, "veth"@, "br-"@, "virbr"@, "vnet"@]
}

/// The interface a `/proc/net/dev` line is about: the trimmed text before
/// its first colon, if it has one.
pub open spec fn line_iface(line: Seq<char>) -> Option<Seq<char>> {
    let t = trim(line);
    if has_char(t, ':') {
        Some(trim(t.take(find_spec(t, seq![':']))))
    } else {
        None
    }
}

/// The loopback interface and every virtual one add nothing to the
/// totals, wherever their line stands.
pub proof fn law_virtual_ifaces_not_counted(line: Seq<char>, ls: Seq<Seq<char>>, k: int)
    requires
        line_iface(line) matches Some(n) && (n == "lo"@ || (0 <= k < virtual_iface_prefixes().len()
            && has_prefix(n, virtual_iface_prefixes()[k]))),
    ensures
        iface_bytes(line) == (0nat, 0nat),
        net_sums(ls.push(line)) == net_sums(ls),
{
    let n = line_iface(line)->0;
    assert(skipped_iface(n));
    assert(ls.push(line).drop_last() =~= ls);
}

/// The totals of a listing are the totals of its parts added up.
pub proof fn law_net_sums_add(a: Seq<Seq<char>>, b: Seq<Seq<char>>)
    ensures
        net_sums(a + b).0 == net_sums(a).0 + net_sums(b).0,
        net_sums(a + b).1 == net_sums(a).1 + net_sums(b).1,
    decreases b.len(),
{
    if b.len() == 0 {
        assert(a + b =~= a);
    } else {
        law_net_sums_add(a, b.drop_last());
        assert((a + b).drop_last() =~= a + b.drop_last());
        assert((a + b).last() == b.last());
    }
}

fn skipped_iface_exec(iface: &[char]) -> (b: bool)
    ensures
        b == skipped_iface(iface@),
{
    chars_eq_str(iface, "lo") || starts_with_str(iface, "tun") || starts_with_str(iface, "tap")
        || starts_with_str(iface, "wg") || starts_with_str(iface, "docker") || starts_with_str(
        iface,
        "veth",
    ) || starts_with_str(iface, "br-") || starts_with_str(iface, "virbr") || starts_with_str(
        iface,
        "vnet",
    )
}

fn iface_bytes_exec(line: &[char]) -> (r: (u64, u64))
    ensures
        (r.0 as nat, r.1 as nat) == iface_bytes(line@),
{
    let t = trim_chars(line);
    let colon_pat = vec![':'];
    assert(colon_pat@ == seq![':']);
    let colon = match find_chars(t.as_slice(), colon_pat.as_slice()) {
        Some(c) => c,
        None => {
            proof {
                if has_char(t@, ':') {
                    let k = choose|k: int| 0 <= k < t@.len() && t@[k] == ':';
                    assert(t@.subrange(k, k + 1) =~= seq![':']);
                    assert(crate::text::occurs_at(t@, colon_pat@, k));
                }
            }
            return (0, 0);
        },
    };
    proof {
        crate::text::lemma_find_spec_bounds(t@, colon_pat@);
        assert(crate::text::occurs_at(t@, colon_pat@, colon as int));
        assert(t@.subrange(colon as int, colon + 1) == seq![':']);
        assert(t@[colon as int] == ':');
    }
    let n = t.len();
    let head = sub_vec(t.as_slice(), 0, colon);
    assert(head@ =~= t@.take(colon as int));
    let iface = trim_chars(head.as_slice());
    let rest = sub_vec(t.as_slice(), colon + 1, n);
    assert(rest@ =~= t@.skip(colon + 1));
    let fields = split_whitespace(rest.as_slice());
    assert(views(fields@) == words(rest@));
    if skipped_iface_exec(iface.as_slice()) || fields.len() < 9 {
        return (0, 0);
    }
    assert(fields@[0]@ == words(rest@)[0] && fields@[8]@ == words(rest@)[8]);
    (count_or_zero_exec(fields[0].as_slice()), count_or_zero_exec(fields[8].as_slice()))
}

/// Sums received and sent bytes over the physical-ish interfaces.
pub fn net_totals(data: &str) -> (r: (u64, u64))
    requires
        net_totals_spec(data@).0 <= u64::MAX,
        net_totals_spec(data@).1 <= u64::MAX,
    ensures
        (r.0 as nat, r.1 as nat) == net_totals_spec(data@),
{
    let cs = chars_of(data);
    let ls = split_lines(cs.as_slice());
    let ghost all = views(ls@);
    if ls.len() <= 2 {
        return (0, 0);
    }
    let ghost body = all.skip(2);
    let mut rx: u64 = 0;
    let mut tx: u64 = 0;
    let mut i: usize = 2;
    assert(body.take(0) =~= Seq::<Seq<char>>::empty());
    while i < ls.len()
        invariant
            2 <= i <= ls@.len(),
            all == views(ls@),
            all == lines(data@),
            body == all.skip(2),
            net_sums(body).0 <= u64::MAX,
            net_sums(body).1 <= u64::MAX,
            (rx as nat, tx as nat) == net_sums(body.take(i - 2)),
        decreases ls@.len() - i,
    {
        let ghost pre = body.take(i - 2);
        assert(body.take(i - 1).drop_last() =~= pre);
        assert(body.take(i - 1).last() == ls@[i as int]@);
        let (a, b) = iface_bytes_exec(ls[i].as_slice());
        proof {
            lemma_net_sums_prefix(body, i - 1);
        }
        rx = rx + a;
        tx = tx + b;
        i = i + 1;
    }
    assert(body.take(i - 2) =~= body);
    (rx, tx)
}

/// Prefix sums never exceed the whole.
proof fn lemma_net_sums_prefix(ls: Seq<Seq<char>>, k: int)
    requires
        0 <= k <= ls.len(),
    ensures
        net_sums(ls.take(k)).0 <= net_sums(ls).0,
        net_sums(ls.take(k)).1 <= net_sums(ls).1,
    decreases ls.len() - k,
{
    if k < ls.len() {
        lemma_net_sums_prefix(ls, k + 1);
        assert(ls.take(k + 1).drop_last() =~= ls.take(k));
    } else {
        assert(ls.take(k) =~= ls);
    }
}

// ---------------------------------------------------------------------------
// /proc/stat
// ---------------------------------------------------------------------------

pub open spec fn counts(ws: Seq<Seq<char>>) -> Seq<nat> {
    ws.map_values(|w: Seq<char>| count_or_zero(w))
}

pub open spec fn sum_counts(v: Seq<nat>) -> nat
    decreases v.len(),
{
    if v.len() == 0 {
        0
    } else {
        sum_counts(v.drop_last()) + v.last()
    }
}

/// The first line starting with `cpu `, if any.
pub open spec fn first_cpu_line(ls: Seq<Seq<char>>) -> Option<Seq<char>>
    decreases ls.len(),
{
    if ls.len() == 0 {
        None
    } else if has_prefix(ls[0], "cpu "@) {
        Some(ls[0])
    } else {
        first_cpu_line(ls.drop_first())
    }
}

/// `(idle, total)` jiffies of the aggregate `cpu` line of `/proc/stat`:
/// idle is the idle plus iowait fields, total the sum of all fields;
/// unparsable fields count 0; fewer than four fields after the label give
/// nothing.
pub open spec fn cpu_times_spec(data: Seq<char>) -> Option<(nat, nat)> {
    match first_cpu_line(lines(data)) {
        None => None,
        Some(l) => {
            let f = counts(words(l).skip(1));
            if words(l).len() < 5 {
                None
            } else {
                Some((f[3] + if f.len() > 4 { f[4] } else { 0 }, sum_counts(f)))
            }
        },
    }
}

proof fn lemma_two_within_sum(v: Seq<nat>, a: int, b: int)
    requires
        0 <= a < v.len(),
        0 <= b < v.len(),
        a != b,
    ensures
        v[a] + v[b] <= sum_counts(v),
    decreases v.len(),
{
    let n = v.len() - 1;
    assert(v.drop_last().len() == n);
    if a == n {
        lemma_one_within_sum(v.drop_last(), b);
    } else if b == n {
        lemma_one_within_sum(v.drop_last(), a);
    } else {
        lemma_two_within_sum(v.drop_last(), a, b);
    }
}

proof fn lemma_one_within_sum(v: Seq<nat>, a: int)
    requires
        0 <= a < v.len(),
    ensures
        v[a] <= sum_counts(v),
    decreases v.len(),
{
    if a < v.len() - 1 {
        lemma_one_within_sum(v.drop_last(), a);
    }
}

/// The idle time of the CPU reading (idle plus iowait) never exceeds its
/// total, the sum of all the line's fields.
pub proof fn law_cpu_idle_within_total(data: Seq<char>)
    ensures
        cpu_times_spec(data) matches Some((idle, total)) ==> idle <= total,
{
    match first_cpu_line(lines(data)) {
        None => {},
        Some(l) => {
            let f = counts(words(l).skip(1));
            if words(l).len() >= 5 {
                assert(f.len() >= 4);
                if f.len() > 4 {
                    lemma_two_within_sum(f, 3, 4);
                } else {
                    lemma_one_within_sum(f, 3);
                }
            }
        },
    }
}

proof fn lemma_sum_counts_prefix(v: Seq<nat>, k: int)
    requires
        0 <= k <= v.len(),
    ensures
        sum_counts(v.take(k)) <= sum_counts(v),
        forall|j: int| 0 <= j < v.len() ==> #[trigger] v[j] <= sum_counts(v),
    decreases v.len(),
{
    if v.len() > 0 {
        let w = v.drop_last();
        if k == v.len() {
            assert(v.take(k) =~= v);
            lemma_sum_counts_prefix(w, 0);
        } else {
            lemma_sum_counts_prefix(w, k);
            assert(w.take(k) =~= v.take(k));
        }
        assert forall|j: int| 0 <= j < v.len() implies #[trigger] v[j] <= sum_counts(v) by {
            if j < w.len() {
                assert(w[j] == v[j]);
            }
        }
    } else {
        assert(v.take(k) =~= v);
    }
}

/// Reads the aggregate CPU counters.
pub fn cpu_times(data: &str) -> (r: Option<(u64, u64)>)
    requires
        cpu_times_spec(data@) matches Some((idle, total)) ==> idle <= u64::MAX && total <= u64::MAX,
    ensures
        match r {
            Some((idle, total)) => cpu_times_spec(data@) == Some((idle as nat, total as nat)),
            None => cpu_times_spec(data@) is None,
        },
{
    let cs = chars_of(data);
    let ls = split_lines(cs.as_slice());
    let ghost all = views(ls@);
    let mut i: usize = 0;
    assert(all.skip(0) =~= all);
    while i < ls.len() && !starts_with_str(ls[i].as_slice(), "cpu ")
        invariant
            i <= ls@.len(),
            all == views(ls@),
            all == lines(data@),
            first_cpu_line(all) == first_cpu_line(all.skip(i as int)),
        decreases ls@.len() - i,
    {
        assert(all.skip(i as int)[0] == ls@[i as int]@);
        assert(all.skip(i as int).drop_first() =~= all.skip(i + 1));
        i = i + 1;
    }
    if i == ls.len() {
        assert(all.skip(i as int) =~= Seq::<Seq<char>>::empty());
        return None;
    }
    assert(all.skip(i as int)[0] == ls@[i as int]@);
    let ws = split_whitespace(ls[i].as_slice());
    let ghost fw = views(ws@).skip(1);
    let ghost f = counts(fw);
    if ws.len() < 5 {
        return None;
    }
    let mut vals: Vec<u64> = Vec::new();
    let mut k: usize = 1;
    let mut total: u64 = 0;
    proof {
        lemma_sum_counts_prefix(f, f.len() as int);
    }
    while k < ws.len()
        invariant
            1 <= k <= ws@.len(),
            fw == views(ws@).skip(1),
            f == counts(fw),
            f.len() == ws@.len() - 1,
            sum_counts(f) <= u64::MAX,
            vals@.len() == k - 1,
            forall|j: int| 0 <= j < k - 1 ==> #[trigger] vals@[j] as nat == f[j],
            total as nat == sum_counts(f.take(k - 1)),
        decreases ws@.len() - k,
    {
        assert(fw[k - 1] == ws@[k as int]@);
        let v = count_or_zero_exec(ws[k].as_slice());
        proof {
            lemma_sum_counts_prefix(f, k as int);
            assert(f.take(k as int).drop_last() =~= f.take(k - 1));
        }
        vals.push(v);
        total = total + v;
        k = k + 1;
    }
    assert(f.take(k - 1) =~= f);
    let extra: u64 = if vals.len() > 4 {
        vals[4]
    } else {
        0
    };
    proof {
        lemma_sum_counts_prefix(f, 0);
    }
    Some((vals[3] + extra, total))
}

// ---------------------------------------------------------------------------
// /proc/meminfo
// ---------------------------------------------------------------------------

/// Total and available memory in kB: the last `MemTotal:` and
/// `MemAvailable:` lines win; an unreadable one of them spoils the reading.
pub open spec fn mem_scan(ls: Seq<Seq<char>>) -> Option<(nat, nat)>
    decreases ls.len(),
{
    if ls.len() == 0 {
        Some((0, 0))
    } else {
        match mem_scan(ls.drop_last()) {
            None => None,
            Some((total, avail)) => {
                let l = ls.last();
                if has_prefix(l, "MemTotal:"@) {
                    match kb_spec(l) {
                        Some(v) => Some((v, avail)),
                        None => None,
                    }
                } else if has_prefix(l, "MemAvailable:"@) {
                    match kb_spec(l) {
                        Some(v) => Some((total, v)),
                        None => None,
                    }
                } else {
                    Some((total, avail))
                }
            },
        }
    }
}

/// `(total, available)` from `/proc/meminfo`, when the total is known and
/// not zero.
pub open spec fn mem_totals_spec(data: Seq<char>) -> Option<(nat, nat)> {
    match mem_scan(lines(data)) {
        Some((total, avail)) => if total == 0 {
            None
        } else {
            Some((total, avail))
        },
        None => None,
    }
}

pub fn mem_totals(data: &str) -> (r: Option<(u64, u64)>)
    ensures
        match r {
            Some((t, a)) => mem_totals_spec(data@) == Some((t as nat, a as nat)),
            None => mem_totals_spec(data@) is None,
        },
{
    let cs = chars_of(data);
    let ls = split_lines(cs.as_slice());
    let ghost all = views(ls@);
    let mut total: u64 = 0;
    let mut avail: u64 = 0;
    let mut i: usize = 0;
    assert(all.take(0) =~= Seq::<Seq<char>>::empty());
    while i < ls.len()
        invariant
            i <= ls@.len(),
            all == views(ls@),
            all == lines(data@),
            mem_scan(all.take(i as int)) == Some((total as nat, avail as nat)),
        decreases ls@.len() - i,
    {
        assert(all.take(i + 1).drop_last() =~= all.take(i as int));
        assert(all.take(i + 1).last() == ls@[i as int]@);
        let l = string_of_line(ls[i].as_slice());
        if starts_with_str(ls[i].as_slice(), "MemTotal:") {
            match crate::sources::parse_kb(l.as_str()) {
                Some(v) => {
                    total = v;
                },
                None => {
                    proof {
                        lemma_mem_scan_spoiled(all, i as int);
                    }
                    return None;
                },
            }
        } else if starts_with_str(ls[i].as_slice(), "MemAvailable:") {
            match crate::sources::parse_kb(l.as_str()) {
                Some(v) => {
                    avail = v;
                },
                None => {
                    proof {
                        lemma_mem_scan_spoiled(all, i as int);
                    }
                    return None;
                },
            }
        }
        i = i + 1;
    }
    assert(all.take(i as int) =~= all);
    if total == 0 {
        return None;
    }
    Some((total, avail))
}

fn string_of_line(l: &[char]) -> (s: String)
    ensures
        s@ == l@,
{
    crate::text::string_of(l)
}

/// Once the scan is spoiled it stays spoiled.
proof fn lemma_mem_scan_spoiled(ls: Seq<Seq<char>>, i: int)
    requires
        0 <= i < ls.len(),
        mem_scan(ls.take(i + 1)) is None,
    ensures
        mem_scan(ls) is None,
    decreases ls.len() - i,
{
    if i + 1 < ls.len() {
        assert(ls.take(i + 2).drop_last() =~= ls.take(i + 1));
        lemma_mem_scan_spoiled(ls, i + 1);
    } else {
        assert(ls.take(i + 1) =~= ls);
    }
}

} // verus!
