//! Putting the assembled catalog in order: one entry per lowercased name
//! (the first one, from the highest-priority source), sorted by name with
//! ties kept in source order.

use vstd::prelude::*;

use crate::catalog::AppEntry;
use crate::text::{
    chars_less, chars_lt, chars_of, lemma_chars_lt_asymmetric, lemma_chars_lt_irreflexive,
    lemma_chars_lt_total, lemma_chars_lt_transitive,
};

verus! {

/// The lowercased names, in order.
pub open spec fn lowers(v: Seq<AppEntry>) -> Seq<Seq<char>> {
    v.map_values(|a: AppEntry| a.lower_name@)
}

/// The first `n` entries, each kept unless an entry with its lower_text
/// name was kept before it.
pub open spec fn dedup_prefix(s: Seq<AppEntry>, n: nat) -> Seq<AppEntry>
    decreases n,
{
    if n == 0 {
        Seq::empty()
    } else {
        let d = dedup_prefix(s, (n - 1) as nat);
        if lowers(d).contains(s[n - 1].lower_name@) {
            d
        } else {
            d.push(s[n - 1])
        }
    }
}

/// The catalog with later duplicates (by lowercased name) removed.
pub open spec fn deduped(s: Seq<AppEntry>) -> Seq<AppEntry> {
    dedup_prefix(s, s.len())
}

/// Entry `i` sorts before entry `j`: by name, ties by position.
pub open spec fn key_lt(e: Seq<AppEntry>, i: int, j: int) -> bool {
    chars_lt(e[i].name@, e[j].name@) || (e[i].name@ == e[j].name@ && i < j)
}

/// `r` is `e` sorted by name, stably: `p` says where each item came from.
pub open spec fn stable_name_sort(e: Seq<AppEntry>, r: Seq<AppEntry>, p: Seq<int>) -> bool {
    &&& p.len() == e.len()
    &&& r.len() == e.len()
    &&& forall|k: int| 0 <= k < p.len() ==> 0 <= #[trigger] p[k] < e.len() && r[k] == e[p[k]]
    &&& p.no_duplicates()
    &&& forall|a: int, b: int| 0 <= a < b < p.len() ==> key_lt(e, #[trigger] p[a], #[trigger] p[b])
}

proof fn lemma_key_lt_transitive(e: Seq<AppEntry>, i: int, j: int, k: int)
    requires
        key_lt(e, i, j),
        key_lt(e, j, k),
    ensures
        key_lt(e, i, k),
{
    let (a, b, c) = (e[i].name@, e[j].name@, e[k].name@);
    if chars_lt(a, b) && chars_lt(b, c) {
        lemma_chars_lt_transitive(a, b, c);
    }
}

/// The entries in their original order, moved out of the vector.
fn reversed(v: Vec<AppEntry>) -> (r: Vec<AppEntry>)
    ensures
        r@ == v@.reverse(),
{
    let ghost orig = v@;
    let mut v = v;
    let mut r: Vec<AppEntry> = Vec::new();
    while v.len() > 0
        invariant
            v@ == orig.take(v@.len() as int),
            r@ == orig.skip(v@.len() as int).reverse(),
            v@.len() <= orig.len(),
        decreases v@.len(),
    {
        let ghost n = v@.len();
        let x = v.pop().unwrap();
        r.push(x);
        assert(v@ =~= orig.take(n - 1));
        assert(r@ =~= orig.skip(n - 1).reverse());
    }
    assert(orig.skip(0) =~= orig);
    r
}

fn seen_before(seen: &Vec<Vec<char>>, x: &[char]) -> (b: bool)
    ensures
        b == views_of(seen@).contains(x@),
{
    let mut q: usize = 0;
    while q < seen.len()
        invariant
            q <= seen@.len(),
            forall|t: int| 0 <= t < q ==> #[trigger] seen@[t]@ != x@,
        decreases seen@.len() - q,
    {
        if crate::text::chars_eq(seen[q].as_slice(), x) {
            assert(views_of(seen@)[q as int] == x@);
            return true;
        }
        q = q + 1;
    }
    assert(!views_of(seen@).contains(x@)) by {
        if views_of(seen@).contains(x@) {
            let t = choose|t: int| 0 <= t < seen@.len() && views_of(seen@)[t] == x@;
            assert(seen@[t]@ != x@);
        }
    }
    false
}

pub open spec fn views_of(v: Seq<Vec<char>>) -> Seq<Seq<char>> {
    v.map_values(|x: Vec<char>| x@)
}

fn dedup_by_lower(apps: Vec<AppEntry>) -> (r: Vec<AppEntry>)
    ensures
        r@ == deduped(apps@),
{
    let ghost s = apps@;
    let n = apps.len();
    let mut rest = reversed(apps);
    let mut kept: Vec<AppEntry> = Vec::new();
    let mut seen: Vec<Vec<char>> = Vec::new();
    let mut i: usize = 0;
    assert(s.reverse().take(n as int) =~= s.reverse());
    assert(kept@ =~= dedup_prefix(s, 0));
    assert(views_of(seen@) =~= lowers(kept@));
    while i < n
        invariant
            n == s.len(),
            i <= n,
            rest@ == s.reverse().take(n - i),
            kept@ == dedup_prefix(s, i as nat),
            views_of(seen@) == lowers(kept@),
        decreases n - i,
    {
        let ghost before_rest = rest@;
        let x = rest.pop().unwrap();
        assert(x == s[i as int]) by {
            assert(before_rest[before_rest.len() - 1] == s.reverse()[n - i - 1]);
        }
        assert(rest@ =~= s.reverse().take(n - i - 1));
        let xl = chars_of(x.lower_name.as_str());
        if !seen_before(&seen, xl.as_slice()) {
            let ghost old_kept = kept@;
            let ghost old_seen = views_of(seen@);
            seen.push(xl);
            kept.push(x);
            assert(views_of(seen@) =~= old_seen.push(s[i as int].lower_name@));
            assert(lowers(kept@) =~= lowers(old_kept).push(s[i as int].lower_name@));
        }
        i = i + 1;
    }
    kept
}

fn sort_by_name(e: Vec<AppEntry>) -> (r: Vec<AppEntry>)
    ensures
        exists|p: Seq<int>| stable_name_sort(e@, r@, p),
{
    let ghost es = e@;
    let m = e.len();
    let mut rest = reversed(e);
    let mut r: Vec<AppEntry> = Vec::new();
    let ghost mut p: Seq<int> = Seq::empty();
    let mut k: usize = 0;
    assert(es.reverse().take(m as int) =~= es.reverse());
    while k < m
        invariant
            m == es.len(),
            k <= m,
            rest@ == es.reverse().take(m - k),
            r@.len() == k,
            p.len() == k,
            forall|t: int| 0 <= t < k ==> 0 <= #[trigger] p[t] < k && r@[t] == es[p[t]],
            p.no_duplicates(),
            forall|a: int, b: int| 0 <= a < b < k ==> key_lt(es, #[trigger] p[a], #[trigger] p[b]),
        decreases m - k,
    {
        let ghost before_rest = rest@;
        let x = rest.pop().unwrap();
        assert(x == es[k as int]) by {
            assert(before_rest[before_rest.len() - 1] == es.reverse()[m - k - 1]);
        }
        assert(rest@ =~= es.reverse().take(m - k - 1));
        let xn = chars_of(x.name.as_str());
        let mut q: usize = r.len();
        assert(xn@ == es[k as int].name@);
        loop
            invariant
                q <= r@.len(),
                r@.len() == k,
                k < m,
                xn@ == es[k as int].name@,
                forall|t: int| q <= t < k ==> chars_lt(xn@, (#[trigger] r@[t]).name@),
            ensures
                q <= r@.len(),
                forall|t: int| q <= t < k ==> chars_lt(xn@, (#[trigger] r@[t]).name@),
                q == 0 || !chars_lt(xn@, r@[q - 1].name@),
            decreases q,
        {
            if q == 0 {
                break;
            }
            let yn = chars_of(r[q - 1].name.as_str());
            if !chars_less(xn.as_slice(), yn.as_slice()) {
                break;
            }
            q = q - 1;
        }
        let ghost old_r = r@;
        let ghost old_p = p;
        r.insert(q, x);
        proof {
            p = old_p.insert(q as int, k as int);
            assert forall|t: int| 0 <= t < k + 1 implies 0 <= #[trigger] p[t] < k + 1 && r@[t] == es[p[t]] by {
                if t < q {
                    assert(p[t] == old_p[t]);
                } else if t > q {
                    assert(p[t] == old_p[t - 1]);
                }
            }
            assert(p.no_duplicates()) by {
                assert forall|a: int, b: int| 0 <= a < b < p.len() implies p[a] != p[b] by {
                    if a == q {
                        assert(p[b] == old_p[b - 1]);
                    } else if b == q {
                        assert(p[a] == old_p[a]);
                    } else {
                        let a0 = if a < q { a } else { a - 1 };
                        let b0 = if b < q { b } else { b - 1 };
                        assert(p[a] == old_p[a0] && p[b] == old_p[b0]);
                    }
                }
            }
            // Everything before the insertion point sorts before the new item.
            if q > 0 {
                let o = old_p[q - 1];
                assert(old_r[q - 1] == es[o]);
                lemma_chars_lt_total(es[o].name@, xn@);
                assert(key_lt(es, o, k as int));
            }
            assert forall|a: int, b: int| 0 <= a < b < k + 1 implies key_lt(es, #[trigger] p[a], #[trigger] p[b]) by {
                if b == q {
                    assert(p[a] == old_p[a]);
                    if a < q - 1 {
                        assert(key_lt(es, old_p[a], old_p[q - 1]));
                        lemma_key_lt_transitive(es, old_p[a], old_p[q - 1], k as int);
                    }
                } else if a == q {
                    assert(p[b] == old_p[b - 1]);
                    assert(old_r[b - 1] == es[old_p[b - 1]]);
                    assert(chars_lt(xn@, old_r[b - 1].name@));
                } else {
                    let a0 = if a < q { a } else { a - 1 };
                    let b0 = if b < q { b } else { b - 1 };
                    assert(p[a] == old_p[a0] && p[b] == old_p[b0]);
                    assert(key_lt(es, old_p[a0], old_p[b0]));
                }
            }
        }
        k = k + 1;
    }
    assert(stable_name_sort(es, r@, p));
    r
}

/// Deduplicate by lowercased name, keeping the highest-priority (earliest)
/// entry, then sort by name.
pub fn finalize_index(apps: Vec<AppEntry>) -> (r: Vec<AppEntry>)
    ensures
        exists|p: Seq<int>| stable_name_sort(deduped(apps@), r@, p),
{
    let kept = dedup_by_lower(apps);
    sort_by_name(kept)
}

/// Facts about the deduplicated prefix: no lowercased name twice, and every
/// lowercased name of the first `n` entries present.
proof fn lemma_dedup_prefix(s: Seq<AppEntry>, n: nat)
    requires
        n <= s.len(),
    ensures
        lowers(dedup_prefix(s, n)).no_duplicates(),
        forall|j: int| 0 <= j < n ==> lowers(dedup_prefix(s, n)).contains(#[trigger] s[j].lower_name@),
    decreases n,
{
    if n > 0 {
        lemma_dedup_prefix(s, (n - 1) as nat);
        let d = dedup_prefix(s, (n - 1) as nat);
        let x = s[n - 1].lower_name@;
        if !lowers(d).contains(x) {
            assert(lowers(d.push(s[n - 1])) =~= lowers(d).push(x));
            assert forall|j: int| 0 <= j < n implies lowers(dedup_prefix(s, n)).contains(#[trigger] s[j].lower_name@) by {
                if j < n - 1 {
                    let t = choose|t: int| 0 <= t < lowers(d).len() && lowers(d)[t] == s[j].lower_name@;
                    assert(lowers(dedup_prefix(s, n))[t] == s[j].lower_name@);
                } else {
                    assert(lowers(dedup_prefix(s, n))[lowers(d).len() as int] == x);
                }
            }
        }
    }
}

/// The ordered catalog is sorted by name, holds no two entries with the
/// same lowercased name, and loses no name: every entry of the input has one
/// with its lowercased name in the output.
pub proof fn law_finalized_catalog(s: Seq<AppEntry>, r: Seq<AppEntry>, p: Seq<int>)
    requires
        stable_name_sort(deduped(s), r, p),
    ensures
        forall|a: int, b: int| 0 <= a < b < r.len() ==> !chars_lt(#[trigger] r[b].name@, #[trigger] r[a].name@),
        forall|a: int, b: int| 0 <= a < b < r.len() ==> #[trigger] r[a].lower_name@ != #[trigger] r[b].lower_name@,
        forall|j: int| 0 <= j < s.len() ==> lowers(r).contains(#[trigger] s[j].lower_name@),
{
    let e = deduped(s);
    lemma_dedup_prefix(s, s.len());
    assert forall|a: int, b: int| 0 <= a < b < r.len() implies !chars_lt(#[trigger] r[b].name@, #[trigger] r[a].name@) by {
        assert(key_lt(e, p[a], p[b]));
        if chars_lt(e[p[a]].name@, e[p[b]].name@) {
            lemma_chars_lt_asymmetric(e[p[a]].name@, e[p[b]].name@);
        } else {
            lemma_chars_lt_irreflexive(e[p[a]].name@);
        }
    }
    assert forall|a: int, b: int| 0 <= a < b < r.len() implies #[trigger] r[a].lower_name@ != #[trigger] r[b].lower_name@ by {
        assert(p[a] != p[b]);
        assert(lowers(e)[p[a]] == r[a].lower_name@);
        assert(lowers(e)[p[b]] == r[b].lower_name@);
    }
    assert forall|j: int| 0 <= j < s.len() implies lowers(r).contains(#[trigger] s[j].lower_name@) by {
        let t = choose|t: int| 0 <= t < lowers(e).len() && lowers(e)[t] == s[j].lower_name@;
        lemma_perm_onto(p, e.len() as int, t);
        let k = choose|k: int| 0 <= k < p.len() && p[k] == t;
        assert(r[k] == e[t]);
        assert(lowers(r)[k] == s[j].lower_name@);
    }
}

/// A duplicate-free list of `n` positions below `n` hits every position.
proof fn lemma_perm_onto(p: Seq<int>, n: int, t: int)
    requires
        p.len() == n,
        p.no_duplicates(),
        forall|k: int| 0 <= k < p.len() ==> 0 <= #[trigger] p[k] < n,
        0 <= t < n,
    ensures
        exists|k: int| 0 <= k < p.len() && p[k] == t,
{
    if !p.contains(t) {
        let range = vstd::set_lib::set_int_range(0, n);
        p.unique_seq_to_set();
        assert(p.to_set().subset_of(range.remove(t)));
        vstd::set_lib::lemma_int_range(0, n);
        vstd::set_lib::lemma_len_subset(p.to_set(), range.remove(t));
    }
}

} // verus!
