//! When a source's index cache must be rebuilt: after a fixed age, or as
//! soon as one of the source's application directories changed.

use vstd::prelude::*;

use crate::paths::{join_path, join_spec, opt_view, or_default};
use crate::text::{chars_eq_str, chars_of, concat_str, split_char, split_on, string_of, string_views, views};

verus! {

/// The moment a file was last modified, in nanoseconds since the epoch.
pub type Stamp = u128;

/// A cache is stale when its time is unknown, when it is older than the
/// limit (or stamped in the future), or when a watched directory changed
/// after it was written.
pub open spec fn stale_spec(cache: Option<Stamp>, now: Stamp, max_age_secs: nat, dirs: Seq<Option<Stamp>>) -> bool {
    match cache {
        None => true,
        Some(c) => {
            ||| now < c
            ||| now - c > max_age_secs * 1_000_000_000
            ||| exists|k: int| 0 <= k < dirs.len() && (#[trigger] dirs[k] matches Some(d) && d > c)
        },
    }
}

/// Decides staleness from the stamps the caller read: the cache file's,
/// the clock's, and those of the source's directories (`None` where a
/// directory could not be read).
pub fn is_stale(cache: Option<Stamp>, now: Stamp, hours: u64, dirs: &[Option<Stamp>]) -> (b: bool)
    requires
        hours * 3600 <= u64::MAX,
    ensures
        b == stale_spec(cache, now, (hours * 3600) as nat, dirs@),
{
    let c = match cache {
        None => return true,
        Some(c) => c,
    };
    if now < c {
        return true;
    }
    let limit: u128 = (hours as u128) * 3600 * 1_000_000_000;
    if now - c > limit {
        return true;
    }
    let mut k: usize = 0;
    while k < dirs.len()
        invariant
            cache == Some(c),
            c <= now,
            limit == hours * 3600 * 1_000_000_000,
            now - c <= limit,
            k <= dirs@.len(),
            forall|j: int| 0 <= j < k ==> !(#[trigger] dirs@[j] matches Some(d) && d > c),
        decreases dirs@.len() - k,
    {
        match dirs[k] {
            Some(d) => {
                if d > c {
                    assert(dirs@[k as int] matches Some(x) && x > c);
                    return true;
                }
            },
            None => {},
        }
        k = k + 1;
    }
    false
}

/// The directories whose changes should invalidate a source's cache:
/// each XDG data directory's `applications` and the user's own for
/// desktop entries, the two Flatpak export directories for Flatpak, none
/// for the other sources.
pub open spec fn source_dirs_spec(source: Seq<char>, home: Seq<char>, xdg_data_dirs: Option<Seq<char>>) -> Seq<Seq<char>> {
    if source == "desktop"@ {
        split_on(or_default(xdg_data_dirs, "/usr/local/share:/usr/share"@), ':').map_values(
            |d: Seq<char>| d + "/applications"@,
        ).push(join_spec(home, ".local/share/applications"@))
    } else if source == "flatpak"@ {
        seq![
            "/var/lib/flatpak/exports/share/applications"@,
            join_spec(home, ".local/share/flatpak/exports/share/applications"@),
        ]
    } else {
        Seq::empty()
    }
}

pub fn source_dirs(source: &str, home: &str, xdg_data_dirs: Option<String>) -> (r: Vec<String>)
    ensures
        string_views(r@) == source_dirs_spec(source@, home@, opt_view(xdg_data_dirs)),
{
    let sc = chars_of(source);
    if chars_eq_str(sc.as_slice(), "desktop") {
        let xdg = match xdg_data_dirs {
            Some(x) => x,
            None => "/usr/local/share:/usr/share".to_owned(),
        };
        let xc = chars_of(xdg.as_str());
        let parts = split_char(xc.as_slice(), ':');
        let ghost ps = views(parts@);
        let mut out: Vec<String> = Vec::new();
        let mut i: usize = 0;
        while i < parts.len()
            invariant
                i <= parts@.len(),
                ps == views(parts@),
                string_views(out@) == ps.take(i as int).map_values(|d: Seq<char>| d + "/applications"@),
            decreases parts@.len() - i,
        {
            let d = string_of(parts[i].as_slice());
            assert(d@ == ps[i as int]);
            let ghost before = string_views(out@);
            out.push(concat_str(d.as_str(), "/applications"));
            assert(ps.take(i + 1) =~= ps.take(i as int).push(ps[i as int]));
            assert(string_views(out@) =~= before.push(ps[i as int] + "/applications"@));
            assert(string_views(out@) =~= ps.take(i + 1).map_values(|d: Seq<char>| d + "/applications"@));
            i = i + 1;
        }
        assert(ps.take(i as int) =~= ps);
        let ghost body = string_views(out@);
        out.push(join_path(home, ".local/share/applications"));
        assert(string_views(out@) =~= body.push(join_spec(home@, ".local/share/applications"@)));
        out
    } else if chars_eq_str(sc.as_slice(), "flatpak") {
        let mut out: Vec<String> = Vec::new();
        out.push("/var/lib/flatpak/exports/share/applications".to_owned());
        out.push(join_path(home, ".local/share/flatpak/exports/share/applications"));
        assert(string_views(out@) =~= seq![
            "/var/lib/flatpak/exports/share/applications"@,
            join_spec(home@, ".local/share/flatpak/exports/share/applications"@),
        ]);
        out
    } else {
        let out: Vec<String> = Vec::new();
        assert(string_views(out@) =~= Seq::<Seq<char>>::empty());
        out
    }
}

} // verus!
