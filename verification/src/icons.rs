//! Icon lookup: the in-memory cache of resolved icon paths, the files
//! probed for an icon name and in which order, and which probe decides.
//! Testing which files exist and rasterizing SVGs are the caller's.

use vstd::prelude::*;

use crate::paths::opt_view;
use crate::strmap::StrMap;
use crate::text::{chars_of, concat_str, ends_with_str, has_char, has_prefix, has_suffix, starts_with_str, string_of, sub_vec};
use crate::drawer_view::last_segment;

verus! {

pub const FALLBACK_ICON: &'static str = "assets/launcher.png";

pub open spec fn fallback_icon_spec() -> Seq<char> {
    "/usr/share/icons/hicolor/48x48/apps/apport.png"@
}

pub fn fallback_icon() -> (r: String)
    ensures
        r@ == fallback_icon_spec(),
{
    "/usr/share/icons/hicolor/48x48/apps/apport.png".to_owned()
}

pub struct IconCache {
    /// icon_name → resolved PNG/JPEG path (never SVG)
    cache: StrMap<String>,
    /// Directory where rasterized SVGs are written
    svg_cache_dir: String,
}

/// What a lookup finds before any search.
pub enum IconLookup {
    /// No icon name: the fallback icon.
    Fallback(String),
    /// Resolved before.
    Cached(String),
    /// Not resolved yet: search for it, then `settle`.
    Miss,
}

pub open spec fn cache_view(m: Map<Seq<char>, String>) -> Map<Seq<char>, Seq<char>> {
    m.map_values(|s: String| s@)
}

impl IconCache {
    /// The resolved icons by name.
    pub closed spec fn entries(&self) -> Map<Seq<char>, Seq<char>> {
        cache_view(self.cache.view())
    }

    pub closed spec fn svg_dir(&self) -> Seq<char> {
        self.svg_cache_dir@
    }

    pub fn new_in(svg_cache_dir: String) -> (c: Self)
        ensures
            c.entries() == Map::<Seq<char>, Seq<char>>::empty(),
            c.svg_dir() == svg_cache_dir@,
    {
        let c = IconCache { cache: StrMap::new(), svg_cache_dir };
        assert(c.entries() =~= Map::<Seq<char>, Seq<char>>::empty());
        c
    }

    /// An empty cache writing rasterized SVGs under the user's cache
    /// directory (the caller creates that directory).
    pub fn new() -> (c: Self)
        ensures
            c.entries() == Map::<Seq<char>, Seq<char>>::empty(),
            exists|b: Option<Seq<char>>| c.svg_dir() == crate::paths::icon_cache_dir_in(b),
    {
        Self::new_in(crate::paths::icon_cache_dir())
    }

    pub fn svg_cache_dir(&self) -> (r: &str)
        ensures
            r@ == self.svg_dir(),
    {
        self.svg_cache_dir.as_str()
    }

    pub fn len(&self) -> (n: usize)
        ensures
            n == self.entries().len(),
    {
        proof {
            assert(self.entries().dom() =~= self.cache.view().dom());
        }
        self.cache.len()
    }

    pub fn is_empty(&self) -> (b: bool)
        ensures
            b == (self.entries().len() == 0),
    {
        self.len() == 0
    }

    pub fn clear(&mut self)
        ensures
            final(self).entries() == Map::<Seq<char>, Seq<char>>::empty(),
            final(self).svg_dir() == old(self).svg_dir(),
    {
        self.cache.clear();
        assert(self.entries() =~= Map::<Seq<char>, Seq<char>>::empty());
    }

    /// The first step of resolving an icon name.
    pub fn lookup(&self, icon_name: Option<&str>) -> (r: IconLookup)
        ensures
            match icon_name {
                None => r matches IconLookup::Fallback(p) && p@ == fallback_icon_spec(),
                Some(n) => if self.entries().contains_key(n@) {
                    r matches IconLookup::Cached(p) && p@ == self.entries()[n@]
                } else {
                    r is Miss
                },
            },
    {
        match icon_name {
            None => IconLookup::Fallback(fallback_icon()),
            Some(n) => match self.cache.get(n) {
                Some(p) => IconLookup::Cached(p.clone()),
                None => IconLookup::Miss,
            },
        }
    }

    /// Records what the search found: the icon itself, else its symbolic
    /// counterpart, else the fallback icon; returns the recorded path. Fed
    /// raster results only, it records no SVG.
    pub fn settle(&mut self, icon_name: &str, found: Option<String>, found_alternate: Option<String>) -> (r: String)
        ensures
            r@ == settled_path(opt_view(found), opt_view(found_alternate)),
            (found matches Some(p) ==> !has_suffix(p@, ".svg"@)) && (found_alternate matches Some(q)
                ==> !has_suffix(q@, ".svg"@)) ==> !has_suffix(r@, ".svg"@),
            final(self).entries() == old(self).entries().insert(icon_name@, r@),
            final(self).svg_dir() == old(self).svg_dir(),
    {
        proof {
            reveal_strlit(".svg");
            reveal_strlit("/usr/share/icons/hicolor/48x48/apps/apport.png");
            let f = fallback_icon_spec();
            assert(f.skip(f.len() - 4)[1] == 'p');
        }
        let resolved = match found {
            Some(p) => p,
            None => match found_alternate {
                Some(q) => q,
                None => fallback_icon(),
            },
        };
        let out = resolved.clone();
        let ghost before = self.cache.view();
        self.cache.insert(icon_name.to_owned(), resolved);
        assert(self.entries() =~= cache_view(before).insert(icon_name@, out@));
        out
    }
}

/// Resolving an icon again gives what the first resolution recorded: once
/// `settle` has recorded `r` for `name`, `lookup` finds it there, and the
/// cache grew by at most that one name.
pub proof fn law_settled_is_cached(before: Map<Seq<char>, Seq<char>>, after: Map<Seq<char>, Seq<char>>, name: Seq<char>, r: Seq<char>)
    requires
        before.dom().finite(),
        after == before.insert(name, r),
    ensures
        after.contains_key(name),
        after[name] == r,
        after.dom().len() == before.dom().len() + if before.contains_key(name) { 0int } else { 1int },
        after.insert(name, r) == after,
{
    assert(after.dom() =~= before.dom().insert(name));
    assert(after.insert(name, r) =~= after);
}

/// The path `settle` records: the icon found, else its symbolic
/// counterpart, else the fallback icon.
pub open spec fn settled_path(found: Option<Seq<char>>, alternate: Option<Seq<char>>) -> Seq<char> {
    match (found, alternate) {
        (Some(p), _) => p,
        (None, Some(q)) => q,
        (None, None) => fallback_icon_spec(),
    }
}

/// One whole resolution of an icon name against the cache entries `e`, as
/// `lookup` and then, on a miss, `settle` carry it out: no name gives the
/// fallback icon; a cached name gives its path; a new name records what
/// the search found and gives it.
pub open spec fn resolve_spec(
    e: Map<Seq<char>, Seq<char>>,
    name: Option<Seq<char>>,
    found: Option<Seq<char>>,
    alternate: Option<Seq<char>>,
) -> (Seq<char>, Map<Seq<char>, Seq<char>>) {
    match name {
        None => (fallback_icon_spec(), e),
        Some(n) => if e.contains_key(n) {
            (e[n], e)
        } else {
            (settled_path(found, alternate), e.insert(n, settled_path(found, alternate)))
        },
    }
}

/// An icon name is resolved once: resolving it again, whatever a second
/// search would find, gives the same path and leaves the cache as it was;
/// the first resolution adds at most that one name; no name gives the
/// fallback icon and leaves the cache alone. With no SVG cached and none
/// found, the path is no SVG.
pub proof fn law_resolve_once(
    e0: Map<Seq<char>, Seq<char>>,
    n: Seq<char>,
    f1: Option<Seq<char>>,
    a1: Option<Seq<char>>,
    f2: Option<Seq<char>>,
    a2: Option<Seq<char>>,
)
    requires
        e0.dom().finite(),
    ensures
        ({
            let (r1, e1) = resolve_spec(e0, Some(n), f1, a1);
            let (r2, e2) = resolve_spec(e1, Some(n), f2, a2);
            &&& r2 == r1
            &&& e2 == e1
            &&& e1.len() == e0.len() || e1.len() == e0.len() + 1
            &&& ((forall|k: Seq<char>| #[trigger] e0.contains_key(k) ==> !has_suffix(e0[k], ".svg"@))
                && (f1 matches Some(p) ==> !has_suffix(p, ".svg"@))
                && (a1 matches Some(q) ==> !has_suffix(q, ".svg"@)) ==> !has_suffix(r1, ".svg"@))
        }),
        resolve_spec(e0, None, f1, a1) == (fallback_icon_spec(), e0),
{
    reveal_strlit(".svg");
    reveal_strlit("/usr/share/icons/hicolor/48x48/apps/apport.png");
    let f = fallback_icon_spec();
    assert(f.skip(f.len() - 4)[1] == 'p');
    if !e0.contains_key(n) {
        let r = settled_path(f1, a1);
        assert(e0.insert(n, r).dom() =~= e0.dom().insert(n));
    }
}

// ---------------------------------------------------------------------------
// Icon names
// ---------------------------------------------------------------------------

/// The other name to try when an icon is missing: without the
/// `-symbolic` suffix if it has one, else with it.
pub open spec fn alternate_spec(name: Seq<char>) -> Seq<char> {
    if has_suffix(name, "-symbolic"@) {
        name.take(name.len() - 9)
    } else {
        name + "-symbolic"@
    }
}

pub fn alternate_name(name: &str) -> (r: String)
    ensures
        r@ == alternate_spec(name@),
{
    proof {
        reveal_strlit("-symbolic");
    }
    let cs = chars_of(name);
    if ends_with_str(cs.as_slice(), "-symbolic") {
        let v = sub_vec(cs.as_slice(), 0, cs.len() - 9);
        string_of(v.as_slice())
    } else {
        concat_str(name, "-symbolic")
    }
}

/// How an icon name is looked up.
pub enum IconName {
    /// `steam_icon_<appid>`: the game's library-cache artwork.
    Steam(String),
    /// An absolute path, used as it is when it exists.
    Absolute,
    /// A theme icon name, searched in the icon directories.
    Themed,
}

pub open spec fn steam_prefix() -> Seq<char> {
    "steam_icon_"@
}

pub fn classify_icon(name: &str) -> (r: IconName)
    ensures
        match r {
            IconName::Steam(appid) => has_prefix(name@, steam_prefix()) && appid@ == name@.skip(11),
            IconName::Absolute => !has_prefix(name@, steam_prefix()) && name@.len() > 0 && name@[0] == '/',
            IconName::Themed => !has_prefix(name@, steam_prefix()) && !(name@.len() > 0 && name@[0] == '/'),
        },
{
    proof {
        reveal_strlit("steam_icon_");
    }
    let cs = chars_of(name);
    if starts_with_str(cs.as_slice(), "steam_icon_") {
        let v = sub_vec(cs.as_slice(), 11, cs.len());
        return IconName::Steam(string_of(v.as_slice()));
    }
    if cs.len() > 0 && cs[0] == '/' {
        IconName::Absolute
    } else {
        IconName::Themed
    }
}

/// For a name with a `/`, its last component when that differs from the
/// whole name: the name searched again when nothing was found.
pub open spec fn basename_spec(name: Seq<char>) -> Option<Seq<char>> {
    if has_char(name, '/') && last_segment(name, '/') != name {
        Some(last_segment(name, '/'))
    } else {
        None
    }
}

pub fn icon_basename(name: &str) -> (r: Option<String>)
    ensures
        opt_view(r) == basename_spec(name@),
{
    let cs = chars_of(name);
    if !crate::text::contains_char(cs.as_slice(), '/') {
        return None;
    }
    let seg = crate::drawer_view::last_segment_of(cs.as_slice(), '/');
    if crate::text::chars_eq(seg.as_slice(), cs.as_slice()) {
        None
    } else {
        Some(string_of(seg.as_slice()))
    }
}

// ---------------------------------------------------------------------------
// Search order
// ---------------------------------------------------------------------------

pub open spec fn icon_sizes() -> Seq<Seq<char>> {
    seq!["256x256"@, "128x128"@, "96x96"@, "64x64"@, "48x48"@, "32x32"@]
}

pub open spec fn icon_categories() -> Seq<Seq<char>> {
    seq!["apps"@, "actions"@, "devices"@, "status"@, "mimetypes"@, "places"@, "categories"@]
}

fn size_name(i: usize) -> (r: &'static str)
    requires
        i < 6,
    ensures
        r@ == icon_sizes()[i as int],
{
    match i {
        0 => "256x256",
        1 => "128x128",
        2 => "96x96",
        3 => "64x64",
        4 => "48x48",
        _ => "32x32",
    }
}

fn category_name(i: usize) -> (r: &'static str)
    requires
        i < 7,
    ensures
        r@ == icon_categories()[i as int],
{
    match i {
        0 => "apps",
        1 => "actions",
        2 => "devices",
        3 => "status",
        4 => "mimetypes",
        5 => "places",
        _ => "categories",
    }
}

/// `a/b/c` by plain concatenation.
pub open spec fn path3(a: Seq<char>, b: Seq<char>, c: Seq<char>) -> Seq<char> {
    a + "/"@ + b + "/"@ + c
}

/// The raster directories for one size and category: the user's own
/// hicolor tree first, then hicolor, then Pop.
pub open spec fn raster_dir(local: Seq<char>, size: Seq<char>, cat: Seq<char>, j: int) -> Seq<char> {
    if j == 0 {
        path3(local, size, cat)
    } else if j == 1 {
        path3("/usr/share/icons/hicolor"@, size, cat)
    } else {
        path3("/usr/share/icons/Pop"@, size, cat)
    }
}

/// Raster search directories: largest sizes first, every category, then
/// `/usr/share/pixmaps`.
pub open spec fn raster_dirs(local: Seq<char>) -> Seq<Seq<char>> {
    Seq::new(
        126,
        |k: int| raster_dir(local, icon_sizes()[k / 21], icon_categories()[(k / 3) % 7], k % 3),
    ).push("/usr/share/pixmaps"@)
}

/// The scalable directories for one category.
pub open spec fn vector_dir(local: Seq<char>, cat: Seq<char>, j: int) -> Seq<char> {
    if j == 0 {
        local + "/scalable/"@ + cat
    } else if j == 1 {
        "/usr/share/icons/hicolor/scalable/"@ + cat
    } else if j == 2 {
        "/usr/share/icons/Cosmic/scalable/"@ + cat
    } else {
        "/usr/share/icons/Pop/scalable/"@ + cat
    }
}

/// SVG search directories: every category, then Breeze's preferences.
pub open spec fn vector_dirs(local: Seq<char>) -> Seq<Seq<char>> {
    Seq::new(28, |k: int| vector_dir(local, icon_categories()[k / 4], k % 4)).push(
        "/usr/share/icons/breeze/preferences/32"@,
    ).push("/usr/share/icons/breeze/preferences/22"@)
}

fn join3(a: &str, b: &str, c: &str) -> (r: String)
    ensures
        r@ == path3(a@, b@, c@),
{
    let ab = concat_str(a, "/");
    let ab2 = concat_str(ab.as_str(), b);
    let abc = concat_str(ab2.as_str(), "/");
    concat_str(abc.as_str(), c)
}

/// The raster directories searched, in order, given the user's local
/// hicolor directory.
pub fn raster_search_dirs(local_hicolor: &str) -> (r: Vec<String>)
    ensures
        crate::text::string_views(r@) == raster_dirs(local_hicolor@),
{
    let ghost want = raster_dirs(local_hicolor@);
    let mut out: Vec<String> = Vec::new();
    let mut s: usize = 0;
    while s < 6
        invariant
            s <= 6,
            want == raster_dirs(local_hicolor@),
            out@.len() == s * 21,
            forall|k: int| 0 <= k < out@.len() ==> #[trigger] out@[k]@ == want[k],
        decreases 6 - s,
    {
        let size = size_name(s);
        let mut c: usize = 0;
        while c < 7
            invariant
                s < 6,
                c <= 7,
                size@ == icon_sizes()[s as int],
                want == raster_dirs(local_hicolor@),
                out@.len() == s * 21 + c * 3,
                forall|k: int| 0 <= k < out@.len() ==> #[trigger] out@[k]@ == want[k],
            decreases 7 - c,
        {
            let cat = category_name(c);
            let ghost base = (s * 21 + c * 3) as int;
            assert(base / 21 == s as int && (base / 3) % 7 == c as int && base % 3 == 0) by (nonlinear_arith)
                requires base == s * 21 + c * 3, s < 6, c < 7;
            assert((base + 1) / 21 == s as int && ((base + 1) / 3) % 7 == c as int && (base + 1) % 3 == 1) by (nonlinear_arith)
                requires base == s * 21 + c * 3, s < 6, c < 7;
            assert((base + 2) / 21 == s as int && ((base + 2) / 3) % 7 == c as int && (base + 2) % 3 == 2) by (nonlinear_arith)
                requires base == s * 21 + c * 3, s < 6, c < 7;
            out.push(join3(local_hicolor, size, cat));
            out.push(join3("/usr/share/icons/hicolor", size, cat));
            out.push(join3("/usr/share/icons/Pop", size, cat));
            c = c + 1;
        }
        s = s + 1;
    }
    out.push("/usr/share/pixmaps".to_owned());
    assert(crate::text::string_views(out@) =~= want);
    out
}

/// The SVG directories searched after the raster ones, in order.
pub fn vector_search_dirs(local_hicolor: &str) -> (r: Vec<String>)
    ensures
        crate::text::string_views(r@) == vector_dirs(local_hicolor@),
{
    let ghost want = vector_dirs(local_hicolor@);
    let mut out: Vec<String> = Vec::new();
    let mut c: usize = 0;
    while c < 7
        invariant
            c <= 7,
            want == vector_dirs(local_hicolor@),
            out@.len() == c * 4,
            forall|k: int| 0 <= k < out@.len() ==> #[trigger] out@[k]@ == want[k],
        decreases 7 - c,
    {
        let cat = category_name(c);
        let ghost base = (c * 4) as int;
        assert(base / 4 == c as int && (base + 1) / 4 == c as int && (base + 2) / 4 == c as int
            && (base + 3) / 4 == c as int && base % 4 == 0 && (base + 1) % 4 == 1 && (base + 2) % 4 == 2
            && (base + 3) % 4 == 3) by (nonlinear_arith)
            requires base == c * 4, c < 7;
        let a = concat_str(local_hicolor, "/scalable/");
        out.push(concat_str(a.as_str(), cat));
        out.push(concat_str("/usr/share/icons/hicolor/scalable/", cat));
        out.push(concat_str("/usr/share/icons/Cosmic/scalable/", cat));
        out.push(concat_str("/usr/share/icons/Pop/scalable/", cat));
        c = c + 1;
    }
    out.push("/usr/share/icons/breeze/preferences/32".to_owned());
    out.push("/usr/share/icons/breeze/preferences/22".to_owned());
    assert(crate::text::string_views(out@) =~= want);
    out
}

/// `dir/name.ext`.
pub open spec fn icon_file(dir: Seq<char>, name: Seq<char>, ext: Seq<char>) -> Seq<char> {
    dir + "/"@ + name + "."@ + ext
}

pub fn icon_file_path(dir: &str, name: &str, ext: &str) -> (r: String)
    ensures
        r@ == icon_file(dir@, name@, ext@),
{
    let a = concat_str(dir, "/");
    let b = concat_str(a.as_str(), name);
    let c = concat_str(b.as_str(), ".");
    concat_str(c.as_str(), ext)
}

// ---------------------------------------------------------------------------
// Probes
// ---------------------------------------------------------------------------

/// What a probed file is.
#[derive(Clone, Copy, Debug, PartialEq, Eq, Structural)]
pub enum ProbeKind {
    /// A PNG or JPEG, usable as it is.
    Raster,
    /// An SVG, to be rasterized before use.
    Vector,
}

pub open spec fn probe_ext(j: int) -> Seq<char> {
    if j == 0 {
        "png"@
    } else if j == 1 {
        "jpg"@
    } else {
        "svg"@
    }
}

/// In each raster directory: `name.png`, `name.jpg`, then `name.svg`.
pub open spec fn raster_probes(dirs: Seq<Seq<char>>, name: Seq<char>) -> Seq<(Seq<char>, ProbeKind)> {
    Seq::new(
        3 * dirs.len(),
        |k: int|
            (
                icon_file(dirs[k / 3], name, probe_ext(k % 3)),
                if k % 3 == 2 {
                    ProbeKind::Vector
                } else {
                    ProbeKind::Raster
                },
            ),
    )
}

/// In each SVG directory: `name.svg`.
pub open spec fn vector_probes(dirs: Seq<Seq<char>>, name: Seq<char>) -> Seq<(Seq<char>, ProbeKind)> {
    Seq::new(dirs.len(), |k: int| (icon_file(dirs[k], name, "svg"@), ProbeKind::Vector))
}

/// Every file probed for a themed icon name, in order: raster formats
/// first and then SVG in each raster directory, then the SVG directories.
pub open spec fn probe_order(name: Seq<char>, local: Seq<char>) -> Seq<(Seq<char>, ProbeKind)> {
    raster_probes(raster_dirs(local), name) + vector_probes(vector_dirs(local), name)
}

pub open spec fn probe_views(v: Seq<(String, ProbeKind)>) -> Seq<(Seq<char>, ProbeKind)> {
    v.map_values(|p: (String, ProbeKind)| (p.0@, p.1))
}

/// The files to probe for the themed icon `name`, given the user's local
/// hicolor directory.
pub fn icon_probes(name: &str, local_hicolor: &str) -> (r: Vec<(String, ProbeKind)>)
    ensures
        probe_views(r@) == probe_order(name@, local_hicolor@),
{
    let rd = raster_search_dirs(local_hicolor);
    let vd = vector_search_dirs(local_hicolor);
    let ghost rs = raster_probes(raster_dirs(local_hicolor@), name@);
    let ghost vs = vector_probes(vector_dirs(local_hicolor@), name@);
    let ghost want = probe_order(name@, local_hicolor@);
    proof {
        reveal_strlit("png");
        reveal_strlit("jpg");
        reveal_strlit("svg");
    }
    let mut out: Vec<(String, ProbeKind)> = Vec::new();
    let mut i: usize = 0;
    while i < rd.len()
        invariant
            crate::text::string_views(rd@) == raster_dirs(local_hicolor@),
            rs == raster_probes(raster_dirs(local_hicolor@), name@),
            i <= rd@.len(),
            out@.len() == 3 * i,
            forall|k: int| 0 <= k < out@.len() ==> #[trigger] probe_views(out@)[k] == rs[k],
        decreases rd@.len() - i,
    {
        let ghost b = (3 * i) as int;
        assert(b / 3 == i && b % 3 == 0 && (b + 1) / 3 == i && (b + 1) % 3 == 1 && (b + 2) / 3 == i && (b
            + 2) % 3 == 2) by (nonlinear_arith)
            requires b == 3 * i;
        assert(crate::text::string_views(rd@)[i as int] == rd@[i as int]@);
        let ghost before = out@;
        out.push((icon_file_path(rd[i].as_str(), name, "png"), ProbeKind::Raster));
        out.push((icon_file_path(rd[i].as_str(), name, "jpg"), ProbeKind::Raster));
        out.push((icon_file_path(rd[i].as_str(), name, "svg"), ProbeKind::Vector));
        assert forall|k: int| 0 <= k < out@.len() implies #[trigger] probe_views(out@)[k] == rs[k] by {
            if k < b {
                assert(out@[k] == before[k]);
                assert(probe_views(before)[k] == rs[k]);
            }
        }
        i = i + 1;
    }
    let mut j: usize = 0;
    let n = out.len();
    while j < vd.len()
        invariant
            crate::text::string_views(vd@) == vector_dirs(local_hicolor@),
            rs == raster_probes(raster_dirs(local_hicolor@), name@),
            vs == vector_probes(vector_dirs(local_hicolor@), name@),
            n == rs.len(),
            j <= vd@.len(),
            out@.len() == n + j,
            forall|k: int| 0 <= k < n ==> #[trigger] probe_views(out@)[k] == rs[k],
            forall|k: int| n <= k < out@.len() ==> #[trigger] probe_views(out@)[k] == vs[k - n],
        decreases vd@.len() - j,
    {
        assert(crate::text::string_views(vd@)[j as int] == vd@[j as int]@);
        let ghost before = out@;
        out.push((icon_file_path(vd[j].as_str(), name, "svg"), ProbeKind::Vector));
        assert forall|k: int| 0 <= k < out@.len() && k < before.len() implies #[trigger] probe_views(out@)[k]
            == probe_views(before)[k] by {
            assert(out@[k] == before[k]);
        }
        j = j + 1;
    }
    assert(probe_views(out@) =~= want);
    out
}

/// Which probe decides an icon: the first file found.
pub enum ProbeHit {
    /// A PNG or JPEG was found first: the icon is this file.
    Raster(String),
    /// An SVG was found first: the icon is this file once rasterized.
    Vector(String),
    /// No probed file exists.
    Miss,
}

/// `k` is the first probe found to exist (`found[k]` says whether probe
/// `k` exists).
pub open spec fn first_found(found: Seq<bool>, n: int, k: int) -> bool {
    &&& 0 <= k < n
    &&& k < found.len()
    &&& found[k]
    &&& forall|j: int| 0 <= j < k ==> !(#[trigger] found[j])
}

/// The outcome of probing: the first probe found decides, by its kind.
pub fn first_hit(probes: &[(String, ProbeKind)], found: &[bool]) -> (r: ProbeHit)
    ensures
        match r {
            ProbeHit::Raster(p) => exists|k: int| first_found(found@, probes@.len() as int, k)
                && probes@[k].1 == ProbeKind::Raster && p@ == probes@[k].0@,
            ProbeHit::Vector(p) => exists|k: int| first_found(found@, probes@.len() as int, k)
                && probes@[k].1 == ProbeKind::Vector && p@ == probes@[k].0@,
            ProbeHit::Miss => forall|k: int| 0 <= k < probes@.len() && k < found@.len() ==> !(#[trigger] found@[k]),
        },
{
    let mut k: usize = 0;
    while k < probes.len() && k < found.len()
        invariant
            k <= probes@.len(),
            forall|j: int| 0 <= j < k && j < found@.len() ==> !(#[trigger] found@[j]),
        decreases probes@.len() - k,
    {
        if found[k] {
            let p = probes[k].0.clone();
            assert(first_found(found@, probes@.len() as int, k as int));
            return match probes[k].1 {
                ProbeKind::Raster => ProbeHit::Raster(p),
                ProbeKind::Vector => ProbeHit::Vector(p),
            };
        }
        k = k + 1;
    }
    ProbeHit::Miss
}

/// A raster probe names a PNG or JPEG file, never an SVG.
pub proof fn law_raster_probes_are_raster(name: Seq<char>, local: Seq<char>, k: int)
    requires
        0 <= k < probe_order(name, local).len(),
        probe_order(name, local)[k].1 == ProbeKind::Raster,
    ensures
        has_suffix(probe_order(name, local)[k].0, ".png"@) || has_suffix(probe_order(name, local)[k].0, ".jpg"@),
{
    let rs = raster_probes(raster_dirs(local), name);
    let vs = vector_probes(vector_dirs(local), name);
    reveal_strlit("png");
    reveal_strlit("jpg");
    reveal_strlit(".png");
    reveal_strlit(".jpg");
    reveal_strlit(".");
    reveal_strlit("/");
    if k < rs.len() {
        let p = rs[k].0;
        let d = raster_dirs(local)[k / 3];
        assert(k % 3 != 2);
        let e = probe_ext(k % 3);
        assert(e.len() == 3);
        assert(p == d + "/"@ + name + "."@ + e);
        let pre = d + "/"@ + name;
        assert(p =~= pre + ("."@ + e));
        assert(p.skip(p.len() - 4) =~= "."@ + e);
        if k % 3 == 0 {
            assert("."@ + e =~= ".png"@);
        } else {
            assert("."@ + e =~= ".jpg"@);
        }
    } else {
        assert(probe_order(name, local)[k] == vs[k - rs.len()]);
    }
}

} // verus!
