//! File-system locations the launcher reads and writes, built as text from
//! the user's base directories, and the few path questions it asks.

use vstd::prelude::*;

use crate::text::{chars_of, concat_str, string_of};

verus! {

// ---------------------------------------------------------------------------
// Joining
// ---------------------------------------------------------------------------

/// `Path::join` on Unix: an absolute component replaces the base; otherwise
/// a separator is put between them unless the base is empty or already ends
/// with one.
pub open spec fn join_spec(base: Seq<char>, comp: Seq<char>) -> Seq<char> {
    if comp.len() > 0 && comp[0] == '/' {
        comp
    } else if base.len() == 0 || base.last() == '/' {
        base + comp
    } else {
        base + seq!['/'] + comp
    }
}

/// Joins a path component onto a base path (Unix `Path::join`).
pub fn join_path(base: &str, comp: &str) -> (r: String)
    ensures
        r@ == join_spec(base@, comp@),
{
    let b = chars_of(base);
    let c = chars_of(comp);
    if c.len() > 0 && c[0] == '/' {
        return string_of(c.as_slice());
    }
    if b.len() == 0 || b[b.len() - 1] == '/' {
        return concat_str(base, comp);
    }
    let mut v = b;
    v.push('/');
    crate::text::append_chars(&mut v, c.as_slice());
    assert(v@ == base@ + seq!['/'] + comp@);
    string_of(v.as_slice())
}

pub open spec fn opt_view(o: Option<String>) -> Option<Seq<char>> {
    match o {
        Some(s) => Some(s@),
        None => None,
    }
}

pub open spec fn or_default(o: Option<Seq<char>>, fallback: Seq<char>) -> Seq<char> {
    match o {
        Some(s) => s,
        None => fallback,
    }
}

fn base_or(o: Option<String>, fallback: &str) -> (r: String)
    ensures
        r@ == or_default(opt_view(o), fallback@),
{
    match o {
        Some(s) => s,
        None => fallback.to_owned(),
    }
}

// ---------------------------------------------------------------------------
// Outside calls: the user's base directories and std path queries
// ---------------------------------------------------------------------------

/// `dirs::config_dir()` as text. It reads the environment, so nothing is
/// stated of the result.
#[verifier::external_body]
fn config_home() -> (r: Option<String>) {
    dirs::config_dir().map(|p| p.to_string_lossy().into_owned())
}

/// `dirs::cache_dir()` as text. It reads the environment, so nothing is
/// stated of the result.
#[verifier::external_body]
fn cache_home() -> (r: Option<String>) {
    dirs::cache_dir().map(|p| p.to_string_lossy().into_owned())
}

/// `dirs::data_local_dir()` as text. It reads the environment, so nothing
/// is stated of the result.
#[verifier::external_body]
fn data_local_home() -> (r: Option<String>) {
    dirs::data_local_dir().map(|p| p.to_string_lossy().into_owned())
}

/// What std `Path::parent` gives for a path text.
pub uninterp spec fn std_parent(p: Seq<char>) -> Option<Seq<char>>;

/// `n` is one normal path component: not empty, no separator, not `.` or
/// `..`.
pub open spec fn normal_name(n: Seq<char>) -> bool {
    n.len() > 0 && !n.contains('/') && n != "."@ && n != ".."@
}

/// `d` ends in a component that `Path` keeps as it is: no trailing
/// separator, and its last component is not `.`.
pub open spec fn ends_in_kept_component(d: Seq<char>) -> bool {
    d.len() > 0 && d.last() != '/' && d != "."@ && !(d.len() >= 2 && d.subrange(
        d.len() - 2,
        d.len() as int,
    ) == "/."@)
}

/// `p` is `dir/name`, with `name` one normal component and `dir` ending in
/// a kept component.
pub open spec fn splits_last(p: Seq<char>, dir: Seq<char>, name: Seq<char>) -> bool {
    ends_in_kept_component(dir) && normal_name(name) && p == dir + seq!['/'] + name
}

/// The parent of a path: as std documents, the path without its final
/// component, so a path `dir/name` as `splits_last` says has the parent
/// `dir`; for other paths, std's answer by name.
pub open spec fn path_parent(p: Seq<char>) -> Option<Seq<char>> {
    if exists|d: Seq<char>, n: Seq<char>| #[trigger] splits_last(p, d, n) {
        let (d, n) = choose|d: Seq<char>, n: Seq<char>| #[trigger] splits_last(p, d, n);
        Some(d)
    } else {
        std_parent(p)
    }
}

/// A path splits as `splits_last` says in one way only: `name` holds no
/// separator, so the last separator of the path starts it.
proof fn lemma_splits_last_unique(p: Seq<char>, d1: Seq<char>, n1: Seq<char>, d2: Seq<char>, n2: Seq<char>)
    requires
        splits_last(p, d1, n1),
        splits_last(p, d2, n2),
    ensures
        d1 == d2,
        n1 == n2,
{
    if n1.len() < n2.len() {
        let k = p.len() - 1 - n1.len();
        assert(p[k] == '/');
        let j = k - (d2.len() + 1);
        assert(0 <= j < n2.len());
        assert(p[k] == n2[j]);
        assert(n2.contains('/'));
    } else if n2.len() < n1.len() {
        let k = p.len() - 1 - n2.len();
        assert(p[k] == '/');
        let j = k - (d1.len() + 1);
        assert(0 <= j < n1.len());
        assert(p[k] == n1[j]);
        assert(n1.contains('/'));
    }
    assert(d1.len() == d2.len());
    assert(d1 =~= p.subrange(0, d1.len() as int));
    assert(d2 =~= p.subrange(0, d2.len() as int));
    assert(n1 =~= p.subrange(d1.len() as int + 1, p.len() as int));
    assert(n2 =~= p.subrange(d2.len() as int + 1, p.len() as int));
}

/// The parent of `dir/name` is `dir`.
proof fn lemma_parent_of_split(p: Seq<char>, dir: Seq<char>, name: Seq<char>)
    requires
        splits_last(p, dir, name),
    ensures
        path_parent(p) == Some(dir),
{
    assert(exists|d: Seq<char>, n: Seq<char>| #[trigger] splits_last(p, d, n));
    let (d, n) = choose|d: Seq<char>, n: Seq<char>| #[trigger] splits_last(p, d, n);
    lemma_splits_last_unique(p, d, n, dir, name);
}

/// Calls std `Path::parent`. The parent of a UTF-8 path is a prefix of it
/// at a component boundary, so the text conversion loses nothing. Stated
/// beyond the name: as std documents, the parent is the path without its
/// final component (`path_parent`). The other component rules are not
/// stated.
#[verifier::external_body]
fn parent_of(p: &str) -> (r: Option<String>)
    ensures
        opt_view(r) == std_parent(p@),
        opt_view(r) == path_parent(p@),
{
    std::path::Path::new(p).parent().map(|d| d.to_string_lossy().into_owned())
}

/// What std `Path::file_name` gives for a path text: its last normal
/// component, if any.
pub uninterp spec fn path_file_name(p: Seq<char>) -> Option<Seq<char>>;

/// Calls std `Path::file_name` on the text; a component of a UTF-8 path is
/// UTF-8, so the conversion loses nothing. The component rules are not
/// stated.
#[verifier::external_body]
pub(crate) fn file_name_of(p: &str) -> (r: Option<String>)
    ensures
        opt_view(r) == path_file_name(p@),
{
    std::path::Path::new(p).file_name().map(|n| n.to_string_lossy().into_owned())
}

/// The position of the last `.` in `s`, or -1 when there is none.
pub open spec fn last_dot(s: Seq<char>) -> int
    decreases s.len(),
{
    if s.len() == 0 {
        -1
    } else if s.last() == '.' {
        s.len() - 1
    } else {
        last_dot(s.drop_last())
    }
}

/// What std `Path::extension` gives for a path text, as std documents it:
/// nothing without a file name, nothing when the file name has no `.` or
/// only a leading one; otherwise the part of the file name after its last
/// `.`.
pub open spec fn path_extension(p: Seq<char>) -> Option<Seq<char>> {
    match path_file_name(p) {
        Some(f) => if last_dot(f) > 0 {
            Some(f.skip(last_dot(f) + 1))
        } else {
            None
        },
        None => None,
    }
}

/// std `Path::extension`, from the file name by the rule std documents.
pub(crate) fn extension_of(p: &str) -> (r: Option<String>)
    ensures
        opt_view(r) == path_extension(p@),
{
    let f = match file_name_of(p) {
        Some(f) => f,
        None => return None,
    };
    let cs = chars_of(f.as_str());
    let mut last: Option<usize> = None;
    let mut i: usize = 0;
    assert(cs@.take(0) =~= Seq::<char>::empty());
    while i < cs.len()
        invariant
            i <= cs@.len(),
            match last {
                Some(k) => k as int == last_dot(cs@.take(i as int)) && k < i,
                None => last_dot(cs@.take(i as int)) == -1,
            },
        decreases cs@.len() - i,
    {
        assert(cs@.take(i + 1).drop_last() =~= cs@.take(i as int));
        assert(cs@.take(i + 1).last() == cs@[i as int]);
        if cs[i] == '.' {
            last = Some(i);
        }
        i = i + 1;
    }
    assert(cs@.take(cs@.len() as int) =~= cs@);
    match last {
        Some(k) => if k > 0 {
            let v = crate::text::sub_vec(cs.as_slice(), k + 1, cs.len());
            assert(v@ =~= cs@.skip(k + 1));
            Some(string_of(v.as_slice()))
        } else {
            None
        },
        None => None,
    }
}

/// Whether std `Path::starts_with` holds: `base` is a whole-component
/// prefix of `p`.
pub uninterp spec fn path_starts_with(p: Seq<char>, base: Seq<char>) -> bool;

/// Calls std `Path::starts_with`. How components are compared is not stated.
#[verifier::external_body]
pub(crate) fn starts_with_path(p: &str, base: &str) -> (r: bool)
    ensures
        r == path_starts_with(p@, base@),
{
    std::path::Path::new(p).starts_with(base)
}

// ---------------------------------------------------------------------------
// The launcher's own locations
// ---------------------------------------------------------------------------

/// `<config>/soulless`, with `~/.config` standing in for an unknown config
/// directory.
pub open spec fn config_dir_in(base: Option<Seq<char>>) -> Seq<char> {
    join_spec(or_default(base, "~/.config"@), "soulless"@)
}

pub open spec fn backgrounds_dir_in(base: Option<Seq<char>>) -> Seq<char> {
    join_spec(config_dir_in(base), "backgrounds"@)
}

pub open spec fn config_path_in(base: Option<Seq<char>>) -> Seq<char> {
    join_spec(config_dir_in(base), "config.ron"@)
}

/// `theme.ron` beside `config.ron`.
pub open spec fn theme_path_in(base: Option<Seq<char>>) -> Option<Seq<char>> {
    match path_parent(config_path_in(base)) {
        Some(dir) => Some(join_spec(dir, "theme.ron"@)),
        None => None,
    }
}

/// `<cache>/soulless`, with `/tmp` standing in for an unknown cache
/// directory.
pub open spec fn cache_dir_in(base: Option<Seq<char>>) -> Seq<char> {
    join_spec(or_default(base, "/tmp"@), "soulless"@)
}

/// The index cache file of one app source.
pub open spec fn cache_path_in(base: Option<Seq<char>>, source: Seq<char>) -> Seq<char> {
    join_spec(cache_dir_in(base), source + ".bin"@)
}

/// Where rasterized SVG icons are kept.
pub open spec fn icon_cache_dir_in(base: Option<Seq<char>>) -> Seq<char> {
    join_spec(cache_dir_in(base), "icons"@)
}

/// The registry file, under the local data directory (`~/.local/share`
/// standing in for an unknown one).
pub open spec fn registry_path_in(base: Option<Seq<char>>) -> Seq<char> {
    join_spec(
        join_spec(or_default(base, "~/.local/share"@), "soulless"@),
        "app_registry.json"@,
    )
}

/// The configuration directory ends in its own `soulless` component.
proof fn lemma_config_dir_kept(base: Option<Seq<char>>)
    ensures
        ends_in_kept_component(config_dir_in(base)),
{
    reveal_strlit("soulless");
    reveal_strlit(".");
    reveal_strlit("/.");
    let d = config_dir_in(base);
    let s = "soulless"@;
    let b = or_default(base, "~/.config"@);
    let pre = if b.len() == 0 || b.last() == '/' { b } else { b + seq!['/'] };
    assert(d =~= pre + s);
    assert(d.len() >= 8);
    assert(d[d.len() - 1] == s[7]);
    assert(d[d.len() - 2] == s[6]);
    assert(d.last() == 's');
    assert(d != "."@);
    assert(d.subrange(d.len() - 2, d.len() as int)[1] == 's');
}

/// A component name without a separator that is not `.` or `..`.
proof fn lemma_plain_name(n: Seq<char>)
    requires
        n.len() > 2,
        forall|i: int| 0 <= i < n.len() ==> #[trigger] n[i] != '/',
        n[0] != '.',
    ensures
        normal_name(n),
{
    reveal_strlit(".");
    reveal_strlit("..");
    if n.contains('/') {
        let k = choose|k: int| 0 <= k < n.len() && n[k] == '/';
        assert(n[k] != '/');
    }
}

/// The backgrounds directory and the configuration file sit side by side
/// in the configuration directory, so they have the same parent, and the
/// theme file goes beside them.
pub proof fn law_config_files_side_by_side(base: Option<Seq<char>>)
    ensures
        backgrounds_dir_in(base) == config_dir_in(base) + "/backgrounds"@,
        config_path_in(base) == config_dir_in(base) + "/config.ron"@,
        path_parent(backgrounds_dir_in(base)) == Some(config_dir_in(base)),
        path_parent(config_path_in(base)) == Some(config_dir_in(base)),
        path_parent(backgrounds_dir_in(base)) == path_parent(config_path_in(base)),
        theme_path_in(base) == Some(join_spec(config_dir_in(base), "theme.ron"@)),
{
    reveal_strlit("backgrounds");
    reveal_strlit("/backgrounds");
    reveal_strlit("config.ron");
    reveal_strlit("/config.ron");
    lemma_config_dir_kept(base);
    let d = config_dir_in(base);
    assert(d + seq!['/'] + "backgrounds"@ =~= d + "/backgrounds"@);
    assert(d + seq!['/'] + "config.ron"@ =~= d + "/config.ron"@);
    lemma_plain_name("backgrounds"@);
    lemma_plain_name("config.ron"@);
    lemma_parent_of_split(backgrounds_dir_in(base), d, "backgrounds"@);
    lemma_parent_of_split(config_path_in(base), d, "config.ron"@);
}

pub fn config_dir_for(base: Option<String>) -> (r: String)
    ensures
        r@ == config_dir_in(opt_view(base)),
{
    let b = base_or(base, "~/.config");
    join_path(b.as_str(), "soulless")
}

/// Returns ~/.config/soulless/
pub fn config_dir() -> (r: String)
    ensures
        exists|b: Option<Seq<char>>| r@ == config_dir_in(b),
{
    let base = config_home();
    let ghost b = opt_view(base);
    let r = config_dir_for(base);
    assert(r@ == config_dir_in(b));
    r
}

pub fn backgrounds_dir_for(base: Option<String>) -> (r: String)
    ensures
        r@ == backgrounds_dir_in(opt_view(base)),
{
    let dir = config_dir_for(base);
    join_path(dir.as_str(), "backgrounds")
}

/// Returns ~/.config/soulless/backgrounds/
pub fn backgrounds_dir() -> (r: String)
    ensures
        exists|b: Option<Seq<char>>| r@ == backgrounds_dir_in(b),
{
    let base = config_home();
    let ghost b = opt_view(base);
    let r = backgrounds_dir_for(base);
    assert(r@ == backgrounds_dir_in(b));
    r
}

pub fn config_path_for(base: Option<String>) -> (r: String)
    ensures
        r@ == config_path_in(opt_view(base)),
{
    let dir = config_dir_for(base);
    join_path(dir.as_str(), "config.ron")
}

/// Returns ~/.config/soulless/config.ron
pub fn config_path() -> (r: String)
    ensures
        exists|b: Option<Seq<char>>| r@ == config_path_in(b),
{
    let base = config_home();
    let ghost b = opt_view(base);
    let r = config_path_for(base);
    assert(r@ == config_path_in(b));
    r
}

pub fn theme_path_for(base: Option<String>) -> (r: Option<String>)
    ensures
        opt_view(r) == theme_path_in(opt_view(base)),
        opt_view(r) == Some(join_spec(config_dir_in(opt_view(base)), "theme.ron"@)),
{
    let cfg = config_path_for(base);
    proof {
        law_config_files_side_by_side(opt_view(base));
    }
    match parent_of(cfg.as_str()) {
        Some(dir) => Some(join_path(dir.as_str(), "theme.ron")),
        None => None,
    }
}

/// ~/.config/soulless/theme.ron (sibling of config.ron): never `None`.
pub fn theme_path() -> (r: Option<String>)
    ensures
        exists|b: Option<Seq<char>>| opt_view(r) == theme_path_in(b),
        exists|b: Option<Seq<char>>| opt_view(r) == Some(join_spec(config_dir_in(b), "theme.ron"@)),
        r is Some,
{
    let base = config_home();
    let ghost b = opt_view(base);
    let r = theme_path_for(base);
    assert(opt_view(r) == theme_path_in(b));
    r
}

pub fn cache_dir_for(base: Option<String>) -> (r: String)
    ensures
        r@ == cache_dir_in(opt_view(base)),
{
    let b = base_or(base, "/tmp");
    join_path(b.as_str(), "soulless")
}

/// The directory of the index caches and the icon cache.
pub fn cache_dir() -> (r: String)
    ensures
        exists|b: Option<Seq<char>>| r@ == cache_dir_in(b),
{
    let base = cache_home();
    let ghost b = opt_view(base);
    let r = cache_dir_for(base);
    assert(r@ == cache_dir_in(b));
    r
}

pub fn cache_path_for(base: Option<String>, source: &str) -> (r: String)
    ensures
        r@ == cache_path_in(opt_view(base), source@),
{
    let dir = cache_dir_for(base);
    let file = concat_str(source, ".bin");
    join_path(dir.as_str(), file.as_str())
}

/// The cache file of one app source: `<cache>/soulless/<source>.bin`.
pub fn cache_path(source: &str) -> (r: String)
    ensures
        exists|b: Option<Seq<char>>| r@ == cache_path_in(b, source@),
{
    let base = cache_home();
    let ghost b = opt_view(base);
    let r = cache_path_for(base, source);
    assert(r@ == cache_path_in(b, source@));
    r
}

pub fn icon_cache_dir_for(base: Option<String>) -> (r: String)
    ensures
        r@ == icon_cache_dir_in(opt_view(base)),
{
    let dir = cache_dir_for(base);
    join_path(dir.as_str(), "icons")
}

/// Where rasterized SVG icons go: `<cache>/soulless/icons`.
pub fn icon_cache_dir() -> (r: String)
    ensures
        exists|b: Option<Seq<char>>| r@ == icon_cache_dir_in(b),
{
    let base = cache_home();
    let ghost b = opt_view(base);
    let r = icon_cache_dir_for(base);
    assert(r@ == icon_cache_dir_in(b));
    r
}

pub fn registry_path_for(base: Option<String>) -> (r: String)
    ensures
        r@ == registry_path_in(opt_view(base)),
{
    let b = base_or(base, "~/.local/share");
    let dir = join_path(b.as_str(), "soulless");
    join_path(dir.as_str(), "app_registry.json")
}

/// `<data>/soulless/app_registry.json`.
pub fn registry_path() -> (r: String)
    ensures
        exists|b: Option<Seq<char>>| r@ == registry_path_in(b),
{
    let base = data_local_home();
    let ghost b = opt_view(base);
    let r = registry_path_for(base);
    assert(r@ == registry_path_in(b));
    r
}

// ---------------------------------------------------------------------------
// Sandbox prefix
// ---------------------------------------------------------------------------

/// The prefix under which the host's files appear: "/run/host" inside a
/// Flatpak sandbox that mounts the host's /usr there, "" natively.
pub open spec fn host_prefix_spec(in_flatpak: bool, host_usr_mounted: bool) -> Seq<char> {
    if in_flatpak && host_usr_mounted {
        "/run/host"@
    } else {
        ""@
    }
}

/// Chooses the host prefix from what the environment shows: whether
/// `FLATPAK_ID` is set, and whether `/run/host/usr` exists.
pub fn host_prefix_for(in_flatpak: bool, host_usr_mounted: bool) -> (r: &'static str)
    ensures
        r@ == host_prefix_spec(in_flatpak, host_usr_mounted),
{
    if in_flatpak && host_usr_mounted {
        "/run/host"
    } else {
        ""
    }
}

/// Rewrite an absolute host path for the current environment.
/// `/usr/share/icons` -> `/run/host/usr/share/icons` when sandboxed.
pub fn host(prefix: &str, path: &str) -> (r: String)
    ensures
        r@ == prefix@ + path@,
{
    concat_str(prefix, path)
}

/// True when running inside the Flatpak sandbox.
pub fn sandboxed(prefix: &str) -> (b: bool)
    ensures
        b == (prefix@.len() > 0),
{
    let cs = chars_of(prefix);
    cs.len() > 0
}

// ---------------------------------------------------------------------------
// Hidden entries
// ---------------------------------------------------------------------------

pub open spec fn hidden_spec(path: Seq<char>) -> bool {
    match path_file_name(path) {
        Some(n) => n.len() > 0 && n[0] == '.',
        None => false,
    }
}

/// A path is hidden when its file name starts with a dot.
pub fn is_hidden(path: &str) -> (b: bool)
    ensures
        b == hidden_spec(path@),
{
    match file_name_of(path) {
        Some(n) => {
            let cs = chars_of(n.as_str());
            cs.len() > 0 && cs[0] == '.'
        },
        None => false,
    }
}

} // verus!
