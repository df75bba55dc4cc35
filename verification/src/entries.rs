//! Building catalog entries from what each app source found, and putting the
//! whole catalog in order.

use vstd::prelude::*;

use crate::catalog::{AppEntry, AppSource};
use crate::paths::opt_view;
use crate::sources::{desktop_field_spec, extract_desktop_field, skip_entry_spec, should_skip_entry};
use crate::text::{
    chars_of, concat_str, contains_str, ends_with_str, has_prefix, has_substring, has_suffix,
    lower_text, starts_with_str, string_views, to_lowercase, trim, trim_chars, string_of,
};
use crate::utils::{strip_desktop_placeholders, strip_placeholders_seq};

verus! {

/// `e` is a fresh entry with these fields: its lowercased name derived from
/// `name`, never launched.
pub open spec fn entry_is(
    e: AppEntry,
    id: Seq<char>,
    name: Seq<char>,
    exec_line: Seq<char>,
    icon: Seq<char>,
    source: AppSource,
    keywords: Seq<Seq<char>>,
    categories: Seq<Seq<char>>,
) -> bool {
    &&& e.id@ == id
    &&& e.name@ == name
    &&& e.exec_line@ == exec_line
    &&& e.icon_path@ == icon
    &&& e.source == source
    &&& e.lower_name@ == lower_text(name)
    &&& string_views(e.keywords@) == keywords
    &&& string_views(e.categories@) == categories
    &&& e.launch_count == 0
    &&& e.last_launched is None
    &&& e.desktop_path is None
}

fn words_vec(a: &str) -> (v: Vec<String>)
    ensures
        string_views(v@) == seq![a@],
{
    let mut v: Vec<String> = Vec::new();
    v.push(a.to_owned());
    assert(string_views(v@) =~= seq![a@]);
    v
}

fn words_vec2(a: &str, b: &str) -> (v: Vec<String>)
    ensures
        string_views(v@) == seq![a@, b@],
{
    let mut v: Vec<String> = Vec::new();
    v.push(a.to_owned());
    v.push(b.to_owned());
    assert(string_views(v@) =~= seq![a@, b@]);
    v
}

fn no_words() -> (v: Vec<String>)
    ensures
        string_views(v@) == Seq::<Seq<char>>::empty(),
{
    let v: Vec<String> = Vec::new();
    assert(string_views(v@) =~= Seq::<Seq<char>>::empty());
    v
}

fn new_entry(
    id: String,
    name: String,
    exec_line: String,
    icon: String,
    source: AppSource,
    keywords: Vec<String>,
    categories: Vec<String>,
) -> (e: AppEntry)
    ensures
        entry_is(e, id@, name@, exec_line@, icon@, source, string_views(keywords@), string_views(categories@)),
{
    let nc = chars_of(name.as_str());
    let lc = to_lowercase(nc.as_slice());
    let lower_name = string_of(lc.as_slice());
    AppEntry {
        id,
        name,
        exec_line,
        icon_path: icon,
        source,
        lower_name,
        keywords,
        categories,
        launch_count: 0,
        last_launched: None,
        desktop_path: None,
    }
}

// ---------------------------------------------------------------------------
// Desktop entries
// ---------------------------------------------------------------------------

/// Hidden entries and background services are not listed.
pub open spec fn keeps_desktop_entry(no_display: bool, exec_line: Seq<char>, name: Seq<char>) -> bool {
    !no_display && !skip_entry_spec(exec_line, name)
}

pub fn keep_desktop_entry(no_display: bool, exec_line: &str, name: &str) -> (b: bool)
    ensures
        b == keeps_desktop_entry(no_display, exec_line@, name@),
{
    !no_display && !should_skip_entry(exec_line, name)
}

/// A `.desktop` application, keyed by its file name (its name when the file
/// has none), with the Exec placeholders removed.
pub fn desktop_app(file_name: Option<&str>, name: &str, exec_line: &str, icon: String) -> (e: AppEntry)
    ensures
        entry_is(
            e,
            "desktop:"@ + match file_name {
                Some(f) => f@,
                None => name@,
            },
            name@,
            trim(strip_placeholders_seq(exec_line@)),
            icon@,
            AppSource::Desktop,
            Seq::empty(),
            Seq::empty(),
        ),
{
    let key = match file_name {
        Some(f) => f,
        None => name,
    };
    let id = concat_str("desktop:", key);
    let clean = strip_desktop_placeholders(exec_line);
    new_entry(id, name.to_owned(), clean, icon, AppSource::Desktop, no_words(), no_words())
}

/// What `freedesktop_desktop_entry` reads from a `.desktop` file's text: the
/// untranslated `Name` of its `[Desktop Entry]` group, its `Exec`,
/// `NoDisplay` and `Icon`, and its `X-Ubuntu-Gettext-Domain`; nothing when
/// the text does not parse or the path does not end in `.desktop`. These
/// are functions of the path and the text alone.
pub uninterp spec fn desktop_entry_fields(path: Seq<char>, contents: Seq<char>) -> Option<(Option<Seq<char>>, Option<Seq<char>>, bool, Option<Seq<char>>, Option<Seq<char>>)>;

/// The fields of a parsed `.desktop` file that indexing reads.
pub struct DesktopFields {
    pub name: Option<String>,
    pub exec_line: Option<String>,
    pub no_display: bool,
    pub icon: Option<String>,
    pub gettext_domain: Option<String>,
}

pub open spec fn fields_view(f: DesktopFields) -> (Option<Seq<char>>, Option<Seq<char>>, bool, Option<Seq<char>>, Option<Seq<char>>) {
    (opt_view(f.name), opt_view(f.exec_line), f.no_display, opt_view(f.icon), opt_view(f.gettext_domain))
}

/// Calls `DesktopEntry::from_str` (all locales filtered out) and reads the
/// raw `Name` (`desktop_entry("Name")`, which consults no gettext catalog,
/// so neither the locale nor files on disk enter), `exec`, `no_display`,
/// `icon` and the entry's gettext domain. The result is named; the
/// desktop-entry grammar is not stated.
#[verifier::external_body]
fn parse_desktop_entry(path: &str, contents: &str) -> (r: Option<DesktopFields>)
    ensures
        match r {
            Some(f) => desktop_entry_fields(path@, contents@) == Some(fields_view(f)),
            None => desktop_entry_fields(path@, contents@) is None,
        },
{
    let no_locales: &[&str] = &[];
    let e = freedesktop_desktop_entry::DesktopEntry::from_str(path, contents, Some(no_locales)).ok()?;
    Some(DesktopFields {
        name: e.desktop_entry("Name").map(|n| n.to_string()),
        exec_line: e.exec().map(|x| x.to_string()),
        no_display: e.no_display(),
        icon: e.icon().map(|x| x.to_string()),
        gettext_domain: e.ubuntu_gettext_domain.clone(),
    })
}

/// A parsed application: its name, Exec line and icon name.
pub struct DesktopCandidate {
    pub name: String,
    pub exec_line: String,
    pub icon: Option<String>,
}

pub open spec fn candidate_view(c: DesktopCandidate) -> (Seq<char>, Seq<char>, Option<Seq<char>>) {
    (c.name@, c.exec_line@, opt_view(c.icon))
}

/// The name an entry shows: with a gettext domain, the translation the
/// caller looked up in that domain's catalogs (when it did); otherwise the
/// `Name` as written.
pub open spec fn shown_name(raw: Seq<char>, domain: Option<Seq<char>>, translated: Option<Seq<char>>) -> Seq<char> {
    match (domain, translated) {
        (Some(_), Some(t)) => t,
        _ => raw,
    }
}

/// What a parsed `.desktop` file lists: an entry with a name and an Exec
/// line, unless `screened` and it is hidden or a background service or
/// settings panel (judged on the name it shows); Flatpak exports are not
/// screened.
pub open spec fn candidate_of(
    fields: Option<(Option<Seq<char>>, Option<Seq<char>>, bool, Option<Seq<char>>, Option<Seq<char>>)>,
    screened: bool,
    translated: Option<Seq<char>>,
) -> Option<(Seq<char>, Seq<char>, Option<Seq<char>>)> {
    match fields {
        Some((Some(raw), Some(exec_line), no_display, icon, domain)) => {
            let name = shown_name(raw, domain, translated);
            if screened && !keeps_desktop_entry(no_display, exec_line, name) {
                None
            } else {
                Some((name, exec_line, icon))
            }
        },
        _ => None,
    }
}

/// A `.desktop` file's text, parsed and then listed as `candidate_of` says.
pub open spec fn candidate_spec(path: Seq<char>, contents: Seq<char>, screened: bool, translated: Option<Seq<char>>) -> Option<(Seq<char>, Seq<char>, Option<Seq<char>>)> {
    candidate_of(desktop_entry_fields(path, contents), screened, translated)
}

pub open spec fn candidate_opt_view(o: Option<DesktopCandidate>) -> Option<(Seq<char>, Seq<char>, Option<Seq<char>>)> {
    match o {
        Some(c) => Some(candidate_view(c)),
        None => None,
    }
}

pub open spec fn fields_opt_view(f: Option<DesktopFields>) -> Option<(Option<Seq<char>>, Option<Seq<char>>, bool, Option<Seq<char>>, Option<Seq<char>>)> {
    match f {
        Some(x) => Some(fields_view(x)),
        None => None,
    }
}

/// The entry a parsed `.desktop` file gives (`None` for one that did not
/// parse); `translated` is as for `desktop_candidate`.
pub fn candidate_from_fields(fields: Option<DesktopFields>, screened: bool, translated: Option<String>) -> (r: Option<DesktopCandidate>)
    ensures
        candidate_opt_view(r) == candidate_of(fields_opt_view(fields), screened, opt_view(translated)),
{
    let f = match fields {
        Some(f) => f,
        None => return None,
    };
    let DesktopFields { name, exec_line, no_display, icon, gettext_domain } = f;
    let raw = match name {
        Some(n) => n,
        None => return None,
    };
    let exec_line = match exec_line {
        Some(x) => x,
        None => return None,
    };
    let name = match (gettext_domain, translated) {
        (Some(_), Some(t)) => t,
        _ => raw,
    };
    if screened && !keep_desktop_entry(no_display, exec_line.as_str(), name.as_str()) {
        return None;
    }
    Some(DesktopCandidate { name, exec_line, icon })
}

/// Reads one `.desktop` file's text; `screened` applies the hidden-entry
/// and service filters of the system applications index. `translated` is
/// what the entry's `Name` reads as in the user's locale through its
/// gettext domain, as the caller looked it up (catalogs on disk and the
/// locale are outside this library); it is used only for an entry that
/// names a domain.
pub fn desktop_candidate(path: &str, contents: &str, screened: bool, translated: Option<String>) -> (r: Option<DesktopCandidate>)
    ensures
        candidate_opt_view(r) == candidate_spec(path@, contents@, screened, opt_view(translated)),
{
    let fields = parse_desktop_entry(path, contents);
    candidate_from_fields(fields, screened, translated)
}

// ---------------------------------------------------------------------------
// Flatpak
// ---------------------------------------------------------------------------

/// `s` with every occurrence of the two-character `p` removed, left to
/// right (std `str::replace` with an empty replacement).
pub open spec fn remove_all2(s: Seq<char>, p: Seq<char>) -> Seq<char>
    decreases s.len(),
{
    if s.len() < 2 {
        s
    } else if s.take(2) == p {
        remove_all2(s.skip(2), p)
    } else {
        seq![s[0]] + remove_all2(s.skip(1), p)
    }
}

fn remove_all2_exec(cs: &[char], a: char, b: char) -> (r: Vec<char>)
    ensures
        r@ == remove_all2(cs@, seq![a, b]),
{
    let n = cs.len();
    let mut out: Vec<char> = Vec::new();
    let mut i: usize = 0;
    assert(cs@.skip(0) =~= cs@);
    while i < n
        invariant
            n == cs@.len(),
            i <= n,
            out@ + remove_all2(cs@.skip(i as int), seq![a, b]) == remove_all2(cs@, seq![a, b]),
        decreases n - i,
    {
        let ghost rest = cs@.skip(i as int);
        let ghost before = out@;
        if n - i >= 2 && cs[i] == a && cs[i + 1] == b {
            assert(rest.take(2) =~= seq![a, b]);
            assert(rest.skip(2) =~= cs@.skip(i + 2));
            i = i + 2;
        } else {
            proof {
                if rest.len() >= 2 {
                    assert(rest.take(2)[0] == cs@[i as int] && rest.take(2)[1] == cs@[i + 1]);
                    assert(rest.take(2) != seq![a, b]);
                }
            }
            out.push(cs[i]);
            assert(rest.skip(1) =~= cs@.skip(i + 1));
            assert(before + remove_all2(rest, seq![a, b]) =~= out@ + remove_all2(
                cs@.skip(i + 1),
                seq![a, b],
            ));
            i = i + 1;
        }
    }
    assert(cs@.skip(i as int) =~= Seq::<char>::empty());
    assert(out@ + Seq::<char>::empty() =~= out@);
    out
}

/// The Flatpak exports' Exec cleanup: `%u %U %f %F %i %c %k` removed in
/// that order, then trimmed.
pub open spec fn flatpak_exec_spec(s: Seq<char>) -> Seq<char> {
    trim(
        remove_all2(
            remove_all2(
                remove_all2(
                    remove_all2(
                        remove_all2(remove_all2(remove_all2(s, seq!['%', 'u']), seq!['%', 'U']), seq!['%', 'f']),
                        seq!['%', 'F'],
                    ),
                    seq!['%', 'i'],
                ),
                seq!['%', 'c'],
            ),
            seq!['%', 'k'],
        ),
    )
}

pub fn strip_flatpak_placeholders(exec_line: &str) -> (r: String)
    ensures
        r@ == flatpak_exec_spec(exec_line@),
{
    let s0 = chars_of(exec_line);
    let s1 = remove_all2_exec(s0.as_slice(), '%', 'u');
    let s2 = remove_all2_exec(s1.as_slice(), '%', 'U');
    let s3 = remove_all2_exec(s2.as_slice(), '%', 'f');
    let s4 = remove_all2_exec(s3.as_slice(), '%', 'F');
    let s5 = remove_all2_exec(s4.as_slice(), '%', 'i');
    let s6 = remove_all2_exec(s5.as_slice(), '%', 'c');
    let s7 = remove_all2_exec(s6.as_slice(), '%', 'k');
    let t = trim_chars(s7.as_slice());
    string_of(t.as_slice())
}

/// A Flatpak application.
pub fn flatpak_app(file_name: Option<&str>, name: &str, exec_line: &str, icon: String) -> (e: AppEntry)
    ensures
        entry_is(
            e,
            "flatpak:"@ + match file_name {
                Some(f) => f@,
                None => name@,
            },
            name@,
            flatpak_exec_spec(exec_line@),
            icon@,
            AppSource::Flatpak,
            seq!["flatpak"@],
            seq!["Flatpak"@],
        ),
{
    let key = match file_name {
        Some(f) => f,
        None => name,
    };
    let id = concat_str("flatpak:", key);
    let clean = strip_flatpak_placeholders(exec_line);
    new_entry(
        id,
        name.to_owned(),
        clean,
        icon,
        AppSource::Flatpak,
        words_vec("flatpak"),
        words_vec("Flatpak"),
    )
}

// ---------------------------------------------------------------------------
// Steam
// ---------------------------------------------------------------------------

pub fn is_steam_manifest(file_name: &str) -> (b: bool)
    ensures
        b == has_prefix(file_name@, "appmanifest_"@),
{
    let cs = chars_of(file_name);
    starts_with_str(cs.as_slice(), "appmanifest_")
}

/// An installed Steam game.
pub fn steam_app(appid: &str, game_name: &str, icon: String) -> (e: AppEntry)
    ensures
        entry_is(
            e,
            "steam:"@ + appid@,
            game_name@,
            "steam steam://rungameid/"@ + appid@,
            icon@,
            AppSource::Steam,
            seq!["steam"@, "game"@],
            seq!["Games"@],
        ),
{
    new_entry(
        concat_str("steam:", appid),
        game_name.to_owned(),
        concat_str("steam steam://rungameid/", appid),
        icon,
        AppSource::Steam,
        words_vec2("steam", "game"),
        words_vec("Games"),
    )
}

// ---------------------------------------------------------------------------
// Commands on PATH
// ---------------------------------------------------------------------------

/// Shells, interpreters and mount tools are not listed as commands.
pub open spec fn cli_blacklisted_spec(name: Seq<char>) -> bool {
    ||| name == "sudo"@ || name == "mount"@ || name == "umount"@ || name == "sh"@
    ||| name == "bash"@ || name == "dash"@ || name == "zsh"@ || name == "python"@
    ||| name == "python3"@ || name == "perl"@ || name == "ruby"@ || name == "node"@
}

pub fn cli_blacklisted(name: &str) -> (b: bool)
    ensures
        b == cli_blacklisted_spec(name@),
{
    let cs = chars_of(name);
    let c = cs.as_slice();
    crate::text::chars_eq_str(c, "sudo") || crate::text::chars_eq_str(c, "mount")
        || crate::text::chars_eq_str(c, "umount") || crate::text::chars_eq_str(c, "sh")
        || crate::text::chars_eq_str(c, "bash") || crate::text::chars_eq_str(c, "dash")
        || crate::text::chars_eq_str(c, "zsh") || crate::text::chars_eq_str(c, "python")
        || crate::text::chars_eq_str(c, "python3") || crate::text::chars_eq_str(c, "perl")
        || crate::text::chars_eq_str(c, "ruby") || crate::text::chars_eq_str(c, "node")
}

/// A command is kept when it has a section-1 man page and its name is not
/// noise: longer than two bytes, not an architecture-prefixed tool, not a
/// `config` helper.
pub open spec fn keeps_cli_spec(name: Seq<char>, has_man: bool) -> bool {
    &&& has_man
    &&& (vstd::utf8::encode_utf8(name).len() as usize) > 2
    &&& !has_prefix(name, "x86_64"@)
    &&& !has_prefix(name, "arm"@)
    &&& !has_substring(name, "config"@)
    &&& !has_suffix(name, "-config"@)
}

/// Commands never listed: privilege and mount tools, shells and
/// interpreters.
pub open spec fn cli_blacklist() -> Seq<Seq<char>> {
    seq!["sudo"@, "mount"@, "umount"@, "sh"@, "bash"@, "dash"@, "zsh"@, "python"@, "python3"@, "perl"@, "ruby"@, "node"@]
}

/// Every command of the blacklist is refused; a command is kept only with
/// a man page, and never when its name is two bytes or less, starts with
/// `x86_64` or `arm`, or mentions `config`.
pub proof fn law_cli_listing(k: int, name: Seq<char>, has_man: bool)
    requires
        0 <= k < cli_blacklist().len(),
    ensures
        cli_blacklisted_spec(cli_blacklist()[k]),
        !has_man ==> !keeps_cli_spec(name, has_man),
        has_prefix(name, "x86_64"@) || has_prefix(name, "arm"@) || has_substring(name, "config"@)
            || vstd::utf8::encode_utf8(name).len() <= 2 ==> !keeps_cli_spec(name, has_man),
{
}

pub fn keep_cli_command(name: &str, has_man: bool) -> (b: bool)
    ensures
        b == keeps_cli_spec(name@, has_man),
{
    let cs = chars_of(name);
    let c = cs.as_slice();
    has_man && name.len() > 2 && !starts_with_str(c, "x86_64") && !starts_with_str(c, "arm")
        && !contains_str(c, "config") && !ends_with_str(c, "-config")
}

/// A command: clicking it shows its `--help` in a terminal pager.
pub fn binary_app(path: &str, name: &str, icon: String) -> (e: AppEntry)
    ensures
        entry_is(
            e,
            "binary:"@ + path@,
            name@,
            "cosmic-term -e sh -c '"@ + name@ + " --help 2>&1 | less'"@,
            icon@,
            AppSource::Binary,
            Seq::empty(),
            seq!["Binary"@],
        ),
{
    let head = concat_str("cosmic-term -e sh -c '", name);
    let exec_line = concat_str(head.as_str(), " --help 2>&1 | less'");
    new_entry(
        concat_str("binary:", path),
        name.to_owned(),
        exec_line,
        icon,
        AppSource::Binary,
        no_words(),
        words_vec("Binary"),
    )
}

// ---------------------------------------------------------------------------
// AppImages
// ---------------------------------------------------------------------------

/// A file is listed as an AppImage when its extension is exactly
/// `AppImage`.
pub fn is_appimage_path(path: &str) -> (b: bool)
    ensures
        b == (crate::paths::path_extension(path@) == Some("AppImage"@)),
{
    proof {
        reveal_strlit("AppImage");
    }
    match crate::paths::extension_of(path) {
        Some(e) => {
            let cs = chars_of(e.as_str());
            crate::text::chars_eq_str(cs.as_slice(), "AppImage")
        },
        None => false,
    }
}

/// Underscores read as spaces.
pub open spec fn spaced(s: Seq<char>) -> Seq<char> {
    s.map_values(|c: char| if c == '_' { ' ' } else { c })
}

/// A portable AppImage, named by its file stem with underscores read as
/// spaces, launched by its path.
pub fn appimage_app(path: &str, stem: &str, icon: String) -> (e: AppEntry)
    ensures
        entry_is(
            e,
            "appimage:"@ + path@,
            spaced(stem@),
            path@,
            icon@,
            AppSource::AppImage,
            seq!["appimage"@],
            seq!["Portable"@],
        ),
{
    let cs = chars_of(stem);
    let mut v: Vec<char> = Vec::new();
    let mut i: usize = 0;
    while i < cs.len()
        invariant
            i <= cs@.len(),
            v@ == spaced(cs@.take(i as int)),
        decreases cs@.len() - i,
    {
        v.push(if cs[i] == '_' { ' ' } else { cs[i] });
        assert(spaced(cs@.take(i + 1)) =~= spaced(cs@.take(i as int)).push(
            if cs@[i as int] == '_' { ' ' } else { cs@[i as int] },
        ));
        i = i + 1;
    }
    assert(cs@.take(cs@.len() as int) =~= cs@);
    let name = string_of(v.as_slice());
    new_entry(
        concat_str("appimage:", path),
        name,
        path.to_owned(),
        icon,
        AppSource::AppImage,
        words_vec("appimage"),
        words_vec("Portable"),
    )
}

// ---------------------------------------------------------------------------
// Files and folders
// ---------------------------------------------------------------------------

/// Folders directly in home that are never listed.
pub open spec fn home_excluded_spec(name: Seq<char>) -> bool {
    name == "snap"@ || name == "flatpak"@ || name == "node_modules"@ || name == "target"@
}

/// Folders of home that hold packages or build output, never listed.
pub open spec fn home_exclusions() -> Seq<Seq<char>> {
    seq!["snap"@, "flatpak"@, "node_modules"@, "target"@]
}

/// Each of those folders is left out of the file index.
pub proof fn law_home_exclusions(k: int)
    requires
        0 <= k < home_exclusions().len(),
    ensures
        home_excluded_spec(home_exclusions()[k]),
{
}

pub fn home_excluded(name: &str) -> (b: bool)
    ensures
        b == home_excluded_spec(name@),
{
    let cs = chars_of(name);
    let c = cs.as_slice();
    crate::text::chars_eq_str(c, "snap") || crate::text::chars_eq_str(c, "flatpak")
        || crate::text::chars_eq_str(c, "node_modules") || crate::text::chars_eq_str(c, "target")
}

/// A file or folder, opened with `xdg-open`.
pub fn file_app(path: &str, file_name: &str, is_dir: bool, folder_icon: &str, file_icon: &str) -> (e: AppEntry)
    ensures
        entry_is(
            e,
            "file:"@ + path@,
            file_name@,
            "xdg-open "@ + path@,
            if is_dir {
                folder_icon@
            } else {
                file_icon@
            },
            if is_dir {
                AppSource::Folder
            } else {
                AppSource::File
            },
            Seq::empty(),
            seq!["File"@],
        ),
{
    let icon = if is_dir {
        folder_icon.to_owned()
    } else {
        file_icon.to_owned()
    };
    new_entry(
        concat_str("file:", path),
        file_name.to_owned(),
        concat_str("xdg-open ", path),
        icon,
        if is_dir {
            AppSource::Folder
        } else {
            AppSource::File
        },
        no_words(),
        words_vec("File"),
    )
}

// ---------------------------------------------------------------------------
// JetBrains
// ---------------------------------------------------------------------------

/// A JetBrains Toolbox launcher script `<stem>.sh`.
pub fn jetbrains_toolbox_app(stem: &str, script: &str) -> (e: AppEntry)
    ensures
        entry_is(
            e,
            "jetbrains:"@ + stem@,
            crate::sources::product_name(stem@),
            script@,
            crate::icons::fallback_icon_spec(),
            AppSource::JetBrains,
            seq!["jetbrains"@, "ide"@],
            seq!["Development"@],
        ),
{
    new_entry(
        concat_str("jetbrains:", stem),
        crate::sources::format_name(stem),
        script.to_owned(),
        crate::icons::fallback_icon(),
        AppSource::JetBrains,
        words_vec2("jetbrains", "ide"),
        words_vec("Development"),
    )
}

/// A `.desktop` file in the user's applications that JetBrains wrote.
pub fn is_jetbrains_desktop_name(file_name: &str) -> (b: bool)
    ensures
        b == (has_substring(file_name@, "jetbrains"@) || has_substring(file_name@, "JetBrains"@)),
{
    let cs = chars_of(file_name);
    contains_str(cs.as_slice(), "jetbrains") || contains_str(cs.as_slice(), "JetBrains")
}

pub open spec fn field_or_empty(contents: Seq<char>, field: Seq<char>) -> Seq<char> {
    match desktop_field_spec(contents, field) {
        Some(v) => v,
        None => Seq::empty(),
    }
}

/// A JetBrains `.desktop` file: listed when it has a Name and an Exec; its
/// Icon, else the fallback icon.
pub fn jetbrains_desktop_app(contents: &str) -> (r: Option<AppEntry>)
    ensures
        match r {
            Some(e) => {
                let name = field_or_empty(contents@, "Name"@);
                let exec_line = field_or_empty(contents@, "Exec"@);
                let icon = field_or_empty(contents@, "Icon"@);
                &&& name.len() > 0 && exec_line.len() > 0
                &&& entry_is(
                    e,
                    "jetbrains-desktop:"@ + name,
                    name,
                    exec_line,
                    if icon.len() == 0 {
                        crate::icons::fallback_icon_spec()
                    } else {
                        icon
                    },
                    AppSource::JetBrains,
                    seq!["jetbrains"@, "ide"@],
                    seq!["Development"@],
                )
            },
            None => field_or_empty(contents@, "Name"@).len() == 0 || field_or_empty(
                contents@,
                "Exec"@,
            ).len() == 0,
        },
{
    let name = match extract_desktop_field(contents, "Name") {
        Some(v) => v,
        None => String::new(),
    };
    let exec_line = match extract_desktop_field(contents, "Exec") {
        Some(v) => v,
        None => String::new(),
    };
    let icon = match extract_desktop_field(contents, "Icon") {
        Some(v) => v,
        None => String::new(),
    };
    let nc = chars_of(name.as_str());
    let ec = chars_of(exec_line.as_str());
    let ic = chars_of(icon.as_str());
    if nc.len() == 0 || ec.len() == 0 {
        return None;
    }
    let icon_path = if ic.len() == 0 {
        crate::icons::fallback_icon()
    } else {
        icon
    };
    let id = concat_str("jetbrains-desktop:", name.as_str());
    Some(
        new_entry(
            id,
            name,
            exec_line,
            icon_path,
            AppSource::JetBrains,
            words_vec2("jetbrains", "ide"),
            words_vec("Development"),
        ),
    )
}

// ---------------------------------------------------------------------------
// Wine
// ---------------------------------------------------------------------------

/// A Start Menu shortcut `<stem>.lnk` of a Wine prefix; uninstallers and
/// setup programs are left out.
pub fn wine_app(path: &str, stem: &str) -> (r: Option<AppEntry>)
    ensures
        match r {
            Some(e) => {
                &&& !has_substring(lower_text(stem@), "uninstall"@)
                &&& !has_substring(lower_text(stem@), "setup"@)
                &&& entry_is(
                    e,
                    "wine:"@ + path@,
                    stem@,
                    "wine start /unix \""@ + path@ + "\""@,
                    crate::icons::fallback_icon_spec(),
                    AppSource::Wine,
                    seq!["wine"@, "windows"@],
                    seq!["Wine"@],
                )
            },
            None => has_substring(lower_text(stem@), "uninstall"@) || has_substring(
                lower_text(stem@),
                "setup"@,
            ),
        },
{
    let sc = chars_of(stem);
    let lower = to_lowercase(sc.as_slice());
    if contains_str(lower.as_slice(), "uninstall") || contains_str(lower.as_slice(), "setup") {
        return None;
    }
    let head = concat_str("wine start /unix \"", path);
    let exec_line = concat_str(head.as_str(), "\"");
    Some(
        new_entry(
            concat_str("wine:", path),
            stem.to_owned(),
            exec_line,
            crate::icons::fallback_icon(),
            AppSource::Wine,
            words_vec2("wine", "windows"),
            words_vec("Wine"),
        ),
    )
}

} // verus!
