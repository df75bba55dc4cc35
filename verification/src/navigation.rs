//! Keyboard navigation decisions: moving the focus through the results
//! grid, stepping between drawers, the Tab cycle, and what Enter launches.
//! The caller carries out the decision (focus a widget, open a drawer).

use vstd::prelude::*;

use crate::seqs::{first_at, first_index, lemma_found_first};
use crate::text::{chars_of, parse_unsigned, parse_unsigned_chars, string_views, trim, trim_str};
use crate::utils::{existing_paths, kept_existing, parse_uri_list, uri_list_paths};

verus! {

/// Every page the dot strip can select.
#[derive(Debug, Clone, Copy, PartialEq, Eq, Structural)]
pub enum Page {
    /// Home base: the 2×2 monitor grid. Where every summon starts.
    Monitors,
    /// The scratch command box, wearing the whole 2×2 footprint.
    Terminal,
}

// ---------------------------------------------------------------------------
// Results grid
// ---------------------------------------------------------------------------

/// ArrowDown in a grid of `len` items, `cols` per row: from nothing to the
/// first item; one row down when there is an item there; from above a
/// partial last row to the last item; in the last row, stay.
pub open spec fn grid_down_spec(focused: Option<usize>, len: nat, cols: nat) -> nat {
    match focused {
        None => 0,
        Some(i) => if i + cols < len {
            (i + cols) as nat
        } else if (i as int) / (cols as int) < (len - 1) / (cols as int) {
            (len - 1) as nat
        } else {
            i as nat
        },
    }
}

pub fn grid_down(focused: Option<usize>, len: usize, cols: usize) -> (next: usize)
    requires
        len > 0,
        cols > 0,
    ensures
        next == grid_down_spec(focused, len as nat, cols as nat),
        (focused is None || focused->0 < len) ==> next < len,
{
    match focused {
        None => 0,
        Some(i) => {
            if i < len && cols < len - i {
                i + cols
            } else if i / cols < (len - 1) / cols {
                len - 1
            } else {
                i
            }
        },
    }
}

/// ArrowUp in the grid: one row up, or `None` from the top row (or with
/// nothing focused), which hands the focus back to the search bar.
pub open spec fn grid_up_spec(focused: Option<usize>, cols: nat) -> Option<nat> {
    match focused {
        Some(i) => if i >= cols {
            Some((i - cols) as nat)
        } else {
            None
        },
        None => None,
    }
}

pub fn grid_up(focused: Option<usize>, cols: usize) -> (r: Option<usize>)
    ensures
        match r {
            Some(j) => grid_up_spec(focused, cols as nat) == Some(j as nat),
            None => grid_up_spec(focused, cols as nat) is None,
        },
{
    match focused {
        Some(i) => if i >= cols {
            Some(i - cols)
        } else {
            None
        },
        None => None,
    }
}

// ---------------------------------------------------------------------------
// Drawers
// ---------------------------------------------------------------------------

/// Position of the open drawer, 0 when it is not found.
pub open spec fn open_index(names: Seq<Seq<char>>, open: Seq<char>) -> int {
    if names.contains(open) {
        first_index(names, open)
    } else {
        0
    }
}

/// ArrowDown outside the grid: the drawer after the open one (none after
/// the last), or the first drawer when none is open.
pub open spec fn next_drawer_spec(names: Seq<Seq<char>>, open: Option<Seq<char>>) -> Option<Seq<char>> {
    match open {
        Some(name) => {
            let i = open_index(names, name);
            if i + 1 < names.len() {
                Some(names[i + 1])
            } else {
                None
            }
        },
        None => if names.len() > 0 {
            Some(names[0])
        } else {
            None
        },
    }
}

/// ArrowUp outside the grid: the drawer before the open one, if any.
pub open spec fn prev_drawer_spec(names: Seq<Seq<char>>, open: Option<Seq<char>>) -> Option<Seq<char>> {
    match open {
        Some(name) => {
            let i = open_index(names, name);
            if i > 0 && i < names.len() + 1 {
                Some(names[i - 1])
            } else {
                None
            }
        },
        None => None,
    }
}

pub open spec fn str_opt_view(o: Option<&str>) -> Option<Seq<char>> {
    match o {
        Some(s) => Some(s@),
        None => None,
    }
}

fn position(names: &[String], name: &str) -> (r: Option<usize>)
    ensures
        match r {
            Some(i) => string_views(names@).contains(name@) && i == first_index(string_views(names@), name@)
                && i < names@.len(),
            None => !string_views(names@).contains(name@),
        },
{
    let key = name.to_owned();
    let mut i: usize = 0;
    while i < names.len()
        invariant
            key@ == name@,
            i <= names@.len(),
            forall|j: int| 0 <= j < i ==> #[trigger] string_views(names@)[j] != name@,
        decreases names@.len() - i,
    {
        if names[i] == key {
            proof {
                assert(first_at(string_views(names@), name@, i as int));
                lemma_found_first(string_views(names@), name@, i as int);
            }
            return Some(i);
        }
        i = i + 1;
    }
    assert(!string_views(names@).contains(name@)) by {
        if string_views(names@).contains(name@) {
            let j = choose|j: int| 0 <= j < names@.len() && string_views(names@)[j] == name@;
            assert(string_views(names@)[j] != name@);
        }
    }
    None
}

fn open_index_exec(names: &[String], name: &str) -> (i: usize)
    ensures
        i as int == open_index(string_views(names@), name@),
        names@.len() > 0 ==> i < names@.len(),
{
    match position(names, name) {
        Some(i) => i,
        None => 0,
    }
}

pub fn next_drawer(names: &[String], open: Option<&str>) -> (r: Option<String>)
    ensures
        crate::paths::opt_view(r) == next_drawer_spec(string_views(names@), str_opt_view(open)),
{
    match open {
        Some(name) => {
            let i = open_index_exec(names, name);
            if names.len() > 0 && i < names.len() - 1 {
                Some(names[i + 1].clone())
            } else {
                None
            }
        },
        None => if names.len() > 0 {
            Some(names[0].clone())
        } else {
            None
        },
    }
}

pub fn prev_drawer(names: &[String], open: Option<&str>) -> (r: Option<String>)
    ensures
        crate::paths::opt_view(r) == prev_drawer_spec(string_views(names@), str_opt_view(open)),
{
    match open {
        Some(name) => {
            let i = open_index_exec(names, name);
            if i > 0 && i <= names.len() {
                Some(names[i - 1].clone())
            } else {
                None
            }
        },
        None => None,
    }
}

/// Where Tab moves the focus.
#[derive(Debug, PartialEq, Eq)]
pub enum TabTarget {
    /// There are no drawers: clear the open drawer and focus the search bar.
    NoDrawers,
    /// Back to the search bar after the last drawer.
    SearchBar,
    /// Open and focus this drawer.
    Drawer(String),
}

pub enum TabView {
    NoDrawers,
    SearchBar,
    Drawer(Seq<char>),
}

pub open spec fn tab_view(t: TabTarget) -> TabView {
    match t {
        TabTarget::NoDrawers => TabView::NoDrawers,
        TabTarget::SearchBar => TabView::SearchBar,
        TabTarget::Drawer(n) => TabView::Drawer(n@),
    }
}

/// Tab cycles Search -> first drawer -> ... -> last drawer -> Search.
pub open spec fn tab_spec(names: Seq<Seq<char>>, open: Option<Seq<char>>) -> TabView {
    if names.len() == 0 {
        TabView::NoDrawers
    } else {
        match open {
            Some(name) => if names.contains(name) {
                let i = first_index(names, name);
                if i + 1 < names.len() {
                    TabView::Drawer(names[i + 1])
                } else {
                    TabView::SearchBar
                }
            } else {
                TabView::Drawer(names[0])
            },
            None => TabView::Drawer(names[0]),
        }
    }
}

pub fn tab_target(names: &[String], open: Option<&str>) -> (t: TabTarget)
    ensures
        tab_view(t) == tab_spec(string_views(names@), str_opt_view(open)),
{
    if names.len() == 0 {
        return TabTarget::NoDrawers;
    }
    let current = match open {
        Some(name) => position(names, name),
        None => None,
    };
    match current {
        Some(i) => if i + 1 < names.len() {
            TabTarget::Drawer(names[i + 1].clone())
        } else {
            TabTarget::SearchBar
        },
        None => TabTarget::Drawer(names[0].clone()),
    }
}

/// With distinct drawer names, Tab visits every drawer in order and then
/// the search bar: from the search bar to the first drawer, from each
/// drawer to the next, from the last back to the search bar.
pub proof fn law_tab_cycle(names: Seq<Seq<char>>)
    requires
        names.len() > 0,
        names.no_duplicates(),
    ensures
        tab_spec(names, None) == TabView::Drawer(names[0]),
        forall|i: int| 0 <= i < names.len() - 1 ==> tab_spec(names, Some(#[trigger] names[i])) == TabView::Drawer(
            names[i + 1],
        ),
        tab_spec(names, Some(names[names.len() - 1])) == TabView::SearchBar,
{
    assert forall|i: int| 0 <= i < names.len() implies first_index(names, #[trigger] names[i]) == i by {
        assert(first_at(names, names[i], i));
        lemma_found_first(names, names[i], i);
    }
    assert(first_index(names, names[names.len() - 1]) == names.len() - 1);
}

// ---------------------------------------------------------------------------
// Enter
// ---------------------------------------------------------------------------

/// What Enter launches: nothing on the terminal page (the command box owns
/// Enter); the focused result's command if it has one; otherwise the top
/// result's command, but only when a query was typed and results show.
pub open spec fn enter_spec(
    on_terminal: bool,
    focused_exec: Option<Seq<char>>,
    query: Seq<char>,
    show_results: bool,
    top_exec: Option<Seq<char>>,
) -> Option<Seq<char>> {
    if on_terminal {
        None
    } else if focused_exec is Some {
        focused_exec
    } else if trim(query).len() > 0 && show_results && top_exec is Some {
        top_exec
    } else {
        None
    }
}

pub fn enter_launch(
    page: Page,
    focused_exec: Option<String>,
    query: &str,
    show_results: bool,
    top_exec: Option<String>,
) -> (r: Option<String>)
    ensures
        crate::paths::opt_view(r) == enter_spec(
            page == Page::Terminal,
            crate::paths::opt_view(focused_exec),
            query@,
            show_results,
            crate::paths::opt_view(top_exec),
        ),
{
    if page == Page::Terminal {
        return None;
    }
    if focused_exec.is_some() {
        return focused_exec;
    }
    let t = trim_str(query);
    if t.len() > 0 && show_results && top_exec.is_some() {
        return top_exec;
    }
    None
}

/// Ctrl plus a digit key opens a drawer directly: the key's text read as
/// a number `n` (an optional `+`, then decimal digits) opens drawer `n`,
/// counting from one; any other text, zero, or a number past the last
/// drawer opens nothing.
pub open spec fn digit_jump_spec(names: Seq<Seq<char>>, key: Seq<char>) -> Option<Seq<char>> {
    match parse_unsigned(key, names.len()) {
        Some(n) => if n >= 1 {
            Some(names[n - 1])
        } else {
            None
        },
        None => None,
    }
}

pub fn drawer_for_digit(names: &[String], key: &str) -> (r: Option<String>)
    ensures
        crate::paths::opt_view(r) == digit_jump_spec(string_views(names@), key@),
{
    let cs = chars_of(key);
    let bound: u64 = names.len() as u64;
    match parse_unsigned_chars(cs.as_slice(), bound) {
        Some(n) => if n >= 1 {
            Some(names[(n - 1) as usize].clone())
        } else {
            None
        },
        None => None,
    }
}

/// What is open when something is dropped on the launcher.
#[derive(Debug, Clone, PartialEq, Eq)]
pub enum DropSite {
    /// The search view: drops land nowhere.
    Search,
    /// The vault drawer.
    Vault,
    /// A pinned drawer, by name.
    Pinned(String),
}

/// What a drop hands on.
#[derive(Debug, PartialEq, Eq)]
pub enum DropEffect {
    /// Nothing to hand on (only the hover highlights are cleared).
    Nothing,
    /// These files go into the vault.
    Vault(Vec<String>),
    /// These files go into the named drawer.
    Drawer(String, Vec<String>),
}

pub enum DropSiteView {
    Search,
    Vault,
    Pinned(Seq<char>),
}

pub enum DropEffectView {
    Nothing,
    Vault(Seq<Seq<char>>),
    Drawer(Seq<char>, Seq<Seq<char>>),
}

pub open spec fn drop_site_view(s: DropSite) -> DropSiteView {
    match s {
        DropSite::Search => DropSiteView::Search,
        DropSite::Vault => DropSiteView::Vault,
        DropSite::Pinned(n) => DropSiteView::Pinned(n@),
    }
}

pub open spec fn drop_effect_view(e: DropEffect) -> DropEffectView {
    match e {
        DropEffect::Nothing => DropEffectView::Nothing,
        DropEffect::Vault(v) => DropEffectView::Vault(string_views(v@)),
        DropEffect::Drawer(n, v) => DropEffectView::Drawer(n@, string_views(v@)),
    }
}

pub open spec fn uri_list_mime() -> Seq<char> {
    seq!['t', 'e', 'x', 't', '/', 'u', 'r', 'i', '-', 'l', 'i', 's', 't']
}

/// Only a `text/uri-list` payload that names at least one existing local
/// file is handed on, to the vault or to the open pinned drawer. `exists[k]`
/// answers whether the `k`-th `file://` path of the payload exists.
pub open spec fn drop_spec(site: DropSiteView, mime: Seq<char>, data: Seq<u8>, exists: Seq<bool>) -> DropEffectView {
    let paths = kept_existing(uri_list_paths(data), exists);
    if mime != uri_list_mime() || paths.len() == 0 {
        DropEffectView::Nothing
    } else {
        match site {
            DropSiteView::Search => DropEffectView::Nothing,
            DropSiteView::Vault => DropEffectView::Vault(paths),
            DropSiteView::Pinned(n) => DropEffectView::Drawer(n, paths),
        }
    }
}

/// `exists[k]` is the caller's answer for the `k`-th path that
/// `parse_uri_list` finds in `data`.
pub fn drop_effect(site: &DropSite, mime: &str, data: &[u8], exists: &[bool]) -> (e: DropEffect)
    ensures
        drop_effect_view(e) == drop_spec(drop_site_view(*site), mime@, data@, exists@),
{
    let m = chars_of(mime);
    let want = chars_of("text/uri-list");
    proof {
        reveal_strlit("text/uri-list");
    }
    assert(want@ =~= uri_list_mime());
    if !crate::text::chars_eq(m.as_slice(), want.as_slice()) {
        return DropEffect::Nothing;
    }
    if let DropSite::Search = site {
        return DropEffect::Nothing;
    }
    let found = parse_uri_list(data);
    let paths = existing_paths(found, exists);
    if paths.len() == 0 {
        return DropEffect::Nothing;
    }
    match site {
        DropSite::Vault => DropEffect::Vault(paths),
        DropSite::Pinned(n) => DropEffect::Drawer(n.clone(), paths),
        DropSite::Search => DropEffect::Nothing,
    }
}

// ---------------------------------------------------------------------------
// Key presses
// ---------------------------------------------------------------------------

/// Tiles per row in the results grid.
pub const GRID_COLUMNS: usize = 4;

/// A key press the launcher reacts to.
#[derive(Debug, Clone, PartialEq, Eq)]
pub enum Key {
    Escape,
    ArrowDown,
    ArrowUp,
    ArrowLeft,
    ArrowRight,
    Enter,
    /// A key that types text.
    Character(String),
    /// Any other named key.
    Other,
}

/// What a key press asks the launcher to do.
#[derive(Debug, Clone, PartialEq, Eq)]
pub enum KeyCommand {
    /// Nothing.
    Nothing,
    /// Close the launcher.
    Close,
    /// Keep the focused result in view; nothing else changes.
    ScrollToFocus,
    /// Focus this result and keep it in view.
    FocusResult(usize),
    /// Clear the focused result and focus the search bar.
    ClearFocus,
    /// Open this drawer and focus its button.
    OpenDrawer(String),
    /// Record and launch this Exec line, then close.
    Launch(String),
    /// Focus the next result and keep it in view.
    FocusNext,
    /// Focus the previous result and keep it in view.
    FocusPrev,
    /// Clear the query and focus the search bar.
    FocusSearch,
    /// Open the vault and focus its password field.
    OpenVault,
}

pub enum KeyCommandView {
    Nothing,
    Close,
    ScrollToFocus,
    FocusResult(nat),
    ClearFocus,
    OpenDrawer(Seq<char>),
    Launch(Seq<char>),
    FocusNext,
    FocusPrev,
    FocusSearch,
    OpenVault,
}

pub open spec fn key_command_view(c: KeyCommand) -> KeyCommandView {
    match c {
        KeyCommand::Nothing => KeyCommandView::Nothing,
        KeyCommand::Close => KeyCommandView::Close,
        KeyCommand::ScrollToFocus => KeyCommandView::ScrollToFocus,
        KeyCommand::FocusResult(i) => KeyCommandView::FocusResult(i as nat),
        KeyCommand::ClearFocus => KeyCommandView::ClearFocus,
        KeyCommand::OpenDrawer(n) => KeyCommandView::OpenDrawer(n@),
        KeyCommand::Launch(e) => KeyCommandView::Launch(e@),
        KeyCommand::FocusNext => KeyCommandView::FocusNext,
        KeyCommand::FocusPrev => KeyCommandView::FocusPrev,
        KeyCommand::FocusSearch => KeyCommandView::FocusSearch,
        KeyCommand::OpenVault => KeyCommandView::OpenVault,
    }
}

pub open spec fn drawer_command(n: Option<Seq<char>>) -> KeyCommandView {
    match n {
        Some(d) => KeyCommandView::OpenDrawer(d),
        None => KeyCommandView::Nothing,
    }
}

/// What each key does. `open` is the open pinned drawer (none on the
/// search view or the vault), `in_search` whether the search view is open,
/// `show_results` whether the results grid shows, `len` its size,
/// `focused` the focused result and `focused_exec` its Exec line.
/// Arrows move through the grid while it shows, else between drawers; a
/// Ctrl+digit opens a drawer by position; `s` and `v` act only outside the
/// search view.
pub open spec fn key_spec(
    key: Key,
    ctrl: bool,
    names: Seq<Seq<char>>,
    open: Option<Seq<char>>,
    in_search: bool,
    show_results: bool,
    len: nat,
    focused: Option<usize>,
    focused_exec: Option<Seq<char>>,
) -> KeyCommandView {
    match key {
        Key::Escape => KeyCommandView::Close,
        Key::ArrowDown => if show_results {
            if len > 0 {
                KeyCommandView::FocusResult(grid_down_spec(focused, len, GRID_COLUMNS as nat))
            } else {
                KeyCommandView::ScrollToFocus
            }
        } else {
            drawer_command(next_drawer_spec(names, open))
        },
        Key::ArrowUp => if show_results {
            match grid_up_spec(focused, GRID_COLUMNS as nat) {
                Some(j) => KeyCommandView::FocusResult(j),
                None => KeyCommandView::ClearFocus,
            }
        } else {
            drawer_command(prev_drawer_spec(names, open))
        },
        Key::Enter => match (focused, focused_exec) {
            (Some(_), Some(e)) => KeyCommandView::Launch(e),
            _ => KeyCommandView::Nothing,
        },
        Key::ArrowRight => KeyCommandView::FocusNext,
        Key::ArrowLeft => KeyCommandView::FocusPrev,
        Key::Character(c) => if ctrl {
            drawer_command(digit_jump_spec(names, c@))
        } else if c@ == seq!['s'] && !in_search {
            KeyCommandView::FocusSearch
        } else if c@ == seq!['v'] && !in_search {
            KeyCommandView::OpenVault
        } else {
            KeyCommandView::Nothing
        },
        Key::Other => KeyCommandView::Nothing,
    }
}

fn drawer_command_exec(n: Option<String>) -> (c: KeyCommand)
    ensures
        key_command_view(c) == drawer_command(crate::paths::opt_view(n)),
{
    match n {
        Some(d) => KeyCommand::OpenDrawer(d),
        None => KeyCommand::Nothing,
    }
}

/// Decide what a key press does; the caller carries it out.
pub fn key_command(
    key: &Key,
    ctrl: bool,
    names: &[String],
    open: Option<&str>,
    in_search: bool,
    show_results: bool,
    len: usize,
    focused: Option<usize>,
    focused_exec: Option<String>,
) -> (c: KeyCommand)
    ensures
        key_command_view(c) == key_spec(
            *key,
            ctrl,
            string_views(names@),
            str_opt_view(open),
            in_search,
            show_results,
            len as nat,
            focused,
            crate::paths::opt_view(focused_exec),
        ),
{
    match key {
        Key::Escape => KeyCommand::Close,
        Key::ArrowDown => if show_results {
            if len > 0 {
                KeyCommand::FocusResult(grid_down(focused, len, GRID_COLUMNS))
            } else {
                KeyCommand::ScrollToFocus
            }
        } else {
            drawer_command_exec(next_drawer(names, open))
        },
        Key::ArrowUp => if show_results {
            match grid_up(focused, GRID_COLUMNS) {
                Some(j) => KeyCommand::FocusResult(j),
                None => KeyCommand::ClearFocus,
            }
        } else {
            drawer_command_exec(prev_drawer(names, open))
        },
        Key::Enter => match (focused, focused_exec) {
            (Some(_), Some(e)) => KeyCommand::Launch(e),
            _ => KeyCommand::Nothing,
        },
        Key::ArrowRight => KeyCommand::FocusNext,
        Key::ArrowLeft => KeyCommand::FocusPrev,
        Key::Character(c) => {
            if ctrl {
                drawer_command_exec(drawer_for_digit(names, c.as_str()))
            } else {
                let cs = chars_of(c.as_str());
                proof {
                    reveal_strlit("s");
                    reveal_strlit("v");
                }
                if crate::text::chars_eq_str(cs.as_slice(), "s") && !in_search {
                    assert("s"@ =~= seq!['s']);
                    KeyCommand::FocusSearch
                } else if crate::text::chars_eq_str(cs.as_slice(), "v") && !in_search {
                    assert("v"@ =~= seq!['v']);
                    KeyCommand::OpenVault
                } else {
                    assert("s"@ =~= seq!['s']);
                    assert("v"@ =~= seq!['v']);
                    KeyCommand::Nothing
                }
            }
        },
        Key::Other => KeyCommand::Nothing,
    }
}

} // verus!
