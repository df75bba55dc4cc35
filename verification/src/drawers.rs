//! Drawers: named, ordered groups of pinned app ids and dropped files.
//!
//! Lookups go by name and always act on the first drawer with that name;
//! every mutation leaves the other drawers untouched.

use vstd::prelude::*;

use crate::text::string_views;
use crate::seqs::{first_at, first_index, lemma_first_index, lemma_found_first};

verus! {

/// A file kept in a drawer.
#[derive(Debug, Clone)]
pub struct DrawerFile {
    /// Absolute path of the file on disk.
    pub path: String,
    /// Display name (the file name without its directory).
    pub name: String,
}

#[derive(Debug, Clone)]
pub struct Drawer {
    pub name: String,
    pub icon: String,
    pub apps: Vec<String>,
    /// Files dropped from the file manager.
    pub files: Vec<DrawerFile>,
}

#[derive(Debug, Clone)]
pub struct DrawerState {
    pub drawers: Vec<Drawer>,
}

/// Abstract drawer: its name, icon, pinned app ids and `(path, name)` files.
pub struct DrawerView {
    pub name: Seq<char>,
    pub icon: Seq<char>,
    pub apps: Seq<Seq<char>>,
    pub files: Seq<(Seq<char>, Seq<char>)>,
}

impl View for DrawerFile {
    type V = (Seq<char>, Seq<char>);

    open spec fn view(&self) -> (Seq<char>, Seq<char>) {
        (self.path@, self.name@)
    }
}

pub open spec fn file_views(v: Seq<DrawerFile>) -> Seq<(Seq<char>, Seq<char>)> {
    v.map_values(|f: DrawerFile| f@)
}

impl View for Drawer {
    type V = DrawerView;

    open spec fn view(&self) -> DrawerView {
        DrawerView {
            name: self.name@,
            icon: self.icon@,
            apps: string_views(self.apps@),
            files: file_views(self.files@),
        }
    }
}

pub open spec fn drawer_views(v: Seq<Drawer>) -> Seq<DrawerView> {
    v.map_values(|d: Drawer| d@)
}

impl View for DrawerState {
    type V = Seq<DrawerView>;

    open spec fn view(&self) -> Seq<DrawerView> {
        drawer_views(self.drawers@)
    }
}

// ---------------------------------------------------------------------------
// Lookup by name
// ---------------------------------------------------------------------------

pub open spec fn names_of(ds: Seq<DrawerView>) -> Seq<Seq<char>> {
    ds.map_values(|d: DrawerView| d.name)
}

pub open spec fn has_drawer(ds: Seq<DrawerView>, name: Seq<char>) -> bool {
    names_of(ds).contains(name)
}

/// Index of the first drawer called `name`, or -1.
pub open spec fn drawer_index(ds: Seq<DrawerView>, name: Seq<char>) -> int {
    first_index(names_of(ds), name)
}

/// The first drawer called `name`, when there is one.
pub open spec fn named(ds: Seq<DrawerView>, name: Seq<char>) -> DrawerView {
    ds[drawer_index(ds, name)]
}

/// Every drawer name occurs once.
pub open spec fn names_unique(ds: Seq<DrawerView>) -> bool {
    forall|i: int, j: int|
        0 <= i < ds.len() && 0 <= j < ds.len() && i != j ==> #[trigger] ds[i].name
            != #[trigger] ds[j].name
}

/// Where a present drawer is found.
pub proof fn lemma_drawer_index(ds: Seq<DrawerView>, name: Seq<char>)
    requires
        has_drawer(ds, name),
    ensures
        0 <= drawer_index(ds, name) < ds.len(),
        named(ds, name).name == name,
        forall|j: int| 0 <= j < drawer_index(ds, name) ==> #[trigger] ds[j].name != name,
{
    lemma_first_index(names_of(ds), name);
    let i = drawer_index(ds, name);
    assert forall|j: int| 0 <= j < i implies #[trigger] ds[j].name != name by {
        assert(names_of(ds)[j] != name);
    }
}

// ---------------------------------------------------------------------------
// Executable helpers
// ---------------------------------------------------------------------------

fn copy_string(s: &String) -> (r: String)
    ensures
        r@ == s@,
{
    s.clone()
}

impl DrawerState {
    /// Position of the first drawer called `name`.
    fn find(&self, name: &str) -> (r: Option<usize>)
        ensures
            match r {
                Some(i) => {
                    &&& has_drawer(self@, name@)
                    &&& i == drawer_index(self@, name@)
                    &&& i < self.drawers@.len()
                    &&& named(self@, name@) == self.drawers@[i as int]@
                },
                None => !has_drawer(self@, name@),
            },
    {
        let key = name.to_owned();
        let mut i: usize = 0;
        while i < self.drawers.len()
            invariant
                key@ == name@,
                i <= self.drawers@.len(),
                forall|j: int| 0 <= j < i ==> #[trigger] names_of(self@)[j] != name@,
            decreases self.drawers@.len() - i,
        {
            if self.drawers[i].name == key {
                proof {
                    assert(first_at(names_of(self@), name@, i as int));
                    lemma_found_first(names_of(self@), name@, i as int);
                }
                return Some(i);
            }
            i = i + 1;
        }
        assert(!has_drawer(self@, name@)) by {
            if has_drawer(self@, name@) {
                let k = choose|k: int| 0 <= k < self@.len() && names_of(self@)[k] == name@;
                assert(names_of(self@)[k] != name@);
            }
        }
        None
    }

    /// Takes drawer `i` out, applies `f`-style edits by the caller, and the
    /// caller puts it back with `put_back`.
    fn take(&mut self, i: usize) -> (d: Drawer)
        requires
            i < old(self).drawers@.len(),
        ensures
            d == old(self).drawers@[i as int],
            final(self).drawers@ == old(self).drawers@.remove(i as int),
    {
        self.drawers.remove(i)
    }

    fn put_back(&mut self, i: usize, d: Drawer)
        requires
            i <= old(self).drawers@.len(),
        ensures
            final(self).drawers@ == old(self).drawers@.insert(i as int, d),
    {
        self.drawers.insert(i, d);
    }
}

// ---------------------------------------------------------------------------
// Element-level helpers on app ids and files
// ---------------------------------------------------------------------------

/// First position of `x` among the ids.
fn position_of(v: &Vec<String>, x: &String) -> (r: Option<usize>)
    ensures
        match r {
            Some(i) => string_views(v@).contains(x@) && i == first_index(string_views(v@), x@)
                && i < v@.len(),
            None => !string_views(v@).contains(x@),
        },
{
    let mut i: usize = 0;
    while i < v.len()
        invariant
            i <= v@.len(),
            forall|j: int| 0 <= j < i ==> #[trigger] string_views(v@)[j] != x@,
        decreases v@.len() - i,
    {
        if v[i] == *x {
            proof {
                assert(first_at(string_views(v@), x@, i as int));
                lemma_found_first(string_views(v@), x@, i as int);
            }
            return Some(i);
        }
        i = i + 1;
    }
    assert(!string_views(v@).contains(x@)) by {
        if string_views(v@).contains(x@) {
            let k = choose|k: int| 0 <= k < v@.len() && string_views(v@)[k] == x@;
            assert(string_views(v@)[k] != x@);
        }
    }
    None
}

pub open spec fn not_equal_to(x: Seq<char>) -> spec_fn(Seq<char>) -> bool {
    |a: Seq<char>| a != x
}

pub open spec fn path_not(p: Seq<char>) -> spec_fn((Seq<char>, Seq<char>)) -> bool {
    |f: (Seq<char>, Seq<char>)| f.0 != p
}

/// The ids other than `x`, in order.
fn without(v: Vec<String>, x: &String) -> (r: Vec<String>)
    ensures
        string_views(r@) == string_views(v@).filter(not_equal_to(x@)),
{
    let ghost orig = string_views(v@);
    let mut rest = v;
    let mut out: Vec<String> = Vec::new();
    let mut k: usize = 0;
    let n = rest.len();
    assert(orig.take(0).filter(not_equal_to(x@)) =~= seq![]) by {
        reveal_with_fuel(Seq::filter, 1);
    }
    assert(string_views(out@) =~= seq![]);
    assert(string_views(rest@) =~= orig.skip(0));
    while k < n
        invariant
            n == orig.len(),
            k <= n,
            string_views(rest@) == orig.skip(k as int),
            string_views(out@) == orig.take(k as int).filter(not_equal_to(x@)),
        decreases n - k,
    {
        let ghost old_rest = rest@;
        assert(string_views(old_rest).len() == n - k);
        let item = rest.remove(0);
        assert(item == old_rest[0]);
        assert(string_views(old_rest)[0] == orig.skip(k as int)[0]);
        assert(item@ == orig[k as int]);
        assert forall|j: int| 0 <= j < n - k - 1 implies #[trigger] string_views(rest@)[j] == orig.skip(
            k + 1,
        )[j] by {
            assert(rest@[j] == old_rest[j + 1]);
            assert(string_views(old_rest)[j + 1] == orig.skip(k as int)[j + 1]);
        }
        assert(string_views(rest@) =~= orig.skip(k + 1));
        proof {
            crate::seqs::lemma_filter_take_step(orig, not_equal_to(x@), k as int);
        }
        if item != *x {
            let ghost before = out@;
            out.push(item);
            assert(string_views(out@) =~= string_views(before).push(orig[k as int]));
        }
        k = k + 1;
    }
    assert(orig.take(n as int) =~= orig);
    out
}

fn has_file_path(v: &Vec<DrawerFile>, path: &String) -> (r: bool)
    ensures
        r == exists|k: int| 0 <= k < v@.len() && #[trigger] v@[k].path@ == path@,
{
    let mut i: usize = 0;
    while i < v.len()
        invariant
            i <= v@.len(),
            forall|j: int| 0 <= j < i ==> #[trigger] v@[j].path@ != path@,
        decreases v@.len() - i,
    {
        if v[i].path == *path {
            return true;
        }
        i = i + 1;
    }
    false
}

/// The files whose path is not `path`, in order.
fn files_without(v: Vec<DrawerFile>, path: &String) -> (r: Vec<DrawerFile>)
    ensures
        file_views(r@) == file_views(v@).filter(path_not(path@)),
{
    let ghost orig = file_views(v@);
    let mut rest = v;
    let mut out: Vec<DrawerFile> = Vec::new();
    let mut k: usize = 0;
    let n = rest.len();
    assert(orig.take(0).filter(path_not(path@)) =~= seq![]) by {
        reveal_with_fuel(Seq::filter, 1);
    }
    assert(file_views(out@) =~= seq![]);
    assert(file_views(rest@) =~= orig.skip(0));
    while k < n
        invariant
            n == orig.len(),
            k <= n,
            file_views(rest@) == orig.skip(k as int),
            file_views(out@) == orig.take(k as int).filter(path_not(path@)),
        decreases n - k,
    {
        let ghost old_rest = rest@;
        assert(file_views(old_rest).len() == n - k);
        let item = rest.remove(0);
        assert(item == old_rest[0]);
        assert(file_views(old_rest)[0] == orig.skip(k as int)[0]);
        assert(item@ == orig[k as int]);
        assert forall|j: int| 0 <= j < n - k - 1 implies #[trigger] file_views(rest@)[j] == orig.skip(
            k + 1,
        )[j] by {
            assert(rest@[j] == old_rest[j + 1]);
            assert(file_views(old_rest)[j + 1] == orig.skip(k as int)[j + 1]);
        }
        assert(file_views(rest@) =~= orig.skip(k + 1));
        proof {
            crate::seqs::lemma_filter_take_step(orig, path_not(path@), k as int);
        }
        if item.path != *path {
            let ghost before = out@;
            out.push(item);
            assert(file_views(out@) =~= file_views(before).push(orig[k as int]));
        }
        k = k + 1;
    }
    assert(orig.take(n as int) =~= orig);
    out
}

proof fn lemma_reinsert(before: Seq<Drawer>, i: int, d: Drawer)
    requires
        0 <= i < before.len(),
    ensures
        before.remove(i).insert(i, d) == before.update(i, d),
        drawer_views(before.update(i, d)) == drawer_views(before).update(
            i,
            d@,
        ),
{
    assert(before.remove(i).insert(i, d) =~= before.update(i, d));
    assert(drawer_views(before.update(i, d)) =~= drawer_views(before).update(
        i,
        d@,
    ));
}

// ---------------------------------------------------------------------------
// Abstract effects of the mutations
// ---------------------------------------------------------------------------

pub open spec fn with_apps(d: DrawerView, apps: Seq<Seq<char>>) -> DrawerView {
    DrawerView { apps: apps, ..d }
}

pub open spec fn with_files(d: DrawerView, files: Seq<(Seq<char>, Seq<char>)>) -> DrawerView {
    DrawerView { files: files, ..d }
}

/// The state with the first drawer called `name` replaced by `f` of it;
/// unchanged when there is none.
pub open spec fn edit_named(
    ds: Seq<DrawerView>,
    name: Seq<char>,
    new_drawer: DrawerView,
) -> Seq<DrawerView> {
    if has_drawer(ds, name) {
        ds.update(drawer_index(ds, name), new_drawer)
    } else {
        ds
    }
}

/// Toggling an id: drop its first occurrence if present, else append it.
pub open spec fn toggled(apps: Seq<Seq<char>>, app: Seq<char>) -> Seq<Seq<char>> {
    if apps.contains(app) {
        apps.remove(first_index(apps, app))
    } else {
        apps.push(app)
    }
}

pub open spec fn empty_drawer(name: Seq<char>, icon: Seq<char>) -> DrawerView {
    DrawerView { name: name, icon: icon, apps: seq![], files: seq![] }
}

pub open spec fn after_create(ds: Seq<DrawerView>, name: Seq<char>, icon: Seq<char>) -> Seq<DrawerView> {
    if has_drawer(ds, name) {
        ds
    } else {
        ds.push(empty_drawer(name, icon))
    }
}

pub open spec fn after_remove_drawer(ds: Seq<DrawerView>, name: Seq<char>) -> Seq<DrawerView> {
    ds.filter(|d: DrawerView| d.name != name)
}

pub open spec fn after_rename(ds: Seq<DrawerView>, old_name: Seq<char>, new_name: Seq<char>) -> Seq<DrawerView> {
    if old_name == new_name || has_drawer(ds, new_name) || !has_drawer(
        ds,
        old_name,
    ) {
        ds
    } else {
        ds.update(
            drawer_index(ds, old_name),
            DrawerView { name: new_name, ..named(ds, old_name) },
        )
    }
}

pub open spec fn after_set_icon(ds: Seq<DrawerView>, drawer_name: Seq<char>, icon: Seq<char>) -> Seq<DrawerView> {
    edit_named(
        ds,
        drawer_name,
        DrawerView { icon: icon, ..named(ds, drawer_name) },
    )
}

pub open spec fn after_move_up(ds: Seq<DrawerView>, name: Seq<char>) -> Seq<DrawerView> {
    if has_drawer(ds, name) && drawer_index(ds, name) > 0 {
        let i = drawer_index(ds, name);
        ds.update(i, ds[i - 1]).update(i - 1, ds[i])
    } else {
        ds
    }
}

pub open spec fn after_move_down(ds: Seq<DrawerView>, name: Seq<char>) -> Seq<DrawerView> {
    if has_drawer(ds, name) && drawer_index(ds, name) + 1
        < ds.len() {
        let i = drawer_index(ds, name);
        ds.update(i, ds[i + 1]).update(i + 1, ds[i])
    } else {
        ds
    }
}

pub open spec fn after_toggle_app(ds: Seq<DrawerView>, drawer_name: Seq<char>, app_id: Seq<char>) -> Seq<DrawerView> {
    edit_named(
        ds,
        drawer_name,
        with_apps(
            named(ds, drawer_name),
            toggled(named(ds, drawer_name).apps, app_id),
        ),
    )
}

pub open spec fn after_add_app(ds: Seq<DrawerView>, drawer_name: Seq<char>, app_id: Seq<char>) -> Seq<DrawerView> {
    edit_named(
        ds,
        drawer_name,
        with_apps(
            named(ds, drawer_name),
            if named(ds, drawer_name).apps.contains(app_id) {
                named(ds, drawer_name).apps
            } else {
                named(ds, drawer_name).apps.push(app_id)
            },
        ),
    )
}

pub open spec fn after_remove_app(ds: Seq<DrawerView>, drawer_name: Seq<char>, app_id: Seq<char>) -> Seq<DrawerView> {
    edit_named(
        ds,
        drawer_name,
        with_apps(
            named(ds, drawer_name),
            named(ds, drawer_name).apps.filter(not_equal_to(app_id)),
        ),
    )
}

pub open spec fn after_clear(ds: Seq<DrawerView>, drawer_name: Seq<char>) -> Seq<DrawerView> {
    edit_named(
        ds,
        drawer_name,
        with_files(with_apps(named(ds, drawer_name), seq![]), seq![]),
    )
}

pub open spec fn after_add_file(ds: Seq<DrawerView>, drawer_name: Seq<char>, path: Seq<char>, name: Seq<char>) -> Seq<DrawerView> {
    edit_named(
        ds,
        drawer_name,
        with_files(
            named(ds, drawer_name),
            if exists|k: int|
                0 <= k < named(ds, drawer_name).files.len()
                    && #[trigger] named(ds, drawer_name).files[k].0 == path {
                named(ds, drawer_name).files
            } else {
                named(ds, drawer_name).files.push((path, name))
            },
        ),
    )
}

pub open spec fn after_remove_file(ds: Seq<DrawerView>, drawer_name: Seq<char>, path: Seq<char>) -> Seq<DrawerView> {
    edit_named(
        ds,
        drawer_name,
        with_files(
            named(ds, drawer_name),
            named(ds, drawer_name).files.filter(path_not(path)),
        ),
    )
}

/// `app` is pinned in the first drawer called `drawer`.
pub open spec fn pinned(ds: Seq<DrawerView>, drawer: Seq<char>, app: Seq<char>) -> bool {
    has_drawer(ds, drawer) && named(ds, drawer).apps.contains(app)
}

pub open spec fn default_drawers() -> Seq<DrawerView> {
    seq![
        empty_drawer("Daily Apps"@, "\u{2b50}"@),
        empty_drawer("Work"@, "\u{1f4bc}"@),
        empty_drawer("Games"@, "\u{1f3ae}"@),
        empty_drawer("Utilities"@, "\u{2699}"@),
    ]
}

pub open spec fn fits_counts(d: DrawerView) -> bool {
    d.apps.len() + d.files.len() <= usize::MAX
}

impl DrawerState {
    fn reinsert(&mut self, i: usize, d: Drawer)
        requires
            i <= old(self).drawers@.len(),
        ensures
            final(self).drawers@ == old(self).drawers@.insert(i as int, d),
    {
        self.drawers.insert(i, d);
    }

    // ── Accessors ─────────────────────────────────────────────

    pub fn drawers(&self) -> (r: &[Drawer])
        ensures
            r@ == self.drawers@,
    {
        self.drawers.as_slice()
    }

    pub fn drawer_names(&self) -> (r: Vec<String>)
        ensures
            string_views(r@) == names_of(self@),
    {
        let mut r: Vec<String> = Vec::new();
        let mut i: usize = 0;
        while i < self.drawers.len()
            invariant
                i <= self.drawers@.len(),
                r@.len() == i,
                forall|k: int| 0 <= k < i ==> #[trigger] r@[k]@ == self.drawers@[k].name@,
            decreases self.drawers@.len() - i,
        {
            r.push(copy_string(&self.drawers[i].name));
            i = i + 1;
        }
        assert(string_views(r@) =~= names_of(self@));
        r
    }

    pub fn drawer_count(&self) -> (n: usize)
        ensures
            n == self@.len(),
    {
        self.drawers.len()
    }

    pub fn apps_in_drawer(&self, drawer_name: &str) -> (r: &[String])
        ensures
            string_views(r@) == if has_drawer(self@, drawer_name@) {
                named(self@, drawer_name@).apps
            } else {
                seq![]
            },
    {
        match self.find(drawer_name) {
            Some(i) => self.drawers[i].apps.as_slice(),
            None => {
                let r: &[String] = &[];
                assert(string_views(r@) =~= seq![]);
                r
            },
        }
    }

    pub fn files_in_drawer(&self, drawer_name: &str) -> (r: &[DrawerFile])
        ensures
            file_views(r@) == if has_drawer(self@, drawer_name@) {
                named(self@, drawer_name@).files
            } else {
                seq![]
            },
    {
        match self.find(drawer_name) {
            Some(i) => self.drawers[i].files.as_slice(),
            None => {
                let r: &[DrawerFile] = &[];
                assert(file_views(r@) =~= seq![]);
                r
            },
        }
    }

    /// Total item count (apps + files) for the sidebar badge.
    pub fn item_count(&self, drawer_name: &str) -> (n: usize)
        requires
            has_drawer(self@, drawer_name@) ==> fits_counts(named(self@, drawer_name@)),
        ensures
            n == if has_drawer(self@, drawer_name@) {
                named(self@, drawer_name@).apps.len() + named(self@, drawer_name@).files.len()
            } else {
                0
            },
    {
        match self.find(drawer_name) {
            Some(i) => self.drawers[i].apps.len() + self.drawers[i].files.len(),
            None => 0,
        }
    }

    pub fn app_count(&self, drawer_name: &str) -> (n: usize)
        ensures
            n == if has_drawer(self@, drawer_name@) {
                named(self@, drawer_name@).apps.len()
            } else {
                0
            },
    {
        match self.find(drawer_name) {
            Some(i) => self.drawers[i].apps.len(),
            None => 0,
        }
    }

    pub fn is_pinned(&self, drawer_name: &str, app_id: &str) -> (b: bool)
        ensures
            b == pinned(self@, drawer_name@, app_id@),
    {
        match self.find(drawer_name) {
            Some(i) => {
                let key = app_id.to_owned();
                position_of(&self.drawers[i].apps, &key).is_some()
            },
            None => false,
        }
    }

    // ── Drawer Management ─────────────────────────────────────

    pub fn create_drawer(&mut self, name: String, icon: String)
        ensures
            final(self)@ == after_create(old(self)@, name@, icon@),
    {
        match self.find(name.as_str()) {
            Some(_) => {},
            None => {
                let ghost before = self.drawers@;
                let d = Drawer { name, icon, apps: Vec::new(), files: Vec::new() };
                assert(d@ == empty_drawer(d.name@, d.icon@)) by {
                    assert(string_views(d.apps@) =~= seq![]);
                    assert(file_views(d.files@) =~= seq![]);
                }
                self.drawers.push(d);
                assert(self@ =~= old(self)@.push(d@));
            },
        }
    }

    pub fn remove_drawer(&mut self, name: &str)
        ensures
            final(self)@ == after_remove_drawer(old(self)@, name@),
    {
        let key = name.to_owned();
        let ghost pred = |d: DrawerView| d.name != name@;
        let ghost orig = self@;
        let mut rest: Vec<Drawer> = Vec::new();
        std::mem::swap(&mut rest, &mut self.drawers);
        let n = rest.len();
        let mut k: usize = 0;
        assert(orig.take(0).filter(pred) =~= seq![]) by {
            reveal_with_fuel(Seq::filter, 1);
        }
        assert(self@ =~= seq![]);
        assert(drawer_views(rest@) =~= orig.skip(0));
        while k < n
            invariant
                key@ == name@,
                n == orig.len(),
                k <= n,
                drawer_views(rest@) == orig.skip(k as int),
                self@ == orig.take(k as int).filter(pred),
                pred == (|d: DrawerView| d.name != name@),
            decreases n - k,
        {
            let ghost old_rest = rest@;
            assert(drawer_views(old_rest).len() == n - k);
            let d = rest.remove(0);
            assert(d == old_rest[0]);
            assert(drawer_views(old_rest)[0] == orig.skip(k as int)[0]);
            assert forall|j: int| 0 <= j < n - k - 1 implies #[trigger] drawer_views(rest@)[j] == orig.skip(k + 1)[j] by {
                assert(rest@[j] == old_rest[j + 1]);
                assert(drawer_views(old_rest)[j + 1] == orig.skip(k as int)[j + 1]);
            }
            assert(drawer_views(rest@) =~= orig.skip(k + 1));
            proof {
                crate::seqs::lemma_filter_take_step(orig, pred, k as int);
            }
            if d.name != key {
                let ghost before = self@;
                self.drawers.push(d);
                assert(self@ =~= before.push(orig[k as int]));
            }
            k = k + 1;
        }
        assert(orig.take(n as int) =~= orig);
    }

    pub fn rename_drawer(&mut self, old_name: &str, new_name: &str)
        ensures
            final(self)@ == after_rename(old(self)@, old_name@, new_name@),
    {
        let a = old_name.to_owned();
        let b = new_name.to_owned();
        if a == b {
            return;
        }
        if self.find(new_name).is_some() {
            return;
        }
        if let Some(i) = self.find(old_name) {
            let ghost before = self.drawers@;
            let mut d = self.drawers.remove(i);
            d.name = b;
            self.reinsert(i, d);
            proof {
                lemma_reinsert(before, i as int, d);
            }
        }
    }

    pub fn set_drawer_icon(&mut self, drawer_name: &str, icon: String)
        ensures
            final(self)@ == after_set_icon(old(self)@, drawer_name@, icon@),
    {
        if let Some(i) = self.find(drawer_name) {
            let ghost before = self.drawers@;
            let mut d = self.drawers.remove(i);
            d.icon = icon;
            self.reinsert(i, d);
            proof {
                lemma_reinsert(before, i as int, d);
            }
        }
    }

    fn swap_adjacent(&mut self, i: usize)
        requires
            i + 1 < old(self).drawers@.len(),
        ensures
            final(self)@ == old(self)@.update(i as int, old(self)@[i + 1]).update(
                i + 1,
                old(self)@[i as int],
            ),
    {
        let ghost before = self@;
        let n = self.drawers.len();
        let d = self.drawers.remove(i + 1);
        self.drawers.insert(i, d);
        assert(self@ =~= before.update(i as int, before[i + 1]).update(i + 1, before[i as int]));
    }

    pub fn move_drawer_up(&mut self, name: &str)
        ensures
            final(self)@ == after_move_up(old(self)@, name@),
    {
        if let Some(index) = self.find(name) {
            if index > 0 {
                let ghost before = self@;
                self.swap_adjacent(index - 1);
                assert(self@ =~= before.update(index as int, before[index - 1]).update(
                    index - 1,
                    before[index as int],
                ));
            }
        }
    }

    pub fn move_drawer_down(&mut self, name: &str)
        ensures
            final(self)@ == after_move_down(old(self)@, name@),
    {
        if let Some(index) = self.find(name) {
            let n = self.drawers.len();
            if index + 1 < n {
                self.swap_adjacent(index);
            }
        }
    }

    // ── App Mutations ─────────────────────────────────────────

    pub fn toggle_app(&mut self, drawer_name: &str, app_id: &str)
        ensures
            final(self)@ == after_toggle_app(old(self)@, drawer_name@, app_id@),
    {
        if let Some(i) = self.find(drawer_name) {
            let ghost before = self.drawers@;
            let key = app_id.to_owned();
            let mut d = self.drawers.remove(i);
            let ghost apps0 = string_views(d.apps@);
            match position_of(&d.apps, &key) {
                Some(index) => {
                    d.apps.remove(index);
                    assert(string_views(d.apps@) =~= apps0.remove(index as int));
                },
                None => {
                    d.apps.push(key);
                    assert(string_views(d.apps@) =~= apps0.push(app_id@));
                },
            }
            self.reinsert(i, d);
            proof {
                lemma_reinsert(before, i as int, d);
            }
        }
    }

    pub fn add_app(&mut self, drawer_name: &str, app_id: String)
        ensures
            final(self)@ == after_add_app(old(self)@, drawer_name@, app_id@),
    {
        if let Some(i) = self.find(drawer_name) {
            let ghost before = self.drawers@;
            let mut d = self.drawers.remove(i);
            let ghost apps0 = string_views(d.apps@);
            let ghost id = app_id@;
            if position_of(&d.apps, &app_id).is_none() {
                d.apps.push(app_id);
                assert(string_views(d.apps@) =~= apps0.push(id));
            }
            assert(d@ == with_apps(before[i as int]@, string_views(d.apps@)));
            self.reinsert(i, d);
            proof {
                lemma_reinsert(before, i as int, d);
            }
        }
    }

    pub fn remove_app(&mut self, drawer_name: &str, app_id: &str)
        ensures
            final(self)@ == after_remove_app(old(self)@, drawer_name@, app_id@),
    {
        if let Some(i) = self.find(drawer_name) {
            let ghost before = self.drawers@;
            let key = app_id.to_owned();
            let mut d = self.drawers.remove(i);
            let mut apps: Vec<String> = Vec::new();
            std::mem::swap(&mut apps, &mut d.apps);
            d.apps = without(apps, &key);
            self.reinsert(i, d);
            proof {
                lemma_reinsert(before, i as int, d);
            }
        }
    }

    pub fn clear_drawer(&mut self, drawer_name: &str)
        ensures
            final(self)@ == after_clear(old(self)@, drawer_name@),
    {
        if let Some(i) = self.find(drawer_name) {
            let ghost before = self.drawers@;
            let mut d = self.drawers.remove(i);
            d.apps.clear();
            d.files.clear();
            assert(string_views(d.apps@) =~= seq![]);
            assert(file_views(d.files@) =~= seq![]);
            self.reinsert(i, d);
            proof {
                lemma_reinsert(before, i as int, d);
            }
        }
    }

    // ── File Mutations ────────────────────────────────────────

    /// Add a file to a drawer. Skips duplicates by path.
    pub fn add_file(&mut self, drawer_name: &str, path: String, name: String)
        ensures
            final(self)@ == after_add_file(old(self)@, drawer_name@, path@, name@),
    {
        if let Some(i) = self.find(drawer_name) {
            let ghost before = self.drawers@;
            let mut d = self.drawers.remove(i);
            let ghost files0 = file_views(d.files@);
            let ghost entry = (path@, name@);
            let present = has_file_path(&d.files, &path);
            proof {
                if present {
                    let k = choose|k: int| 0 <= k < d.files@.len() && #[trigger] d.files@[k].path@ == path@;
                    assert(files0[k].0 == path@);
                } else {
                    assert forall|k: int| 0 <= k < files0.len() implies #[trigger] files0[k].0 != path@ by {
                        assert(d.files@[k].path@ != path@);
                    }
                }
            }
            if !present {
                d.files.push(DrawerFile { path, name });
                assert(file_views(d.files@) =~= files0.push(entry));
            }
            self.reinsert(i, d);
            proof {
                lemma_reinsert(before, i as int, d);
            }
        }
    }

    /// Remove a file from a drawer by its path.
    pub fn remove_file(&mut self, drawer_name: &str, path: &str)
        ensures
            final(self)@ == after_remove_file(old(self)@, drawer_name@, path@),
    {
        if let Some(i) = self.find(drawer_name) {
            let ghost before = self.drawers@;
            let key = path.to_owned();
            let mut d = self.drawers.remove(i);
            let mut files: Vec<DrawerFile> = Vec::new();
            std::mem::swap(&mut files, &mut d.files);
            d.files = files_without(files, &key);
            self.reinsert(i, d);
            proof {
                lemma_reinsert(before, i as int, d);
            }
        }
    }
}

fn new_drawer(name: &str, icon: &str) -> (d: Drawer)
    ensures
        d@ == empty_drawer(name@, icon@),
{
    let d = Drawer { name: name.to_owned(), icon: icon.to_owned(), apps: Vec::new(), files: Vec::new() };
    assert(string_views(d.apps@) =~= seq![]);
    assert(file_views(d.files@) =~= seq![]);
    d
}

impl Default for DrawerState {
    fn default() -> (s: Self)
        ensures
            s@ == default_drawers(),
    {
        let mut drawers: Vec<Drawer> = Vec::new();
        drawers.push(new_drawer("Daily Apps", "\u{2b50}"));
        drawers.push(new_drawer("Work", "\u{1f4bc}"));
        drawers.push(new_drawer("Games", "\u{1f3ae}"));
        drawers.push(new_drawer("Utilities", "\u{2699}"));
        let s = DrawerState { drawers };
        assert(s@ =~= default_drawers());
        s
    }
}

// ---------------------------------------------------------------------------
// Laws
// ---------------------------------------------------------------------------

/// Replacing the first drawer called `name` by one of the same name keeps
/// every name, and the replacement is then the drawer found by that name.
pub proof fn lemma_edit_keeps_names(ds: Seq<DrawerView>, name: Seq<char>, nd: DrawerView)
    requires
        has_drawer(ds, name),
        nd.name == name,
    ensures
        names_of(edit_named(ds, name, nd)) == names_of(ds),
        has_drawer(edit_named(ds, name, nd), name),
        drawer_index(edit_named(ds, name, nd), name) == drawer_index(ds, name),
        named(edit_named(ds, name, nd), name) == nd,
        edit_named(ds, name, nd).len() == ds.len(),
{
    lemma_drawer_index(ds, name);
    let i = drawer_index(ds, name);
    assert(names_of(ds.update(i, nd)) =~= names_of(ds));
}

proof fn lemma_unique_removed(apps: Seq<Seq<char>>, app: Seq<char>, i: int)
    requires
        0 <= i < apps.len(),
        apps[i] == app,
        forall|a: int, b: int|
            0 <= a < apps.len() && 0 <= b < apps.len() && #[trigger] apps[a] == app && #[trigger] apps[b]
                == app ==> a == b,
    ensures
        !apps.remove(i).contains(app),
{
    if apps.remove(i).contains(app) {
        let k = choose|k: int| 0 <= k < apps.remove(i).len() && apps.remove(i)[k] == app;
        if k < i {
            assert(apps[k] == app);
        } else {
            assert(apps[k + 1] == app);
        }
    }
}

/// Toggling an app flips whether it is pinned, for an existing drawer that
/// holds the app at most once.
pub proof fn law_toggle_flips_pin(ds: Seq<DrawerView>, drawer: Seq<char>, app: Seq<char>)
    requires
        has_drawer(ds, drawer),
        forall|a: int, b: int|
            0 <= a < named(ds, drawer).apps.len() && 0 <= b < named(ds, drawer).apps.len()
                && #[trigger] named(ds, drawer).apps[a] == app && #[trigger] named(ds, drawer).apps[b]
                == app ==> a == b,
    ensures
        pinned(after_toggle_app(ds, drawer, app), drawer, app) == !pinned(ds, drawer, app),
{
    lemma_drawer_index(ds, drawer);
    let d = named(ds, drawer);
    let nd = with_apps(d, toggled(d.apps, app));
    lemma_edit_keeps_names(ds, drawer, nd);
    if d.apps.contains(app) {
        crate::seqs::lemma_first_index(d.apps, app);
        lemma_unique_removed(d.apps, app, first_index(d.apps, app));
    } else {
        assert(d.apps.push(app)[d.apps.len() as int] == app);
    }
}

/// Toggling an app that is not pinned, twice, gives back the same drawers.
pub proof fn law_toggle_twice_restores(ds: Seq<DrawerView>, drawer: Seq<char>, app: Seq<char>)
    requires
        !pinned(ds, drawer, app),
    ensures
        after_toggle_app(after_toggle_app(ds, drawer, app), drawer, app) == ds,
{
    if has_drawer(ds, drawer) {
        lemma_drawer_index(ds, drawer);
        let i = drawer_index(ds, drawer);
        let d = named(ds, drawer);
        let pushed = d.apps.push(app);
        let nd = with_apps(d, pushed);
        lemma_edit_keeps_names(ds, drawer, nd);
        let mid = after_toggle_app(ds, drawer, app);
        assert(pushed[d.apps.len() as int] == app);
        assert(crate::seqs::first_at(pushed, app, d.apps.len() as int));
        crate::seqs::lemma_found_first(pushed, app, d.apps.len() as int);
        assert(pushed.remove(d.apps.len() as int) =~= d.apps);
        lemma_edit_keeps_names(mid, drawer, with_apps(nd, d.apps));
        assert(with_apps(nd, d.apps) == d);
        assert(mid.update(i, d) =~= ds);
    }
}

/// Adding the same app twice is the same as adding it once.
pub proof fn law_add_app_idempotent(ds: Seq<DrawerView>, drawer: Seq<char>, app: Seq<char>)
    ensures
        after_add_app(after_add_app(ds, drawer, app), drawer, app) == after_add_app(ds, drawer, app),
{
    if has_drawer(ds, drawer) {
        lemma_drawer_index(ds, drawer);
        let d = named(ds, drawer);
        let apps2 = if d.apps.contains(app) { d.apps } else { d.apps.push(app) };
        let nd = with_apps(d, apps2);
        lemma_edit_keeps_names(ds, drawer, nd);
        let mid = after_add_app(ds, drawer, app);
        if !d.apps.contains(app) {
            assert(apps2[d.apps.len() as int] == app);
        }
        assert(apps2.contains(app));
        lemma_edit_keeps_names(mid, drawer, nd);
        assert(mid.update(drawer_index(mid, drawer), nd) =~= mid);
    }
}

/// After removing an app from a drawer it is not pinned there.
pub proof fn law_remove_app_unpins(ds: Seq<DrawerView>, drawer: Seq<char>, app: Seq<char>)
    ensures
        !pinned(after_remove_app(ds, drawer, app), drawer, app),
{
    if has_drawer(ds, drawer) {
        lemma_drawer_index(ds, drawer);
        let d = named(ds, drawer);
        let kept = d.apps.filter(not_equal_to(app));
        lemma_edit_keeps_names(ds, drawer, with_apps(d, kept));
        if kept.contains(app) {
            let k = choose|k: int| 0 <= k < kept.len() && kept[k] == app;
            d.apps.lemma_filter_pred(not_equal_to(app), k);
        }
    }
}

/// A created drawer is then present, and creating it again changes nothing.
pub proof fn law_create_drawer(ds: Seq<DrawerView>, name: Seq<char>, icon: Seq<char>)
    ensures
        has_drawer(after_create(ds, name, icon), name),
        after_create(after_create(ds, name, icon), name, icon) == after_create(ds, name, icon),
{
    if !has_drawer(ds, name) {
        let nds = ds.push(empty_drawer(name, icon));
        assert(names_of(nds)[ds.len() as int] == name);
    }
}

/// Creating and renaming drawers keep drawer names unique.
pub proof fn law_names_stay_unique(
    ds: Seq<DrawerView>,
    name: Seq<char>,
    icon: Seq<char>,
    old_name: Seq<char>,
    new_name: Seq<char>,
)
    requires
        names_unique(ds),
    ensures
        names_unique(after_create(ds, name, icon)),
        names_unique(after_rename(ds, old_name, new_name)),
{
    if !has_drawer(ds, name) {
        let nds = ds.push(empty_drawer(name, icon));
        assert forall|i: int, j: int|
            0 <= i < nds.len() && 0 <= j < nds.len() && i != j implies #[trigger] nds[i].name
            != #[trigger] nds[j].name by {
            if i == ds.len() {
                assert(names_of(ds)[j] == ds[j].name);
            } else if j == ds.len() {
                assert(names_of(ds)[i] == ds[i].name);
            }
        }
    }
    if !(old_name == new_name || has_drawer(ds, new_name) || !has_drawer(ds, old_name)) {
        lemma_drawer_index(ds, old_name);
        let k = drawer_index(ds, old_name);
        let nds = after_rename(ds, old_name, new_name);
        assert forall|i: int, j: int|
            0 <= i < nds.len() && 0 <= j < nds.len() && i != j implies #[trigger] nds[i].name
            != #[trigger] nds[j].name by {
            if i == k {
                assert(names_of(ds)[j] == ds[j].name);
            } else if j == k {
                assert(names_of(ds)[i] == ds[i].name);
            }
        }
    }
}

/// Moving a drawer up and then down puts it back, unless it was already first.
pub proof fn law_move_up_then_down(ds: Seq<DrawerView>, name: Seq<char>)
    requires
        has_drawer(ds, name),
        drawer_index(ds, name) > 0,
    ensures
        after_move_down(after_move_up(ds, name), name) == ds,
{
    lemma_drawer_index(ds, name);
    let i = drawer_index(ds, name);
    let mid = after_move_up(ds, name);
    assert(mid[i - 1] == ds[i]);
    assert(crate::seqs::first_at(names_of(mid), name, i - 1)) by {
        assert forall|j: int| 0 <= j < i - 1 implies #[trigger] names_of(mid)[j] != name by {
            assert(mid[j] == ds[j]);
        }
    }
    crate::seqs::lemma_found_first(names_of(mid), name, i - 1);
    assert(after_move_down(mid, name) =~= ds);
}

/// Clearing a drawer leaves it with no apps and no files.
pub proof fn law_clear_empties(ds: Seq<DrawerView>, drawer: Seq<char>)
    requires
        has_drawer(ds, drawer),
    ensures
        named(after_clear(ds, drawer), drawer).apps.len() == 0,
        named(after_clear(ds, drawer), drawer).files.len() == 0,
{
    lemma_drawer_index(ds, drawer);
    lemma_edit_keeps_names(
        ds,
        drawer,
        with_files(with_apps(named(ds, drawer), seq![]), seq![]),
    );
}

/// Adding a file with a path already in the drawer changes nothing, so
/// adding the same file twice is the same as adding it once.
pub proof fn law_add_file_idempotent(
    ds: Seq<DrawerView>,
    drawer: Seq<char>,
    path: Seq<char>,
    name: Seq<char>,
)
    ensures
        after_add_file(after_add_file(ds, drawer, path, name), drawer, path, name)
            == after_add_file(ds, drawer, path, name),
{
    if has_drawer(ds, drawer) {
        lemma_drawer_index(ds, drawer);
        let d = named(ds, drawer);
        let present = exists|k: int| 0 <= k < d.files.len() && #[trigger] d.files[k].0 == path;
        let files2 = if present { d.files } else { d.files.push((path, name)) };
        let nd = with_files(d, files2);
        lemma_edit_keeps_names(ds, drawer, nd);
        let mid = after_add_file(ds, drawer, path, name);
        if !present {
            assert(files2[d.files.len() as int].0 == path);
        }
        lemma_edit_keeps_names(mid, drawer, nd);
        assert(mid.update(drawer_index(mid, drawer), nd) =~= mid);
    }
}

/// A removed drawer name is no longer present.
pub proof fn law_remove_drawer_absent(ds: Seq<DrawerView>, name: Seq<char>)
    ensures
        !has_drawer(after_remove_drawer(ds, name), name),
{
    let r = after_remove_drawer(ds, name);
    let pred = |d: DrawerView| d.name != name;
    if has_drawer(r, name) {
        let k = choose|k: int| 0 <= k < names_of(r).len() && names_of(r)[k] == name;
        ds.lemma_filter_pred(pred, k);
    }
}

/// App and file edits keep the list of drawer names as it was.
pub proof fn law_edits_keep_names(
    ds: Seq<DrawerView>,
    drawer: Seq<char>,
    app: Seq<char>,
    path: Seq<char>,
    name: Seq<char>,
    icon: Seq<char>,
)
    ensures
        names_of(after_toggle_app(ds, drawer, app)) == names_of(ds),
        names_of(after_add_app(ds, drawer, app)) == names_of(ds),
        names_of(after_remove_app(ds, drawer, app)) == names_of(ds),
        names_of(after_clear(ds, drawer)) == names_of(ds),
        names_of(after_add_file(ds, drawer, path, name)) == names_of(ds),
        names_of(after_remove_file(ds, drawer, path)) == names_of(ds),
        names_of(after_set_icon(ds, drawer, icon)) == names_of(ds),
{
    if has_drawer(ds, drawer) {
        lemma_drawer_index(ds, drawer);
        let d = named(ds, drawer);
        lemma_edit_keeps_names(ds, drawer, with_apps(d, toggled(d.apps, app)));
        lemma_edit_keeps_names(
            ds,
            drawer,
            with_apps(d, if d.apps.contains(app) { d.apps } else { d.apps.push(app) }),
        );
        lemma_edit_keeps_names(ds, drawer, with_apps(d, d.apps.filter(not_equal_to(app))));
        lemma_edit_keeps_names(ds, drawer, with_files(with_apps(d, seq![]), seq![]));
        lemma_edit_keeps_names(
            ds,
            drawer,
            with_files(
                d,
                if exists|k: int| 0 <= k < d.files.len() && #[trigger] d.files[k].0 == path {
                    d.files
                } else {
                    d.files.push((path, name))
                },
            ),
        );
        lemma_edit_keeps_names(ds, drawer, with_files(d, d.files.filter(path_not(path))));
        lemma_edit_keeps_names(ds, drawer, DrawerView { icon: icon, ..d });
    }
}

/// Removing a file by its path from a drawer takes out exactly the files
/// with that path: every other file of the drawer stays, no file is
/// invented, and the drawer's name, icon and apps and every other drawer
/// stay as they were.
pub proof fn law_remove_file_keeps_others(
    ds: Seq<DrawerView>,
    drawer: Seq<char>,
    path: Seq<char>,
    f: (Seq<char>, Seq<char>),
)
    requires
        has_drawer(ds, drawer),
    ensures
        ({
            let after = after_remove_file(ds, drawer, path);
            let old_d = named(ds, drawer);
            let new_d = named(after, drawer);
            &&& has_drawer(after, drawer)
            &&& new_d.files.contains(f) <==> (old_d.files.contains(f) && f.0 != path)
            &&& new_d.files.len() <= old_d.files.len()
            &&& new_d.name == old_d.name && new_d.icon == old_d.icon && new_d.apps == old_d.apps
            &&& after.len() == ds.len()
            &&& forall|j: int| 0 <= j < ds.len() && j != drawer_index(ds, drawer) ==> #[trigger] after[j] == ds[j]
        }),
{
    lemma_drawer_index(ds, drawer);
    let d = named(ds, drawer);
    let kept = d.files.filter(path_not(path));
    lemma_edit_keeps_names(ds, drawer, with_files(d, kept));
    d.files.lemma_filter_len(path_not(path));
    if kept.contains(f) {
        let k = choose|k: int| 0 <= k < kept.len() && kept[k] == f;
        d.files.lemma_filter_pred(path_not(path), k);
        d.files.lemma_filter_contains_rev(path_not(path), f);
    }
    if d.files.contains(f) && f.0 != path {
        let k = choose|k: int| 0 <= k < d.files.len() && d.files[k] == f;
        d.files.lemma_filter_contains(path_not(path), k);
    }
}

/// Removing an app from a drawer takes out exactly that id: every other
/// pinned id stays, none is invented, and the drawer's files, name and
/// icon and every other drawer stay as they were.
pub proof fn law_remove_app_keeps_others(ds: Seq<DrawerView>, drawer: Seq<char>, app: Seq<char>, a: Seq<char>)
    requires
        has_drawer(ds, drawer),
    ensures
        ({
            let after = after_remove_app(ds, drawer, app);
            let old_d = named(ds, drawer);
            let new_d = named(after, drawer);
            &&& has_drawer(after, drawer)
            &&& new_d.apps.contains(a) <==> (old_d.apps.contains(a) && a != app)
            &&& new_d.apps.len() <= old_d.apps.len()
            &&& new_d.name == old_d.name && new_d.icon == old_d.icon && new_d.files == old_d.files
            &&& after.len() == ds.len()
            &&& forall|j: int| 0 <= j < ds.len() && j != drawer_index(ds, drawer) ==> #[trigger] after[j] == ds[j]
        }),
{
    lemma_drawer_index(ds, drawer);
    let d = named(ds, drawer);
    let kept = d.apps.filter(not_equal_to(app));
    lemma_edit_keeps_names(ds, drawer, with_apps(d, kept));
    d.apps.lemma_filter_len(not_equal_to(app));
    if kept.contains(a) {
        let k = choose|k: int| 0 <= k < kept.len() && kept[k] == a;
        d.apps.lemma_filter_pred(not_equal_to(app), k);
        d.apps.lemma_filter_contains_rev(not_equal_to(app), a);
    }
    if d.apps.contains(a) && a != app {
        let k = choose|k: int| 0 <= k < d.apps.len() && d.apps[k] == a;
        d.apps.lemma_filter_contains(not_equal_to(app), k);
    }
}

/// Adding an app to a drawer pins it and keeps every app pinned before,
/// adding nothing else and never pinning an id twice over.
pub proof fn law_add_app_keeps_others(ds: Seq<DrawerView>, drawer: Seq<char>, app: Seq<char>, a: Seq<char>)
    requires
        has_drawer(ds, drawer),
    ensures
        ({
            let after = after_add_app(ds, drawer, app);
            let old_d = named(ds, drawer);
            let new_d = named(after, drawer);
            &&& has_drawer(after, drawer)
            &&& new_d.apps.contains(a) <==> (old_d.apps.contains(a) || a == app)
            &&& new_d.apps.len() <= old_d.apps.len() + 1
            &&& forall|i: int| 0 <= i < old_d.apps.len() ==> #[trigger] new_d.apps[i] == old_d.apps[i]
            &&& new_d.files == old_d.files
        }),
{
    lemma_drawer_index(ds, drawer);
    let d = named(ds, drawer);
    let na = if d.apps.contains(app) { d.apps } else { d.apps.push(app) };
    lemma_edit_keeps_names(ds, drawer, with_apps(d, na));
    if !d.apps.contains(app) {
        if na.contains(a) && a != app {
            let k = choose|k: int| 0 <= k < na.len() && na[k] == a;
            assert(d.apps[k] == a);
        }
        if d.apps.contains(a) {
            let k = choose|k: int| 0 <= k < d.apps.len() && d.apps[k] == a;
            assert(na[k] == a);
        }
        assert(na[d.apps.len() as int] == app);
    }
}

} // verus!
