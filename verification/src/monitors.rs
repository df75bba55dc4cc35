//! The display census: one row per output the compositor has announced and
//! not removed, found again by a stable key, together with the last
//! frame-rate reading taken while the launcher sat on that output.
//!
//! The census never looks inside a reading, so its type is a parameter.

use vstd::prelude::*;

use crate::paths::opt_view;
use crate::seqs::{first_at, first_index, lemma_filter_take_step, lemma_found_first};
use crate::text::{append_chars, chars_of, string_of};

verus! {

/// One display mode an output offers, refresh rate in millihertz.
#[derive(Debug, Clone, Copy, PartialEq, Eq)]
pub struct OutputMode {
    pub refresh_rate: i32,
    pub current: bool,
}

/// What the compositor tells about an output.
#[derive(Debug, Clone)]
pub struct OutputInfo {
    /// The `wl_output` global name.
    pub id: u32,
    /// The connector name ("DP-1"), when the compositor gives one.
    pub name: Option<String>,
    pub make: String,
    pub model: String,
    pub modes: Vec<OutputMode>,
    /// Size in compositor space, when known.
    pub logical_size: Option<(i32, i32)>,
}

/// A compositor output event.
#[derive(Debug, Clone)]
pub enum OutputChange {
    /// A new output, with its information when the compositor sent it.
    Created(Option<OutputInfo>),
    /// New information about a known output.
    InfoUpdate(OutputInfo),
    /// The output is gone.
    Removed,
}

/// One connected display.
#[derive(Debug, Clone)]
pub struct Monitor<F> {
    /// Stable identity of the output; every event about it carries it.
    pub key: String,
    /// `wl_output` global name, 0 until known.
    pub global_id: u32,
    /// Connector name when given, else "make model".
    pub name: String,
    /// Refresh rate of the current mode in millihertz, 0 when unknown.
    pub refresh_mhz: i32,
    /// Logical size in compositor space, when known.
    pub logical_size: Option<(i32, i32)>,
    /// The last frame rate measured on this output, none before a visit.
    pub live_fps: Option<F>,
}

pub struct MonitorView<F> {
    pub key: Seq<char>,
    pub global_id: u32,
    pub name: Seq<char>,
    pub refresh_mhz: i32,
    pub logical_size: Option<(i32, i32)>,
    pub live_fps: Option<F>,
}

impl<F> View for Monitor<F> {
    type V = MonitorView<F>;

    open spec fn view(&self) -> MonitorView<F> {
        MonitorView {
            key: self.key@,
            global_id: self.global_id,
            name: self.name@,
            refresh_mhz: self.refresh_mhz,
            logical_size: self.logical_size,
            live_fps: self.live_fps,
        }
    }
}

/// Every output announced and not removed, and the key of the output the
/// launcher surface was last configured on.
#[derive(Debug, Clone)]
pub struct MonitorsState<F> {
    pub monitors: Vec<Monitor<F>>,
    pub active_key: Option<String>,
}

pub struct CensusView<F> {
    pub rows: Seq<MonitorView<F>>,
    pub active_key: Option<Seq<char>>,
}

pub open spec fn row_views<F>(v: Seq<Monitor<F>>) -> Seq<MonitorView<F>> {
    v.map_values(|m: Monitor<F>| m@)
}

impl<F> View for MonitorsState<F> {
    type V = CensusView<F>;

    open spec fn view(&self) -> CensusView<F> {
        CensusView { rows: row_views(self.monitors@), active_key: opt_view(self.active_key) }
    }
}

pub open spec fn keys_of<F>(rows: Seq<MonitorView<F>>) -> Seq<Seq<char>> {
    rows.map_values(|r: MonitorView<F>| r.key)
}

pub open spec fn sizes_of<F>(rows: Seq<MonitorView<F>>) -> Seq<Option<(i32, i32)>> {
    rows.map_values(|r: MonitorView<F>| r.logical_size)
}

/// No two rows share a key.
pub open spec fn keys_distinct<F>(rows: Seq<MonitorView<F>>) -> bool {
    forall|i: int, j: int|
        0 <= i < rows.len() && 0 <= j < rows.len() && i != j ==> #[trigger] rows[i].key
            != #[trigger] rows[j].key
}

/// The connector name when there is one, else make and model with a space.
pub open spec fn display_name(name: Option<Seq<char>>, make: Seq<char>, model: Seq<char>) -> Seq<char> {
    match name {
        Some(n) => n,
        None => make + seq![' '] + model,
    }
}

/// The refresh rate of the first mode marked current, 0 when none is.
pub open spec fn current_refresh(modes: Seq<OutputMode>) -> i32
    decreases modes.len(),
{
    if modes.len() == 0 {
        0
    } else if modes[0].current {
        modes[0].refresh_rate
    } else {
        current_refresh(modes.drop_first())
    }
}

/// The row an output's information makes, with no reading yet.
pub open spec fn info_row<F>(info: OutputInfo, key: Seq<char>) -> MonitorView<F> {
    MonitorView {
        key,
        global_id: info.id,
        name: display_name(opt_view(info.name), info.make@, info.model@),
        refresh_mhz: current_refresh(info.modes@),
        logical_size: info.logical_size,
        live_fps: None,
    }
}

pub open spec fn unknown_name() -> Seq<char> {
    seq!['u', 'n', 'k', 'n', 'o', 'w', 'n']
}

/// The row of an output announced without information.
pub open spec fn unknown_row<F>(key: Seq<char>) -> MonitorView<F> {
    MonitorView {
        key,
        global_id: 0,
        name: unknown_name(),
        refresh_mhz: 0,
        logical_size: None,
        live_fps: None,
    }
}

/// Replace the row with the same key, keeping its reading where the new
/// row has none, or append the new row.
pub open spec fn upsert_spec<F>(rows: Seq<MonitorView<F>>, m: MonitorView<F>) -> Seq<MonitorView<F>> {
    if keys_of(rows).contains(m.key) {
        let i = first_index(keys_of(rows), m.key);
        rows.update(
            i,
            MonitorView {
                key: m.key,
                global_id: m.global_id,
                name: m.name,
                refresh_mhz: m.refresh_mhz,
                logical_size: m.logical_size,
                live_fps: if m.live_fps is Some {
                    m.live_fps
                } else {
                    rows[i].live_fps
                },
            },
        )
    } else {
        rows.push(m)
    }
}

pub open spec fn key_differs<F>(key: Seq<char>) -> spec_fn(MonitorView<F>) -> bool {
    |r: MonitorView<F>| r.key != key
}

/// Folding one output event into the rows.
pub open spec fn apply_spec<F>(rows: Seq<MonitorView<F>>, change: OutputChange, key: Seq<char>) -> Seq<
    MonitorView<F>,
> {
    match change {
        OutputChange::Created(Some(info)) => upsert_spec(rows, info_row(info, key)),
        OutputChange::Created(None) => upsert_spec(rows, unknown_row(key)),
        OutputChange::InfoUpdate(info) => upsert_spec(rows, info_row(info, key)),
        OutputChange::Removed => rows.filter(key_differs(key)),
    }
}

/// The surface was configured at `w` x `h`: the first row of that logical
/// size becomes the active output; with no such row nothing changes.
pub open spec fn surface_spec<F>(c: CensusView<F>, w: i32, h: i32) -> Option<Seq<char>> {
    let sizes = sizes_of(c.rows);
    if sizes.contains(Some((w, h))) {
        Some(c.rows[first_index(sizes, Some((w, h)))].key)
    } else {
        c.active_key
    }
}

/// A reading goes to the row of the active output, if there is one.
pub open spec fn record_spec<F>(c: CensusView<F>, fps: F) -> Seq<MonitorView<F>> {
    match c.active_key {
        Some(k) => if keys_of(c.rows).contains(k) {
            let i = first_index(keys_of(c.rows), k);
            c.rows.update(
                i,
                MonitorView {
                    key: c.rows[i].key,
                    global_id: c.rows[i].global_id,
                    name: c.rows[i].name,
                    refresh_mhz: c.rows[i].refresh_mhz,
                    logical_size: c.rows[i].logical_size,
                    live_fps: Some(fps),
                },
            )
        } else {
            c.rows
        },
        None => c.rows,
    }
}

fn current_refresh_of(modes: &[OutputMode]) -> (r: i32)
    ensures
        r == current_refresh(modes@),
{
    let mut i: usize = 0;
    assert(modes@.subrange(0, modes@.len() as int) =~= modes@);
    while i < modes.len()
        invariant
            i <= modes@.len(),
            current_refresh(modes@) == current_refresh(modes@.subrange(i as int, modes@.len() as int)),
        decreases modes@.len() - i,
    {
        let ghost rest = modes@.subrange(i as int, modes@.len() as int);
        if modes[i].current {
            return modes[i].refresh_rate;
        }
        assert(rest.drop_first() =~= modes@.subrange(i + 1, modes@.len() as int));
        i = i + 1;
    }
    assert(modes@.subrange(i as int, modes@.len() as int) =~= Seq::<OutputMode>::empty());
    0
}

fn display_name_of(name: Option<String>, make: &str, model: &str) -> (r: String)
    ensures
        r@ == display_name(opt_view(name), make@, model@),
{
    match name {
        Some(n) => n,
        None => {
            let mut v = chars_of(make);
            v.push(' ');
            let w = chars_of(model);
            append_chars(&mut v, w.as_slice());
            string_of(v.as_slice())
        },
    }
}

fn row_of<F>(info: OutputInfo, key: String) -> (m: Monitor<F>)
    ensures
        m@ == info_row::<F>(info, key@),
{
    let refresh = current_refresh_of(info.modes.as_slice());
    let name = display_name_of(info.name, info.make.as_str(), info.model.as_str());
    Monitor {
        key,
        global_id: info.id,
        name,
        refresh_mhz: refresh,
        logical_size: info.logical_size,
        live_fps: None,
    }
}

fn same_size(s: Option<(i32, i32)>, w: i32, h: i32) -> (b: bool)
    ensures
        b == (s == Some((w, h))),
{
    match s {
        Some((a, b)) => a == w && b == h,
        None => false,
    }
}

impl<F> MonitorsState<F> {
    /// A census with no outputs and no active one.
    pub fn new() -> (s: Self)
        ensures
            s@.rows.len() == 0,
            s@.active_key is None,
    {
        MonitorsState { monitors: Vec::new(), active_key: None }
    }

    fn key_position(&self, key: &String) -> (r: Option<usize>)
        ensures
            match r {
                Some(i) => keys_of(self@.rows).contains(key@) && i == first_index(
                    keys_of(self@.rows),
                    key@,
                ) && i < self.monitors@.len(),
                None => !keys_of(self@.rows).contains(key@),
            },
    {
        let ghost ks = keys_of(self@.rows);
        let mut i: usize = 0;
        while i < self.monitors.len()
            invariant
                ks == keys_of(self@.rows),
                ks.len() == self.monitors@.len(),
                i <= self.monitors@.len(),
                forall|j: int| 0 <= j < i ==> #[trigger] ks[j] != key@,
            decreases self.monitors@.len() - i,
        {
            if self.monitors[i].key == *key {
                proof {
                    assert(ks[i as int] == key@);
                    assert(first_at(ks, key@, i as int));
                    lemma_found_first(ks, key@, i as int);
                }
                return Some(i);
            }
            i = i + 1;
        }
        assert(!ks.contains(key@)) by {
            if ks.contains(key@) {
                let k = choose|k: int| 0 <= k < ks.len() && ks[k] == key@;
                assert(ks[k] != key@);
            }
        }
        None
    }

    fn upsert(&mut self, m: Monitor<F>)
        ensures
            final(self)@.rows == upsert_spec(old(self)@.rows, m@),
            final(self)@.active_key == old(self)@.active_key,
    {
        match self.key_position(&m.key) {
            Some(i) => {
                let ghost before = self.monitors@;
                let prev = self.monitors.remove(i);
                let mut m = m;
                if m.live_fps.is_none() {
                    m.live_fps = prev.live_fps;
                }
                self.monitors.insert(i, m);
                assert(row_views(self.monitors@) =~= upsert_spec(row_views(before), m@));
            },
            None => {
                let ghost before = self.monitors@;
                self.monitors.push(m);
                assert(row_views(self.monitors@) =~= row_views(before).push(m@));
            },
        }
    }

    fn remove_key(&mut self, key: &String)
        ensures
            final(self)@.rows == old(self)@.rows.filter(key_differs::<F>(key@)),
            final(self)@.active_key == old(self)@.active_key,
    {
        let ghost orig = row_views(self.monitors@);
        let ghost pred = key_differs::<F>(key@);
        let ghost mut j: int = 0;
        let mut i: usize = 0;
        assert(orig.take(0).filter(pred) =~= Seq::<MonitorView<F>>::empty());
        assert(orig.skip(0) =~= orig);
        while i < self.monitors.len()
            invariant
                pred == key_differs::<F>(key@),
                orig == row_views(old(self).monitors@),
                0 <= j <= orig.len(),
                i as int == orig.take(j).filter(pred).len(),
                row_views(self.monitors@) == orig.take(j).filter(pred) + orig.skip(j),
                self.active_key == old(self).active_key,
            decreases orig.len() - j,
        {
            proof {
                assert(row_views(self.monitors@)[i as int] == orig[j]);
                lemma_filter_take_step(orig, pred, j);
            }
            let ghost a = orig.take(j).filter(pred);
            let ghost before = row_views(self.monitors@);
            if self.monitors[i].key == *key {
                self.monitors.remove(i);
                proof {
                    assert(!pred(orig[j]));
                    assert(a.len() == i);
                    assert(row_views(self.monitors@).len() + 1 == before.len());
                    assert(before.len() == a.len() + orig.len() - j);
                    assert forall|k: int| 0 <= k < row_views(self.monitors@).len() implies #[trigger] row_views(self.monitors@)[k]
                        == (a + orig.skip(j + 1))[k] by {
                        if k < i {
                            assert(row_views(self.monitors@)[k] == before[k]);
                            assert(before[k] == a[k]);
                        } else {
                            assert(row_views(self.monitors@)[k] == before[k + 1]);
                            assert(before[k + 1] == orig.skip(j)[k + 1 - i]);
                            assert((a + orig.skip(j + 1))[k] == orig.skip(j + 1)[k - i]);
                        }
                    }
                    assert(row_views(self.monitors@) =~= orig.take(j + 1).filter(pred) + orig.skip(
                        j + 1,
                    ));
                    j = j + 1;
                }
            } else {
                proof {
                    assert(pred(orig[j]));
                    assert(a.push(orig[j]) + orig.skip(j + 1) =~= a + orig.skip(j));
                    j = j + 1;
                }
                i = i + 1;
            }
        }
        proof {
            assert(orig.take(j).filter(pred).len() + orig.skip(j).len() == i);
            assert(orig.take(j) =~= orig);
            assert(orig.skip(j) =~= Seq::<MonitorView<F>>::empty());
            assert(row_views(self.monitors@) =~= orig.filter(pred));
        }
    }

    /// Fold one compositor output event into the census: created or
    /// updated outputs replace their row (keeping its reading) or join at
    /// the end; a removed output's row leaves. The active output stays.
    pub fn apply(&mut self, change: OutputChange, key: String)
        ensures
            final(self)@.rows == apply_spec(old(self)@.rows, change, key@),
            final(self)@.active_key == old(self)@.active_key,
    {
        match change {
            OutputChange::Created(Some(info)) => {
                let row = row_of(info, key);
                self.upsert(row);
            },
            OutputChange::Created(None) => {
                let name = string_of(chars_of("unknown").as_slice());
                proof {
                    reveal_strlit("unknown");
                }
                assert(name@ =~= unknown_name());
                let row = Monitor {
                    key,
                    global_id: 0,
                    name,
                    refresh_mhz: 0,
                    logical_size: None,
                    live_fps: None,
                };
                self.upsert(row);
            },
            OutputChange::InfoUpdate(info) => {
                let row = row_of(info, key);
                self.upsert(row);
            },
            OutputChange::Removed => {
                self.remove_key(&key);
            },
        }
    }

    /// The surface was configured at `w` x `h`: mark the first output of
    /// that logical size as the active one; with none, keep the last.
    pub fn surface_on(&mut self, w: i32, h: i32)
        ensures
            final(self)@.rows == old(self)@.rows,
            final(self)@.active_key == surface_spec(old(self)@, w, h),
    {
        let ghost sizes = sizes_of(self@.rows);
        let mut i: usize = 0;
        while i < self.monitors.len()
            invariant
                sizes == sizes_of(self@.rows),
                sizes.len() == self.monitors@.len(),
                self.monitors@ == old(self).monitors@,
                self.active_key == old(self).active_key,
                i <= self.monitors@.len(),
                forall|j: int| 0 <= j < i ==> #[trigger] sizes[j] != Some((w, h)),
            decreases self.monitors@.len() - i,
        {
            if same_size(self.monitors[i].logical_size, w, h) {
                proof {
                    assert(sizes[i as int] == Some((w, h)));
                    assert(first_at(sizes, Some((w, h)), i as int));
                    lemma_found_first(sizes, Some((w, h)), i as int);
                }
                self.active_key = Some(self.monitors[i].key.clone());
                return;
            }
            i = i + 1;
        }
        assert(!sizes.contains(Some((w, h)))) by {
            if sizes.contains(Some((w, h))) {
                let k = choose|k: int| 0 <= k < sizes.len() && sizes[k] == Some((w, h));
                assert(sizes[k] != Some((w, h)));
            }
        }
    }

    /// Store a frame-rate reading on the active output's row.
    pub fn record_fps(&mut self, fps: F)
        ensures
            final(self)@.rows == record_spec(old(self)@, fps),
            final(self)@.active_key == old(self)@.active_key,
    {
        let pos = match &self.active_key {
            Some(k) => self.key_position(k),
            None => None,
        };
        if let Some(i) = pos {
            let ghost before = self.monitors@;
            let mut row = self.monitors.remove(i);
            row.live_fps = Some(fps);
            self.monitors.insert(i, row);
            assert(row_views(self.monitors@) =~= record_spec(old(self)@, fps));
        }
    }
}

// ---------------------------------------------------------------------------
// Laws
// ---------------------------------------------------------------------------

proof fn lemma_filter_keeps_keys_distinct<F>(rows: Seq<MonitorView<F>>, pred: spec_fn(MonitorView<F>) -> bool)
    requires
        keys_distinct(rows),
    ensures
        keys_distinct(rows.filter(pred)),
        forall|i: int| 0 <= i < rows.filter(pred).len() ==> rows.contains(#[trigger] rows.filter(pred)[i]),
    decreases rows.len(),
{
    if rows.len() > 0 {
        let r = rows.drop_last();
        let x = rows.last();
        assert(r.push(x) =~= rows);
        assert(keys_distinct(r)) by {
            assert forall|i: int, j: int|
                0 <= i < r.len() && 0 <= j < r.len() && i != j implies #[trigger] r[i].key
                    != #[trigger] r[j].key by {
                assert(r[i] == rows[i] && r[j] == rows[j]);
            }
        }
        lemma_filter_keeps_keys_distinct(r, pred);
        r.lemma_filter_push(x, pred);
        let fr = r.filter(pred);
        assert forall|i: int| 0 <= i < fr.len() implies #[trigger] fr[i].key != x.key by {
            assert(r.contains(fr[i]));
            let k = choose|k: int| 0 <= k < r.len() && r[k] == fr[i];
            assert(rows[k] == fr[i]);
            assert(rows[rows.len() - 1] == x);
        }
        assert forall|i: int| 0 <= i < rows.filter(pred).len() implies rows.contains(
            #[trigger] rows.filter(pred)[i],
        ) by {
            if pred(x) && i == fr.len() {
                assert(rows[rows.len() - 1] == x);
            } else {
                assert(rows.filter(pred)[i] == fr[i]);
                assert(r.contains(fr[i]));
                let k = choose|k: int| 0 <= k < r.len() && r[k] == fr[i];
                assert(rows[k] == fr[i]);
            }
        }
    } else {
        assert(rows.filter(pred) =~= rows) by {
            reveal_with_fuel(Seq::filter, 1);
        }
    }
}

/// Every output event keeps the census free of two rows with one key:
/// created and updated outputs land on their own row, removals only take
/// rows away.
pub proof fn law_apply_keeps_keys_distinct<F>(rows: Seq<MonitorView<F>>, change: OutputChange, key: Seq<char>)
    requires
        keys_distinct(rows),
    ensures
        keys_distinct(apply_spec(rows, change, key)),
{
    match change {
        OutputChange::Removed => {
            lemma_filter_keeps_keys_distinct(rows, key_differs::<F>(key));
        },
        _ => {
            let m: MonitorView<F> = match change {
                OutputChange::Created(Some(info)) => info_row(info, key),
                OutputChange::InfoUpdate(info) => info_row(info, key),
                _ => unknown_row(key),
            };
            assert(m.key == key);
            let ks = keys_of(rows);
            if ks.contains(key) {
                crate::seqs::lemma_first_index(ks, key);
            } else {
                let out = rows.push(m);
                assert forall|i: int, j: int|
                    0 <= i < out.len() && 0 <= j < out.len() && i != j implies #[trigger] out[i].key
                        != #[trigger] out[j].key by {
                    if i == rows.len() {
                        assert(ks[j] == rows[j].key);
                    } else if j == rows.len() {
                        assert(ks[i] == rows[i].key);
                    }
                }
            }
        },
    }
}

/// After an output is created or updated exactly its key's row stands for
/// it; after it is removed no row has its key.
pub proof fn law_apply_key_presence<F>(rows: Seq<MonitorView<F>>, change: OutputChange, key: Seq<char>)
    ensures
        (change is Removed) ==> !keys_of(apply_spec(rows, change, key)).contains(key),
        !(change is Removed) ==> keys_of(apply_spec(rows, change, key)).contains(key),
{
    let out = apply_spec(rows, change, key);
    match change {
        OutputChange::Removed => {
            if keys_of(out).contains(key) {
                let k = choose|k: int| 0 <= k < keys_of(out).len() && keys_of(out)[k] == key;
                rows.lemma_filter_pred(key_differs::<F>(key), k);
            }
        },
        _ => {
            let ks = keys_of(rows);
            if ks.contains(key) {
                crate::seqs::lemma_first_index(ks, key);
                let i = first_index(ks, key);
                assert(keys_of(out)[i] == key);
            } else {
                assert(keys_of(out)[rows.len() as int] == key);
            }
        },
    }
}

/// New information about a known output refreshes its row but never wipes
/// the frame rate measured on it; every other row stays as it was.
pub proof fn law_update_keeps_reading<F>(rows: Seq<MonitorView<F>>, info: OutputInfo, key: Seq<char>)
    requires
        keys_of(rows).contains(key),
    ensures
        ({
            let out = apply_spec(rows, OutputChange::InfoUpdate(info), key);
            let i = first_index(keys_of(rows), key);
            &&& out.len() == rows.len()
            &&& 0 <= i < rows.len()
            &&& out[i].key == key
            &&& out[i].live_fps == rows[i].live_fps
            &&& out[i].refresh_mhz == current_refresh(info.modes@)
            &&& forall|j: int| 0 <= j < rows.len() && j != i ==> #[trigger] out[j] == rows[j]
        }),
{
    crate::seqs::lemma_first_index(keys_of(rows), key);
}

} // verus!
