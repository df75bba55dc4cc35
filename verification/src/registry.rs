//! Stable app/file/dir id registry: maps stable UUIDs to entry metadata so
//! drawer entries survive renames and source changes.

use vstd::prelude::*;

use crate::strmap::StrMap;
use crate::paths::{file_name_of, path_file_name};
use crate::text::{ascii_lower, chars_of, string_of};

verus! {

#[derive(Clone, Copy, Debug, PartialEq, Eq, Structural)]
pub enum EntryKind {
    App,
    File,
    Dir,
}

#[derive(Debug)]
pub struct RegistryEntry {
    /// Stable UUID — never changes.
    pub id: String,
    pub kind: EntryKind,
    pub name: String,
    /// exec string for App, absolute path for File/Dir.
    pub exec_or_path: String,
    pub icon: String,
    /// Original source ID e.g. "desktop:Firefox.desktop".
    pub source_id: String,
}

pub struct EntryView {
    pub id: Seq<char>,
    pub kind: EntryKind,
    pub name: Seq<char>,
    pub exec_or_path: Seq<char>,
    pub icon: Seq<char>,
    pub source_id: Seq<char>,
}

impl View for RegistryEntry {
    type V = EntryView;

    open spec fn view(&self) -> EntryView {
        EntryView {
            id: self.id@,
            kind: self.kind,
            name: self.name@,
            exec_or_path: self.exec_or_path@,
            icon: self.icon@,
            source_id: self.source_id@,
        }
    }
}

pub struct Registry {
    /// stable_id -> entry
    pub entries: StrMap<RegistryEntry>,
    /// source_id -> stable_id (for fast lookup during indexing)
    pub source_index: StrMap<String>,
}

/// Abstract registry: entries by stable id, and stable ids by source id.
pub struct RegistryView {
    pub entries: Map<Seq<char>, EntryView>,
    pub source_index: Map<Seq<char>, Seq<char>>,
}

impl View for Registry {
    type V = RegistryView;

    open spec fn view(&self) -> RegistryView {
        RegistryView {
            entries: self.entries.view().map_values(|e: RegistryEntry| e@),
            source_index: self.source_index.view().map_values(|s: String| s@),
        }
    }
}

// ---------------------------------------------------------------------------
// Outside calls
// ---------------------------------------------------------------------------

/// An ASCII hex digit, either case.
pub open spec fn is_hex_char(c: char) -> bool {
    ('0' <= c && c <= '9') || ('a' <= c && c <= 'f') || ('A' <= c && c <= 'F')
}

/// 32 hex digits.
pub open spec fn simple_uuid(s: Seq<char>) -> bool {
    s.len() == 32 && forall|i: int| 0 <= i < 32 ==> is_hex_char(#[trigger] s[i])
}

/// 36 characters: hex digits in groups of 8, 4, 4, 4 and 12, joined by
/// hyphens.
pub open spec fn hyphenated_uuid(s: Seq<char>) -> bool {
    s.len() == 36 && forall|i: int|
        0 <= i < 36 ==> if i == 8 || i == 13 || i == 18 || i == 23 {
            #[trigger] s[i] == '-'
        } else {
            is_hex_char(s[i])
        }
}

/// Whether `uuid::Uuid::parse_str` accepts the text: a simple or a
/// hyphenated UUID, a hyphenated one in braces, or one behind a `urn:uuid:`
/// prefix in any letter case. (Each of these is ASCII, so the byte lengths
/// the crate checks are these character counts.)
pub open spec fn uuid_parses(s: Seq<char>) -> bool {
    ||| simple_uuid(s)
    ||| hyphenated_uuid(s)
    ||| (s.len() == 38 && s[0] == '{' && s[37] == '}' && hyphenated_uuid(s.subrange(1, 37)))
    ||| (s.len() == 45 && (forall|i: int| 0 <= i < 9 ==> ascii_lower(#[trigger] s[i]) == "urn:uuid:"@[i])
        && hyphenated_uuid(s.skip(9)))
}

/// Calls `uuid::Uuid::parse_str` and reports whether it succeeded.
#[verifier::external_body]
pub(crate) fn is_uuid(s: &str) -> (b: bool)
    ensures
        b == uuid_parses(s@),
{
    uuid::Uuid::parse_str(s).is_ok()
}

/// A fresh random id: `uuid::Uuid::new_v4()` in its `Display` form, the
/// 36-character hyphenated text, which `parse_str` accepts. Which id comes
/// back is chance and is not stated.
#[verifier::external_body]
fn fresh_uuid() -> (s: String)
    ensures
        s@.len() == 36,
        uuid_parses(s@),
{
    uuid::Uuid::new_v4().to_string()
}

// ---------------------------------------------------------------------------
// Registry
// ---------------------------------------------------------------------------

pub open spec fn path_key(path: Seq<char>) -> Seq<char> {
    "path:"@ + path
}

/// Display name for a registered path: its file name, else the path itself.
pub open spec fn path_display_name(path: Seq<char>) -> Seq<char> {
    match path_file_name(path) {
        Some(n) => n,
        None => path,
    }
}

/// The entry recorded for a newly registered app.
pub open spec fn app_record(
    id: Seq<char>,
    source_id: Seq<char>,
    name: Seq<char>,
    exec_line: Seq<char>,
    icon: Seq<char>,
) -> EntryView {
    EntryView { id, kind: EntryKind::App, name, exec_or_path: exec_line, icon, source_id }
}

/// The entry recorded for a newly registered file or directory.
pub open spec fn path_record(id: Seq<char>, path: Seq<char>, kind: EntryKind) -> EntryView {
    EntryView {
        id,
        kind,
        name: path_display_name(path),
        exec_or_path: path,
        icon: seq![],
        source_id: path_key(path),
    }
}

/// One registration under `key`: a key already known gives back its id and
/// changes nothing; a new key gets a fresh UUID, recorded both ways.
pub open spec fn registered(
    before: RegistryView,
    after: RegistryView,
    key: Seq<char>,
    id: Seq<char>,
    rec: EntryView,
) -> bool {
    if before.source_index.contains_key(key) {
        &&& id == before.source_index[key]
        &&& after == before
    } else {
        &&& uuid_parses(id)
        &&& after.entries == before.entries.insert(id, rec)
        &&& after.source_index == before.source_index.insert(key, id)
    }
}

/// Registering a source id twice gives the same stable id both times, and
/// the second registration changes nothing.
pub proof fn law_register_twice(
    r0: RegistryView,
    r1: RegistryView,
    r2: RegistryView,
    key: Seq<char>,
    id1: Seq<char>,
    id2: Seq<char>,
    rec1: EntryView,
    rec2: EntryView,
)
    requires
        registered(r0, r1, key, id1, rec1),
        registered(r1, r2, key, id2, rec2),
    ensures
        r1.source_index.contains_key(key),
        r1.source_index[key] == id1,
        id2 == id1,
        r2 == r1,
{
}

proof fn lemma_map_values_insert<V, W>(m: Map<Seq<char>, V>, k: Seq<char>, v: V, f: spec_fn(V) -> W)
    ensures
        m.insert(k, v).map_values(f) == m.map_values(f).insert(k, f(v)),
{
    assert(m.insert(k, v).map_values(f) =~= m.map_values(f).insert(k, f(v)));
}

fn copy_string(s: &String) -> (r: String)
    ensures
        r@ == s@,
{
    s.clone()
}

impl Registry {
    pub fn new() -> (r: Self)
        ensures
            r@.entries == Map::<Seq<char>, EntryView>::empty(),
            r@.source_index == Map::<Seq<char>, Seq<char>>::empty(),
    {
        let r = Registry { entries: StrMap::new(), source_index: StrMap::new() };
        assert(r@.entries =~= Map::<Seq<char>, EntryView>::empty());
        assert(r@.source_index =~= Map::<Seq<char>, Seq<char>>::empty());
        r
    }

    pub fn get(&self, stable_id: &str) -> (r: Option<&RegistryEntry>)
        ensures
            match r {
                Some(e) => self@.entries.contains_key(stable_id@) && e@ == self@.entries[stable_id@],
                None => !self@.entries.contains_key(stable_id@),
            },
    {
        self.entries.get(stable_id)
    }

    fn insert_new(&mut self, key: &str, entry: RegistryEntry) -> (id: String)
        ensures
            id@ == entry.id@,
            final(self)@.entries == old(self)@.entries.insert(entry.id@, entry@),
            final(self)@.source_index == old(self)@.source_index.insert(key@, entry.id@),
    {
        let id = copy_string(&entry.id);
        let id2 = copy_string(&entry.id);
        let out = copy_string(&entry.id);
        proof {
            lemma_map_values_insert(self.entries.view(), entry.id@, entry, |e: RegistryEntry| e@);
            lemma_map_values_insert(self.source_index.view(), key@, id2, |s: String| s@);
        }
        self.entries.insert(id, entry);
        self.source_index.insert(key.to_owned(), id2);
        out
    }

    /// Register an app from the indexer. Returns its stable id: the one it
    /// already has, or a fresh one recorded for it.
    pub fn register_app(&mut self, source_id: &str, name: &str, exec_line: &str, icon: &str) -> (id: String)
        ensures
            registered(
                old(self)@,
                final(self)@,
                source_id@,
                id@,
                app_record(id@, source_id@, name@, exec_line@, icon@),
            ),
    {
        if let Some(id) = self.source_index.get(source_id) {
            return copy_string(id);
        }
        let id = fresh_uuid();
        let entry = RegistryEntry {
            id,
            kind: EntryKind::App,
            name: name.to_owned(),
            exec_or_path: exec_line.to_owned(),
            icon: icon.to_owned(),
            source_id: source_id.to_owned(),
        };
        self.insert_new(source_id, entry)
    }

    /// Register a file or directory. Returns its stable id.
    pub fn register_path(&mut self, path: &str, kind: EntryKind) -> (id: String)
        ensures
            registered(old(self)@, final(self)@, path_key(path@), id@, path_record(id@, path@, kind)),
    {
        let mut key_chars = chars_of("path:");
        let pc = chars_of(path);
        let mut i: usize = 0;
        let ghost prefix = key_chars@;
        while i < pc.len()
            invariant
                i <= pc@.len(),
                key_chars@ == prefix + pc@.take(i as int),
            decreases pc@.len() - i,
        {
            key_chars.push(pc[i]);
            assert(prefix + pc@.take(i + 1) =~= (prefix + pc@.take(i as int)).push(pc@[i as int]));
            i = i + 1;
        }
        assert(pc@.take(pc@.len() as int) =~= pc@);
        let key = string_of(key_chars.as_slice());
        assert(key@ == path_key(path@));
        if let Some(id) = self.source_index.get(key.as_str()) {
            return copy_string(id);
        }
        let id = fresh_uuid();
        let name = match file_name_of(path) {
            Some(n) => n,
            None => path.to_owned(),
        };
        let entry = RegistryEntry {
            id,
            kind,
            name,
            exec_or_path: path.to_owned(),
            icon: String::new(),
            source_id: copy_string(&key),
        };
        self.insert_new(key.as_str(), entry)
    }
}

} // verus!
