//! Bringing drawers onto stable registry ids, and dropping pinned ids that
//! no longer resolve to an installed app.

use vstd::prelude::*;

use crate::appid::{app_ids, find_app, resolve, resolves};
use crate::catalog::AppEntry;
use crate::drawers::{Drawer, DrawerState, DrawerView};
use crate::registry::{EntryKind, EntryView, Registry, RegistryView, app_record, is_uuid, path_key, path_record, registered, uuid_parses};
use crate::text::string_views;

verus! {

/// An id that migration replaces: not a UUID yet, and known to the catalog.
pub open spec fn needs_registration(a: Seq<char>, ids: Seq<Seq<char>>) -> bool {
    !uuid_parses(a) && ids.contains(a)
}

/// What migration turns a pinned id into, given the final source index.
pub open spec fn migrated_id(a: Seq<char>, ids: Seq<Seq<char>>, si: Map<Seq<char>, Seq<char>>) -> Seq<char> {
    if needs_registration(a, ids) {
        si[a]
    } else {
        a
    }
}

pub open spec fn migrated_drawer(d: DrawerView, ids: Seq<Seq<char>>, si: Map<Seq<char>, Seq<char>>) -> DrawerView {
    DrawerView { apps: d.apps.map_values(|a: Seq<char>| migrated_id(a, ids, si)), ..d }
}

/// The registry keys of a drawer's files.
pub open spec fn file_keys(d: DrawerView) -> Seq<Seq<char>> {
    d.files.map_values(|f: (Seq<char>, Seq<char>)| path_key(f.0))
}

/// The source-index keys that migrating drawer `d` registers.
pub open spec fn drawer_needs(d: DrawerView, ids: Seq<Seq<char>>, k: Seq<char>) -> bool {
    (d.apps.contains(k) && needs_registration(k, ids)) || file_keys(d).contains(k)
}

/// The source-index keys that migrating the first `n` drawers registers.
pub open spec fn drawers_need(ds: Seq<DrawerView>, ids: Seq<Seq<char>>, n: int, k: Seq<char>) -> bool {
    exists|p: int| 0 <= p < n && #[trigger] drawer_needs(ds[p], ids, k)
}

/// Some pinned id of `d` is replaced by migration.
pub open spec fn drawer_migrates(d: DrawerView, ids: Seq<Seq<char>>) -> bool {
    exists|j: int| 0 <= j < d.apps.len() && needs_registration(#[trigger] d.apps[j], ids)
}

/// The registry only grows: recorded source ids keep their stable ids, and
/// recorded entries stay recorded.
pub open spec fn grows(a: RegistryView, b: RegistryView) -> bool {
    &&& forall|k: Seq<char>| #[trigger] a.source_index.contains_key(k) ==> b.source_index.contains_key(k)
        && b.source_index[k] == a.source_index[k]
    &&& forall|id: Seq<char>| #[trigger] a.entries.contains_key(id) ==> b.entries.contains_key(id)
}

/// `k` was recorded in `b` and not yet in `a`.
pub open spec fn fresh_key(a: RegistryView, b: RegistryView, k: Seq<char>) -> bool {
    b.source_index.contains_key(k) && !a.source_index.contains_key(k)
}

/// The entry of each source id recorded after `a` records that source id,
/// unless the UUID drawn for it was already taken: by an entry of `a`, or
/// by another source id recorded after `a`. (UUIDs are drawn at random;
/// that two coincide rests on chance and is not ruled out.)
pub open spec fn records_new_keys(a: RegistryView, b: RegistryView) -> bool {
    forall|k: Seq<char>|
        #[trigger] fresh_key(a, b, k) ==> {
            ||| b.entries[b.source_index[k]].source_id == k
            ||| a.entries.contains_key(b.source_index[k])
            ||| exists|k2: Seq<char>| k2 != k && #[trigger] fresh_key(a, b, k2) && b.source_index[k2] == b.source_index[k]
        }
}

/// Entries added or changed after `a` are those of source ids recorded
/// after `a`.
pub open spec fn touches_only_new(a: RegistryView, b: RegistryView) -> bool {
    forall|id: Seq<char>|
        #[trigger] b.entries.contains_key(id) && (!a.entries.contains_key(id) || b.entries[id] != a.entries[id])
            ==> exists|k: Seq<char>| #[trigger] fresh_key(a, b, k) && b.source_index[k] == id
}

/// Source ids recorded after `a` map to UUIDs that have an entry, which
/// records that source id (unless two drawn UUIDs coincide), and only their
/// entries were added or changed.
pub open spec fn new_keys_valid(a: RegistryView, b: RegistryView) -> bool {
    &&& forall|k: Seq<char>|
        #[trigger] b.source_index.contains_key(k) && !a.source_index.contains_key(k) ==> uuid_parses(
            b.source_index[k],
        ) && b.entries.contains_key(b.source_index[k])
    &&& records_new_keys(a, b)
    &&& touches_only_new(a, b)
}

/// One registration under `key` whose record names `key` as its source.
proof fn lemma_registered_step(a: RegistryView, b: RegistryView, key: Seq<char>, id: Seq<char>, rec: EntryView)
    requires
        registered(a, b, key, id, rec),
        rec.source_id == key,
    ensures
        grows(a, b),
        new_keys_valid(a, b),
{
    if a.source_index.contains_key(key) {
        assert forall|k: Seq<char>| #[trigger] fresh_key(a, b, k) implies false by {}
    } else {
        assert(b.source_index[key] == id);
        assert forall|k: Seq<char>| #[trigger] fresh_key(a, b, k) implies k == key by {
            if k != key {
                assert(b.source_index.contains_key(k) == a.source_index.contains_key(k));
            }
        }
        assert(fresh_key(a, b, key));
        assert(b.entries[id] == rec);
        assert forall|x: Seq<char>|
            #[trigger] b.entries.contains_key(x) && (!a.entries.contains_key(x) || b.entries[x] != a.entries[x])
                implies exists|k: Seq<char>| #[trigger] fresh_key(a, b, k) && b.source_index[k] == x by {
            if x != id {
                assert(b.entries[x] == a.entries[x]);
            }
        }
        assert forall|k: Seq<char>| #[trigger] a.source_index.contains_key(k) implies b.source_index.contains_key(k)
            && b.source_index[k] == a.source_index[k] by {
            assert(k != key);
        }
    }
}

proof fn lemma_chain(a: RegistryView, b: RegistryView, c: RegistryView)
    requires
        grows(a, b),
        grows(b, c),
        new_keys_valid(a, b),
        new_keys_valid(b, c),
    ensures
        grows(a, c),
        new_keys_valid(a, c),
{
    assert forall|k: Seq<char>| #[trigger] c.source_index.contains_key(k) && !a.source_index.contains_key(k) implies uuid_parses(
        c.source_index[k],
    ) && c.entries.contains_key(c.source_index[k]) by {
        if b.source_index.contains_key(k) {
            assert(b.entries.contains_key(b.source_index[k]));
        }
    }
    assert forall|k: Seq<char>| #[trigger] fresh_key(a, c, k) implies {
        ||| c.entries[c.source_index[k]].source_id == k
        ||| a.entries.contains_key(c.source_index[k])
        ||| exists|k2: Seq<char>| k2 != k && #[trigger] fresh_key(a, c, k2) && c.source_index[k2] == c.source_index[k]
    } by {
        let id = c.source_index[k];
        if b.source_index.contains_key(k) {
            assert(fresh_key(a, b, k));
            assert(b.source_index[k] == id);
            if c.entries[id] != b.entries[id] {
                assert(b.entries.contains_key(id));
                assert(c.entries.contains_key(id));
                let k1 = choose|k1: Seq<char>| #[trigger] fresh_key(b, c, k1) && c.source_index[k1] == id;
                assert(k1 != k);
                assert(fresh_key(a, c, k1));
            } else if b.entries[id].source_id == k {
            } else if a.entries.contains_key(id) {
            } else {
                let k2 = choose|k2: Seq<char>| k2 != k && #[trigger] fresh_key(a, b, k2) && b.source_index[k2] == id;
                assert(fresh_key(a, c, k2));
            }
        } else {
            assert(fresh_key(b, c, k));
            if c.entries[id].source_id == k {
            } else if b.entries.contains_key(id) {
                if a.entries.contains_key(id) {
                } else {
                    let k1 = choose|k1: Seq<char>| #[trigger] fresh_key(a, b, k1) && b.source_index[k1] == id;
                    assert(k1 != k);
                    assert(fresh_key(a, c, k1));
                }
            } else {
                let k2 = choose|k2: Seq<char>| k2 != k && #[trigger] fresh_key(b, c, k2) && c.source_index[k2] == id;
                assert(fresh_key(a, c, k2));
            }
        }
    }
    assert forall|id: Seq<char>|
        #[trigger] c.entries.contains_key(id) && (!a.entries.contains_key(id) || c.entries[id] != a.entries[id])
            implies exists|k: Seq<char>| #[trigger] fresh_key(a, c, k) && c.source_index[k] == id by {
        if !b.entries.contains_key(id) || c.entries[id] != b.entries[id] {
            let k1 = choose|k1: Seq<char>| #[trigger] fresh_key(b, c, k1) && c.source_index[k1] == id;
            assert(fresh_key(a, c, k1));
        } else {
            let k1 = choose|k1: Seq<char>| #[trigger] fresh_key(a, b, k1) && b.source_index[k1] == id;
            assert(fresh_key(a, c, k1));
        }
    }
}

/// With every replaced id of `d` recorded in `si`, growing `si` changes
/// nothing.
proof fn lemma_migrated_stable(d: DrawerView, ids: Seq<Seq<char>>, a: RegistryView, b: RegistryView)
    requires
        grows(a, b),
        forall|k: Seq<char>| #[trigger] d.apps.contains(k) && needs_registration(k, ids) ==> a.source_index.contains_key(k),
    ensures
        migrated_drawer(d, ids, a.source_index) == migrated_drawer(d, ids, b.source_index),
{
    assert forall|j: int| 0 <= j < d.apps.len() implies migrated_id(#[trigger] d.apps[j], ids, a.source_index)
        == migrated_id(d.apps[j], ids, b.source_index) by {
        if needs_registration(d.apps[j], ids) {
            assert(d.apps.contains(d.apps[j]));
            assert(a.source_index.contains_key(d.apps[j]));
        }
    }
    assert(d.apps.map_values(|x: Seq<char>| migrated_id(x, ids, a.source_index)) =~= d.apps.map_values(
        |x: Seq<char>| migrated_id(x, ids, b.source_index),
    ));
}

fn copy_string(s: &String) -> (r: String)
    ensures
        r@ == s@,
{
    s.clone()
}

/// Migrate one drawer: replace each catalog-known, non-UUID id by its
/// stable id, and register each file path.
fn migrate_drawer(d: &mut Drawer, registry: &mut Registry, all_apps: &[AppEntry]) -> (changed: bool)
    ensures
        final(d)@ == migrated_drawer(old(d)@, app_ids(all_apps@), final(registry)@.source_index),
        grows(old(registry)@, final(registry)@),
        new_keys_valid(old(registry)@, final(registry)@),
        forall|k: Seq<char>| #[trigger] final(registry)@.source_index.contains_key(k) <==> (old(
            registry,
        )@.source_index.contains_key(k) || drawer_needs(old(d)@, app_ids(all_apps@), k)),
        changed == drawer_migrates(old(d)@, app_ids(all_apps@)),
{
    let ghost ids = app_ids(all_apps@);
    let ghost d0 = d@;
    let ghost r0 = registry@;
    let mut apps: Vec<String> = Vec::new();
    std::mem::swap(&mut apps, &mut d.apps);
    assert(string_views(apps@) == d0.apps);
    let mut new_apps: Vec<String> = Vec::new();
    let mut changed = false;
    let mut j: usize = 0;
    while j < apps.len()
        invariant
            ids == app_ids(all_apps@),
            string_views(apps@) == d0.apps,
            j <= apps@.len(),
            new_apps@.len() == j,
            grows(r0, registry@),
            new_keys_valid(r0, registry@),
            forall|k: Seq<char>| #[trigger] registry@.source_index.contains_key(k) <==> (
                r0.source_index.contains_key(k) || (d0.apps.take(j as int).contains(k)
                    && needs_registration(k, ids))),
            forall|q: int| 0 <= q < j ==> #[trigger] new_apps@[q]@ == migrated_id(d0.apps[q], ids, registry@.source_index),
            changed == exists|q: int| 0 <= q < j && needs_registration(#[trigger] d0.apps[q], ids),
        decreases apps@.len() - j,
    {
        let ghost before = registry@;
        let ghost a = d0.apps[j as int];
        let app_id = &apps[j];
        assert(app_id@ == a);
        if is_uuid(app_id.as_str()) {
            new_apps.push(copy_string(app_id));
        } else {
            match find_app(all_apps, app_id.as_str()) {
                Some(i) => {
                    let app = &all_apps[i];
                    assert(app.id@ == a) by {
                        crate::seqs::lemma_first_index(ids, a);
                    }
                    let stable_id = registry.register_app(
                        app.id.as_str(),
                        app.name.as_str(),
                        app.exec_line.as_str(),
                        app.icon_path.as_str(),
                    );
                    proof {
                        lemma_registered_step(
                            before,
                            registry@,
                            app.id@,
                            stable_id@,
                            app_record(stable_id@, app.id@, app.name@, app.exec_line@, app.icon_path@),
                        );
                    }
                    new_apps.push(stable_id);
                    changed = true;
                },
                None => {
                    new_apps.push(copy_string(app_id));
                },
            }
        }
        proof {
            let after = registry@;
            if after == before {
                assert(grows(before, after));
                assert(new_keys_valid(before, after));
            }
            lemma_chain(r0, before, after);
            assert(d0.apps.take(j + 1) =~= d0.apps.take(j as int).push(a));
            assert forall|q: int| 0 <= q < j + 1 implies #[trigger] new_apps@[q]@ == migrated_id(
                d0.apps[q],
                ids,
                after.source_index,
            ) by {
                if q < j && needs_registration(d0.apps[q], ids) {
                    assert(d0.apps.take(j as int)[q] == d0.apps[q]);
                    assert(before.source_index.contains_key(d0.apps[q]));
                }
            }
            assert forall|k: Seq<char>| #[trigger] after.source_index.contains_key(k) <==> (
                r0.source_index.contains_key(k) || (d0.apps.take(j + 1).contains(k)
                    && needs_registration(k, ids))) by {
                let t1 = d0.apps.take(j + 1);
                let t0 = d0.apps.take(j as int);
                if t1.contains(k) && k != a {
                    let q = choose|q: int| 0 <= q < t1.len() && t1[q] == k;
                    assert(t0[q] == k);
                }
                if t0.contains(k) {
                    let q = choose|q: int| 0 <= q < t0.len() && t0[q] == k;
                    assert(t1[q] == k);
                }
                assert(t1[j as int] == a);
            }
        }
        j = j + 1;
    }
    assert(d0.apps.take(j as int) =~= d0.apps);
    d.apps = new_apps;
    assert(d@.apps =~= d0.apps.map_values(|x: Seq<char>| migrated_id(x, ids, registry@.source_index)));
    let ghost r1 = registry@;
    let mut f: usize = 0;
    while f < d.files.len()
        invariant
            ids == app_ids(all_apps@),
            d@ == migrated_drawer(d0, ids, r1.source_index),
            forall|k: Seq<char>| #[trigger] d0.apps.contains(k) && needs_registration(k, ids) ==> r1.source_index.contains_key(k),
            f <= d.files@.len(),
            grows(r0, r1),
            new_keys_valid(r0, r1),
            grows(r1, registry@),
            new_keys_valid(r1, registry@),
            forall|k: Seq<char>| #[trigger] r1.source_index.contains_key(k) <==> (
                r0.source_index.contains_key(k) || (d0.apps.contains(k) && needs_registration(k, ids))),
            forall|k: Seq<char>| #[trigger] registry@.source_index.contains_key(k) <==> (
                r1.source_index.contains_key(k) || file_keys(d0).take(f as int).contains(k)),
        decreases d.files@.len() - f,
    {
        let ghost before = registry@;
        let fid = registry.register_path(d.files[f].path.as_str(), EntryKind::File);
        proof {
            lemma_registered_step(
                before,
                registry@,
                path_key(d.files@[f as int].path@),
                fid@,
                path_record(fid@, d.files@[f as int].path@, EntryKind::File),
            );
            let after = registry@;
            let fk = file_keys(d0);
            assert(fk[f as int] == path_key(d.files@[f as int].path@));
            lemma_chain(r1, before, after);
            assert forall|k: Seq<char>| #[trigger] after.source_index.contains_key(k) <==> (
                r1.source_index.contains_key(k) || fk.take(f + 1).contains(k)) by {
                let t1 = fk.take(f + 1);
                let t0 = fk.take(f as int);
                assert(t1[f as int] == fk[f as int]);
                if t1.contains(k) && k != fk[f as int] {
                    let q = choose|q: int| 0 <= q < t1.len() && t1[q] == k;
                    assert(t0[q] == k);
                }
                if t0.contains(k) {
                    let q = choose|q: int| 0 <= q < t0.len() && t0[q] == k;
                    assert(t1[q] == k);
                }
            }
        }
        f = f + 1;
    }
    proof {
        let fin = registry@;
        assert(file_keys(d0).take(f as int) =~= file_keys(d0));
        lemma_chain(r0, r1, fin);
        lemma_migrated_stable(d0, ids, r1, fin);
    }
    changed
}

/// Walk all drawers and ensure every app ID is registered.
/// Replaces old source IDs with stable UUIDs in place. The registry entry
/// of each newly recorded source id records that source id, unless the
/// UUID drawn for it coincided with one already taken.
pub fn migrate_drawers(drawer_state: &mut DrawerState, registry: &mut Registry, all_apps: &[AppEntry]) -> (changed: bool)
    ensures
        final(drawer_state)@.len() == old(drawer_state)@.len(),
        forall|i: int| 0 <= i < old(drawer_state)@.len() ==> #[trigger] final(drawer_state)@[i] == migrated_drawer(
            old(drawer_state)@[i],
            app_ids(all_apps@),
            final(registry)@.source_index,
        ),
        grows(old(registry)@, final(registry)@),
        new_keys_valid(old(registry)@, final(registry)@),
        records_new_keys(old(registry)@, final(registry)@),
        forall|k: Seq<char>| #[trigger] final(registry)@.source_index.contains_key(k) <==> (old(
            registry,
        )@.source_index.contains_key(k) || drawers_need(old(drawer_state)@, app_ids(all_apps@), old(drawer_state)@.len() as int, k)),
        changed == exists|i: int| 0 <= i < old(drawer_state)@.len() && drawer_migrates(#[trigger] old(drawer_state)@[i], app_ids(all_apps@)),
{
    let ghost ids = app_ids(all_apps@);
    let ghost ds0 = drawer_state@;
    let ghost r0 = registry@;
    let n = drawer_state.drawers.len();
    let mut changed = false;
    let mut i: usize = 0;
    while i < n
        invariant
            ids == app_ids(all_apps@),
            n == ds0.len(),
            i <= n,
            drawer_state@.len() == n,
            forall|p: int| i <= p < n ==> #[trigger] drawer_state@[p] == ds0[p],
            forall|p: int| 0 <= p < i ==> #[trigger] drawer_state@[p] == migrated_drawer(ds0[p], ids, registry@.source_index),
            grows(r0, registry@),
            new_keys_valid(r0, registry@),
            forall|k: Seq<char>| #[trigger] registry@.source_index.contains_key(k) <==> (
                r0.source_index.contains_key(k) || drawers_need(ds0, ids, i as int, k)),
            changed == exists|p: int| 0 <= p < i && drawer_migrates(#[trigger] ds0[p], ids),
        decreases n - i,
    {
        let ghost before = registry@;
        let ghost dsb = drawer_state.drawers@;
        let ghost vb = drawer_state@;
        assert(vb[i as int] == dsb[i as int]@);
        let mut d = drawer_state.drawers.remove(i);
        assert(d@ == ds0[i as int]);
        let c = migrate_drawer(&mut d, registry, all_apps);
        drawer_state.drawers.insert(i, d);
        if c {
            changed = true;
        }
        proof {
            let after = registry@;
            if after == before {
                assert(grows(before, after));
                assert(new_keys_valid(before, after));
            }
            lemma_chain(r0, before, after);
            assert(drawer_state.drawers@ =~= dsb.update(i as int, d));
            assert(drawer_state@ =~= vb.update(i as int, d@));
            assert forall|p: int| 0 <= p < i + 1 implies #[trigger] drawer_state@[p] == migrated_drawer(
                ds0[p],
                ids,
                after.source_index,
            ) by {
                if p < i {
                    assert forall|k: Seq<char>| #[trigger] ds0[p].apps.contains(k) && needs_registration(k, ids) implies before.source_index.contains_key(k) by {
                        assert(drawer_needs(ds0[p], ids, k));
                        assert(drawers_need(ds0, ids, i as int, k));
                    }
                    lemma_migrated_stable(ds0[p], ids, before, after);
                }
            }
            assert forall|k: Seq<char>| #[trigger] after.source_index.contains_key(k) <==> (
                r0.source_index.contains_key(k) || drawers_need(ds0, ids, i + 1, k)) by {
                if drawers_need(ds0, ids, i + 1, k) && !drawer_needs(ds0[i as int], ids, k) {
                    let p = choose|p: int| 0 <= p < i + 1 && #[trigger] drawer_needs(ds0[p], ids, k);
                    assert(drawers_need(ds0, ids, i as int, k));
                }
                if drawers_need(ds0, ids, i as int, k) {
                    let p = choose|p: int| 0 <= p < i && #[trigger] drawer_needs(ds0[p], ids, k);
                    assert(drawers_need(ds0, ids, i + 1, k));
                }
                if drawer_needs(ds0[i as int], ids, k) {
                    assert(drawers_need(ds0, ids, i + 1, k));
                }
            }
            if c {
                assert(drawer_migrates(ds0[i as int], ids));
            }
        }
        i = i + 1;
    }
    changed
}

/// The drawer with only the pinned ids that still resolve.
pub open spec fn pruned_drawer(d: DrawerView, apps: Seq<AppEntry>, reg: RegistryView) -> DrawerView {
    DrawerView { apps: d.apps.filter(|a: Seq<char>| resolves(a, apps, reg)), ..d }
}

/// Some pinned id of `d` no longer resolves.
pub open spec fn has_dead(d: DrawerView, apps: Seq<AppEntry>, reg: RegistryView) -> bool {
    exists|j: int| 0 <= j < d.apps.len() && !resolves(#[trigger] d.apps[j], apps, reg)
}

fn prune_drawer(d: &mut Drawer, registry: &Registry, all_apps: &[AppEntry]) -> (changed: bool)
    ensures
        final(d)@ == pruned_drawer(old(d)@, all_apps@, registry@),
        changed == has_dead(old(d)@, all_apps@, registry@),
{
    let ghost d0 = d@;
    let ghost pred = |a: Seq<char>| resolves(a, all_apps@, registry@);
    let mut apps: Vec<String> = Vec::new();
    std::mem::swap(&mut apps, &mut d.apps);
    assert(string_views(apps@) == d0.apps);
    let mut kept: Vec<String> = Vec::new();
    let mut changed = false;
    let mut j: usize = 0;
    assert(d0.apps.take(0).filter(pred) =~= seq![]) by {
        reveal_with_fuel(Seq::filter, 1);
    }
    assert(string_views(kept@) =~= seq![]);
    while j < apps.len()
        invariant
            string_views(apps@) == d0.apps,
            j <= apps@.len(),
            pred == (|a: Seq<char>| resolves(a, all_apps@, registry@)),
            string_views(kept@) == d0.apps.take(j as int).filter(pred),
            changed == exists|q: int| 0 <= q < j && !resolves(#[trigger] d0.apps[q], all_apps@, registry@),
        decreases apps@.len() - j,
    {
        proof {
            crate::seqs::lemma_filter_take_step(d0.apps, pred, j as int);
        }
        let app_id = &apps[j];
        assert(app_id@ == d0.apps[j as int]);
        if resolve(app_id.as_str(), all_apps, registry).is_some() {
            let ghost before = kept@;
            kept.push(copy_string(app_id));
            assert(string_views(kept@) =~= string_views(before).push(app_id@));
        } else {
            changed = true;
        }
        j = j + 1;
    }
    assert(d0.apps.take(j as int) =~= d0.apps);
    d.apps = kept;
    assert(d@ =~= pruned_drawer(d0, all_apps@, registry@));
    changed
}

/// Remove drawer app entries that no longer resolve to any installed app.
/// Returns true if anything was removed.
pub fn prune_dead_apps(drawer_state: &mut DrawerState, registry: &Registry, all_apps: &[AppEntry]) -> (changed: bool)
    ensures
        final(drawer_state)@.len() == old(drawer_state)@.len(),
        forall|i: int| 0 <= i < old(drawer_state)@.len() ==> #[trigger] final(drawer_state)@[i] == pruned_drawer(
            old(drawer_state)@[i],
            all_apps@,
            registry@,
        ),
        changed == exists|i: int| 0 <= i < old(drawer_state)@.len() && has_dead(#[trigger] old(drawer_state)@[i], all_apps@, registry@),
{
    let ghost ds0 = drawer_state@;
    let n = drawer_state.drawers.len();
    let mut changed = false;
    let mut i: usize = 0;
    while i < n
        invariant
            n == ds0.len(),
            i <= n,
            drawer_state@.len() == n,
            forall|p: int| i <= p < n ==> #[trigger] drawer_state@[p] == ds0[p],
            forall|p: int| 0 <= p < i ==> #[trigger] drawer_state@[p] == pruned_drawer(ds0[p], all_apps@, registry@),
            changed == exists|p: int| 0 <= p < i && has_dead(#[trigger] ds0[p], all_apps@, registry@),
        decreases n - i,
    {
        let ghost dsb = drawer_state.drawers@;
        let ghost vb = drawer_state@;
        assert(vb[i as int] == dsb[i as int]@);
        let mut d = drawer_state.drawers.remove(i);
        let c = prune_drawer(&mut d, registry, all_apps);
        drawer_state.drawers.insert(i, d);
        if c {
            changed = true;
        }
        proof {
            assert(drawer_state.drawers@ =~= dsb.update(i as int, d));
            assert(drawer_state@ =~= vb.update(i as int, d@));
            if c {
                assert(has_dead(ds0[i as int], all_apps@, registry@));
            }
        }
        i = i + 1;
    }
    changed
}

/// Every stable id the source index records is a UUID.
pub open spec fn index_holds_uuids(r: RegistryView) -> bool {
    forall|k: Seq<char>| #[trigger] r.source_index.contains_key(k) ==> uuid_parses(r.source_index[k])
}

/// Migrating again after a migration changes nothing, so long as the
/// registry held only UUIDs before: no pinned id of the migrated drawers
/// needs registration, so a second run reports no change and leaves every
/// drawer as it is, whatever the registry then holds.
pub proof fn law_migrate_twice(
    ds0: Seq<DrawerView>,
    ds1: Seq<DrawerView>,
    r0: RegistryView,
    r1: RegistryView,
    ids: Seq<Seq<char>>,
    si: Map<Seq<char>, Seq<char>>,
)
    requires
        index_holds_uuids(r0),
        ds1.len() == ds0.len(),
        forall|i: int| 0 <= i < ds0.len() ==> #[trigger] ds1[i] == migrated_drawer(ds0[i], ids, r1.source_index),
        grows(r0, r1),
        new_keys_valid(r0, r1),
        forall|k: Seq<char>| #[trigger] r1.source_index.contains_key(k) <==> (r0.source_index.contains_key(k)
            || drawers_need(ds0, ids, ds0.len() as int, k)),
    ensures
        forall|i: int| 0 <= i < ds1.len() ==> !drawer_migrates(#[trigger] ds1[i], ids),
        forall|i: int| 0 <= i < ds1.len() ==> migrated_drawer(#[trigger] ds1[i], ids, si) == ds1[i],
{
    assert forall|i: int| 0 <= i < ds1.len() implies !drawer_migrates(#[trigger] ds1[i], ids)
        && migrated_drawer(ds1[i], ids, si) == ds1[i] by {
        let d0 = ds0[i];
        let d1 = ds1[i];
        assert forall|j: int| 0 <= j < d1.apps.len() implies !needs_registration(#[trigger] d1.apps[j], ids) by {
            let a = d0.apps[j];
            assert(d1.apps[j] == migrated_id(a, ids, r1.source_index));
            if needs_registration(a, ids) {
                assert(d0.apps.contains(a));
                assert(drawer_needs(d0, ids, a));
                assert(drawers_need(ds0, ids, ds0.len() as int, a));
                assert(r1.source_index.contains_key(a));
                if r0.source_index.contains_key(a) {
                    assert(uuid_parses(r0.source_index[a]));
                }
            }
        }
        assert(d1.apps.map_values(|x: Seq<char>| migrated_id(x, ids, si)) =~= d1.apps);
    }
}

/// Pruning is idempotent: after one prune every pinned id resolves, and a
/// second prune removes nothing.
pub proof fn law_prune_twice(d: DrawerView, apps: Seq<AppEntry>, reg: RegistryView)
    ensures
        !has_dead(pruned_drawer(d, apps, reg), apps, reg),
        pruned_drawer(pruned_drawer(d, apps, reg), apps, reg) == pruned_drawer(d, apps, reg),
{
    let pred = |a: Seq<char>| resolves(a, apps, reg);
    let kept = d.apps.filter(pred);
    broadcast use vstd::seq_lib::group_filter_ensures;
    assert forall|j: int| 0 <= j < kept.len() implies resolves(#[trigger] kept[j], apps, reg) by {
        assert(pred(kept[j]));
    }
    assert(kept.filter(pred) =~= kept) by {
        lemma_filter_all(kept, pred);
    }
}

proof fn lemma_filter_all<A>(s: Seq<A>, pred: spec_fn(A) -> bool)
    requires
        forall|j: int| 0 <= j < s.len() ==> pred(#[trigger] s[j]),
    ensures
        s.filter(pred) == s,
    decreases s.len(),
{
    reveal_with_fuel(Seq::filter, 1);
    if s.len() > 0 {
        lemma_filter_all(s.drop_last(), pred);
        assert(pred(s[s.len() - 1]));
        assert(s.drop_last().push(s.last()) =~= s);
    }
}

} // verus!
