//! Resolving the ids that drawers hold (a stable registry id, or a legacy
//! catalog id) to catalog entries.

use vstd::prelude::*;

use crate::catalog::AppEntry;
use crate::registry::{app_record, registered, Registry, RegistryView};
use crate::seqs::{first_at, first_index, lemma_found_first};

verus! {

/// The catalog ids, in catalog order.
pub open spec fn app_ids(apps: Seq<AppEntry>) -> Seq<Seq<char>> {
    apps.map_values(|a: AppEntry| a.id@)
}

/// Which catalog entry an id resolves to, or -1: the first entry with that
/// id; failing that, the first entry whose id is the source id the registry
/// records for it.
pub open spec fn resolved_index(id: Seq<char>, apps: Seq<AppEntry>, reg: RegistryView) -> int {
    if app_ids(apps).contains(id) {
        first_index(app_ids(apps), id)
    } else if reg.entries.contains_key(id) {
        first_index(app_ids(apps), reg.entries[id].source_id)
    } else {
        -1
    }
}

pub open spec fn resolves(id: Seq<char>, apps: Seq<AppEntry>, reg: RegistryView) -> bool {
    resolved_index(id, apps, reg) >= 0
}

/// Position of the first catalog entry with this id.
pub fn find_app(all_apps: &[AppEntry], id: &str) -> (r: Option<usize>)
    ensures
        match r {
            Some(i) => app_ids(all_apps@).contains(id@) && i == first_index(app_ids(all_apps@), id@)
                && i < all_apps@.len(),
            None => !app_ids(all_apps@).contains(id@),
        },
{
    let key = id.to_owned();
    let mut i: usize = 0;
    while i < all_apps.len()
        invariant
            key@ == id@,
            i <= all_apps@.len(),
            forall|j: int| 0 <= j < i ==> #[trigger] app_ids(all_apps@)[j] != id@,
        decreases all_apps@.len() - i,
    {
        if all_apps[i].id == key {
            proof {
                assert(first_at(app_ids(all_apps@), id@, i as int));
                lemma_found_first(app_ids(all_apps@), id@, i as int);
            }
            return Some(i);
        }
        i = i + 1;
    }
    assert(!app_ids(all_apps@).contains(id@)) by {
        if app_ids(all_apps@).contains(id@) {
            let j = choose|j: int| 0 <= j < all_apps@.len() && app_ids(all_apps@)[j] == id@;
            assert(app_ids(all_apps@)[j] != id@);
        }
    }
    None
}

proof fn lemma_first_index_bounds(s: Seq<Seq<char>>, x: Seq<char>)
    ensures
        -1 <= first_index(s, x) < s.len(),
        first_index(s, x) == -1 <==> !s.contains(x),
{
    if s.contains(x) {
        crate::seqs::lemma_first_index(s, x);
    }
}

/// Resolve a stable UUID or legacy source ID to an AppEntry.
pub fn resolve<'a>(id: &str, all_apps: &'a [AppEntry], registry: &Registry) -> (r: Option<&'a AppEntry>)
    ensures
        -1 <= resolved_index(id@, all_apps@, registry@) < all_apps@.len(),
        match r {
            Some(a) => resolves(id@, all_apps@, registry@) && *a == all_apps@[resolved_index(
                id@,
                all_apps@,
                registry@,
            )],
            None => !resolves(id@, all_apps@, registry@),
        },
{
    proof {
        lemma_first_index_bounds(app_ids(all_apps@), id@);
        if registry@.entries.contains_key(id@) {
            lemma_first_index_bounds(app_ids(all_apps@), registry@.entries[id@].source_id);
        }
    }
    // Direct match: a legacy source id still in use.
    if let Some(i) = find_app(all_apps, id) {
        return Some(&all_apps[i]);
    }
    // Registry lookup: a stable UUID.
    if let Some(entry) = registry.get(id) {
        return match find_app(all_apps, entry.source_id.as_str()) {
            Some(i) => Some(&all_apps[i]),
            None => None,
        };
    }
    None
}


/// An id the catalog holds resolves to the first catalog entry with that id.
pub proof fn law_catalog_id_resolves(id: Seq<char>, apps: Seq<AppEntry>, reg: RegistryView)
    requires
        app_ids(apps).contains(id),
    ensures
        resolves(id, apps, reg),
        apps[resolved_index(id, apps, reg)].id@ == id,
{
    crate::seqs::lemma_first_index(app_ids(apps), id);
}

/// A stable id that registration hands out for a catalog app resolves to
/// the same catalog entry as the app's own id, so a drawer that switches to
/// the stable id keeps showing the same app (unless the fresh UUID happens
/// to be a catalog id itself).
pub proof fn law_registered_id_resolves_alike(
    r0: RegistryView,
    r1: RegistryView,
    apps: Seq<AppEntry>,
    source_id: Seq<char>,
    id: Seq<char>,
    name: Seq<char>,
    exec_line: Seq<char>,
    icon: Seq<char>,
)
    requires
        registered(r0, r1, source_id, id, app_record(id, source_id, name, exec_line, icon)),
        !r0.source_index.contains_key(source_id),
        app_ids(apps).contains(source_id),
        !app_ids(apps).contains(id),
    ensures
        resolves(id, apps, r1),
        resolved_index(id, apps, r1) == resolved_index(source_id, apps, r1),
{
    assert(r1.entries[id].source_id == source_id);
    crate::seqs::lemma_first_index(app_ids(apps), source_id);
}

} // verus!
