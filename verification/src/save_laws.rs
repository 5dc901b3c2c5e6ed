//! What holds of a world that was saved and loaded again.

use crate::component::ComponentView;
use crate::gameobject::{GameObjectView, WorldView};
use crate::registry::RegistryView;
use crate::save::{
    lemma_loading_components_grows, lemma_loading_objects_grows, lemma_loading_statics_grows,
    lemma_record_of, lemma_resolving_grows, live_among, loaded_components, loaded_objects,
    loaded_statics, new_id, new_ids, resolved_link, resolved_links, saved_ids, saved_link_id,
    ComponentSaveView, EngineSaveView, LinkFieldView, ObjectSaveView, StaticSaveView,
};
use crate::state::{are_handles, EngineView};
use crate::static_component::StaticComponentView;
use vstd::prelude::*;

verus! {

/// The entities that a save of the engine lists: those of the engine's list
/// for which the world answers, in their order.
pub open spec fn saved_entities(e: EngineView) -> Seq<i32> {
    live_among(e.state.objects, e.world, e.state.objects.len() as int)
}

/// The entity that the `k`-th record of a save of the engine stands for.
pub open spec fn entity(e: EngineView, k: int) -> GameObjectView {
    e.world.objects[saved_entities(e)[k] as int]
}

/// The world answers for every entity that a save lists.
pub proof fn lemma_listed_are_found(ids: Seq<i32>, w: WorldView, n: int, k: int)
    requires
        0 <= k < live_among(ids, w, n).len(),
    ensures
        w.find(live_among(ids, w, n)[k]) is Some,
        w.holds(live_among(ids, w, n)[k]),
    decreases n,
{
    if n > 0 {
        let rest = live_among(ids, w, n - 1);
        if k < rest.len() {
            lemma_listed_are_found(ids, w, n - 1, k);
        }
    }
}

/// The records of a save stand for the entities that the save lists, one for
/// one, and were saved under their identifiers.
pub proof fn lemma_records_are_entities(e: EngineView, s: EngineSaveView)
    requires
        e.world.wf(),
        s.is_saved(e),
    ensures
        s.objects.len() == saved_entities(e).len(),
        saved_ids(s.objects) == saved_entities(e),
        forall|k: int|
            0 <= k < s.objects.len() ==> (#[trigger] s.objects[k]).is_saved(
                entity(e, k),
                e.registry,
            ),
{
    let ids = saved_entities(e);
    assert forall|k: int| 0 <= k < ids.len() implies saved_ids(s.objects)[k] == ids[k] by {
        lemma_listed_are_found(e.state.objects, e.world, e.state.objects.len() as int, k);
        assert(s.objects[k].is_saved(e.world.objects[ids[k] as int], e.registry));
    }
    assert(saved_ids(s.objects) =~= ids);
}

/// Loading a link keeps the name of its field, its target and its
/// identifier, and the link table knows the identifier afterwards.
pub proof fn lemma_resolved_link_keeps_id(l: LinkFieldView, reg: RegistryView)
    ensures
        resolved_link(l, reg).0.name == l.name,
        resolved_link(l, reg).0.target == l.target,
        resolved_link(l, reg).0.link.id == l.link.id,
        l.link.id is Some ==> resolved_link(l, reg).1.links.contains_key(l.link.id->0),
        forall|id: u128| #[trigger]
            reg.links.contains_key(id) ==> resolved_link(l, reg).1.links.contains_key(id),
{
}

/// What the link table knows after some links were loaded it knows after
/// more were loaded.
pub proof fn lemma_resolving_is_monotone(links: Seq<LinkFieldView>, reg: RegistryView, m: int, n: int)
    requires
        0 <= m <= n <= links.len(),
    ensures
        forall|id: u128| #[trigger]
            resolved_links(links, reg, m).1.links.contains_key(id) ==> resolved_links(
                links,
                reg,
                n,
            ).1.links.contains_key(id),
    decreases n - m,
{
    if m < n {
        lemma_resolving_is_monotone(links, reg, m, n - 1);
        lemma_resolved_link_keeps_id(links[n - 1], resolved_links(links, reg, n - 1).1);
    }
}

/// The `i`-th of some loaded links has the identifier that it was saved
/// under, and the link table knows the identifier when all are loaded.
pub proof fn lemma_resolved_links_keep_ids(links: Seq<LinkFieldView>, reg: RegistryView, n: int, i: int)
    requires
        0 <= i < n <= links.len(),
    ensures
        resolved_links(links, reg, n).0.len() == n,
        resolved_links(links, reg, n).0[i].name == links[i].name,
        resolved_links(links, reg, n).0[i].target == links[i].target,
        resolved_links(links, reg, n).0[i].link.id == links[i].link.id,
        links[i].link.id is Some ==> resolved_links(links, reg, n).1.links.contains_key(
            links[i].link.id->0,
        ),
    decreases n,
{
    lemma_resolving_grows(links, reg, n - 1);
    lemma_resolved_link_keeps_id(links[n - 1], resolved_links(links, reg, n - 1).1);
    if i < n - 1 {
        lemma_resolved_links_keep_ids(links, reg, n - 1, i);
    }
}

/// What the link table knows after some components were loaded it knows
/// after more were loaded.
pub proof fn lemma_loading_components_is_monotone(
    s: Seq<ComponentSaveView>,
    reg: RegistryView,
    m: int,
    n: int,
)
    requires
        0 <= m <= n <= s.len(),
    ensures
        forall|id: u128| #[trigger]
            loaded_components(s, reg, m).1.links.contains_key(id) ==> loaded_components(
                s,
                reg,
                n,
            ).1.links.contains_key(id),
    decreases n - m,
{
    if m < n {
        lemma_loading_components_is_monotone(s, reg, m, n - 1);
        let before = loaded_components(s, reg, n - 1).1;
        let links = s[n - 1].data.links();
        lemma_resolving_grows(links, before, links.len() as int);
    }
}

/// What the link table knows after some entities were loaded it knows after
/// more were loaded.
pub proof fn lemma_loading_objects_is_monotone(s: Seq<ObjectSaveView>, reg: RegistryView, m: int, n: int)
    requires
        0 <= m <= n <= s.len(),
    ensures
        forall|id: u128| #[trigger]
            loaded_objects(s, reg, m).1.links.contains_key(id) ==> loaded_objects(
                s,
                reg,
                n,
            ).1.links.contains_key(id),
    decreases n - m,
{
    if m < n {
        lemma_loading_objects_is_monotone(s, reg, m, n - 1);
        let before = loaded_objects(s, reg, n - 1).1;
        lemma_loading_components_grows(
            s[n - 1].components,
            before,
            s[n - 1].components.len() as int,
        );
    }
}

/// The `j`-th of some loaded components is what loading makes of the `j`-th
/// saved one, with the tables as the components before it left them.
pub proof fn lemma_loaded_component_at(s: Seq<ComponentSaveView>, reg: RegistryView, n: int, j: int)
    requires
        0 <= j < n <= s.len(),
    ensures
        loaded_components(s, reg, n).0.len() == n,
        loaded_components(s, reg, n).0[j] == s[j].loaded(loaded_components(s, reg, j).1).0,
    decreases n,
{
    lemma_loading_components_grows(s, reg, n - 1);
    if j < n - 1 {
        lemma_loaded_component_at(s, reg, n - 1, j);
    }
}

/// The `k`-th of some loaded entities is what loading makes of the `k`-th
/// saved one, with the tables as the entities before it left them.
pub proof fn lemma_loaded_object_at(s: Seq<ObjectSaveView>, reg: RegistryView, n: int, k: int)
    requires
        0 <= k < n <= s.len(),
    ensures
        loaded_objects(s, reg, n).0.len() == n,
        loaded_objects(s, reg, n).0[k] == s[k].loaded(
            k as i32,
            loaded_objects(s, reg, k).1,
            saved_ids(s),
            0,
        ).0,
    decreases n,
{
    lemma_loading_objects_grows(s, reg, n - 1);
    if k < n - 1 {
        lemma_loaded_object_at(s, reg, n - 1, k);
    }
}

/// A component without its links: its kind and its fields.
pub open spec fn fields_of(c: ComponentView) -> ComponentView {
    c.with_links(Seq::empty())
}

/// The entities of a world that was saved and loaded are the entities that
/// were saved: as many, in their order, under the identifiers that count up
/// from zero, each with its name, its active flag, its colliders, and its
/// components with their kinds and fields. Each component is ticked as the
/// tables register its type. The parent of an entity is the entity that was
/// loaded for its parent, and its children are the entities that were loaded
/// for its children; a parent or child that was not saved is dropped, and an
/// entity without parent stays without.
pub proof fn lemma_round_trip_keeps_entities(
    e: EngineView,
    s: EngineSaveView,
    reg: RegistryView,
    k: int,
)
    requires
        e.world.wf(),
        s.is_saved(e),
        saved_entities(e).len() <= i32::MAX,
        0 <= k < saved_entities(e).len(),
    ensures
        s.loaded(reg).world.objects.len() == saved_entities(e).len(),
        s.loaded(reg).state.objects == Seq::new(saved_entities(e).len(), |i: int| i as i32),
        s.loaded(reg).graphics == e.graphics,
        s.loaded(reg).world.objects[k].id == k,
        s.loaded(reg).world.objects[k].name == entity(e, k).name,
        s.loaded(reg).world.objects[k].state.active == entity(e, k).state.active,
        s.loaded(reg).world.objects[k].state.parent_id == match entity(e, k).state.parent_id {
            Some(p) => new_id(saved_entities(e), 0, p),
            None => None,
        },
        s.loaded(reg).world.objects[k].state.child_ids == new_ids(
            saved_entities(e),
            0,
            entity(e, k).state.child_ids,
            entity(e, k).state.child_ids.len() as int,
        ),
        s.loaded(reg).world.objects[k].colliders == entity(e, k).colliders,
        s.loaded(reg).world.objects[k].components.len() == entity(e, k).components.len(),
        forall|j: int|
            0 <= j < entity(e, k).components.len() ==> {
                let before = entity(e, k).components[j];
                let after = #[trigger] s.loaded(reg).world.objects[k].components[j];
                &&& fields_of(after.component) == fields_of(before.component)
                &&& after.component.links().len() == before.component.links().len()
                &&& after.ticker == reg.components[before.component.kind_name()]
            },
{
    let n = saved_entities(e).len() as int;
    lemma_records_are_entities(e, s);
    assert(s.objects.len() == n);
    lemma_loading_objects_grows(s.objects, reg, n);
    lemma_loaded_object_at(s.objects, reg, n, k);
    let saved = s.objects[k];
    let before = entity(e, k);
    assert(saved.is_saved(before, e.registry));
    let tables = loaded_objects(s.objects, reg, k).1;
    lemma_loading_objects_grows(s.objects, reg, k);
    let after = saved.loaded(k as i32, tables, saved_ids(s.objects), 0).0;
    assert(after.colliders =~= before.colliders);
    let m = saved.components.len() as int;
    lemma_loading_components_grows(saved.components, tables, m);
    assert forall|j: int| 0 <= j < before.components.len() implies {
        let b = before.components[j];
        let a = #[trigger] after.components[j];
        &&& fields_of(a.component) == fields_of(b.component)
        &&& a.component.links().len() == b.component.links().len()
        &&& a.ticker == reg.components[b.component.kind_name()]
    } by {
        lemma_loaded_component_at(saved.components, tables, m, j);
        lemma_loading_components_grows(saved.components, tables, j);
        assert(saved.components[j].is_saved(before.components[j], e.registry));
        let links = saved.components[j].data.links();
        lemma_resolving_grows(links, loaded_components(saved.components, tables, j).1, links.len() as int);
    }
    assert(s.loaded(reg).state.objects =~= Seq::new(n as nat, |i: int| i as i32));
}

/// The identifiers that entities get at load name the records of the
/// entities: the new identifier of a saved entity is the place of its record,
/// and a child that was saved is among the children that are loaded.
pub proof fn lemma_new_ids_name_records(ids: Seq<i32>, old: Seq<i32>, n: int, i: int)
    requires
        0 <= i < n <= old.len(),
        ids.len() <= i32::MAX,
    ensures
        match new_id(ids, 0, old[i]) {
            Some(id) => 0 <= id < ids.len() && ids[id as int] == old[i] && new_ids(
                ids,
                0,
                old,
                n,
            ).contains(id),
            None => !ids.contains(old[i]),
        },
    decreases n,
{
    lemma_record_of(ids, old[i], 0);
    let rest = new_ids(ids, 0, old, n - 1);
    let all = new_ids(ids, 0, old, n);
    if i < n - 1 {
        lemma_new_ids_name_records(ids, old, n - 1, i);
        match new_id(ids, 0, old[i]) {
            Some(id) => {
                let at = choose|at: int| 0 <= at < rest.len() && rest[at] == id;
                assert(all[at] == id);
            },
            None => {},
        }
    } else {
        match new_id(ids, 0, old[i]) {
            Some(id) => {
                assert(all[rest.len() as int] == id);
            },
            None => {},
        }
    }
}

/// The tree of entities survives a round trip, where the engine lists no
/// entity twice: if the entity of one record is the parent of the entity of
/// another, the entity loaded for the child has the entity loaded for the
/// parent as its parent; if it has the other among its children, the entity
/// loaded for it has the entity loaded for the other among its children.
pub proof fn lemma_round_trip_keeps_tree(
    e: EngineView,
    s: EngineSaveView,
    reg: RegistryView,
    parent: int,
    child: int,
)
    requires
        e.world.wf(),
        s.is_saved(e),
        saved_entities(e).len() <= i32::MAX,
        saved_entities(e).no_duplicates(),
        0 <= parent < saved_entities(e).len(),
        0 <= child < saved_entities(e).len(),
    ensures
        entity(e, child).state.parent_id == Some(saved_entities(e)[parent]) ==> s.loaded(
            reg,
        ).world.objects[child].state.parent_id == Some(parent as i32),
        entity(e, parent).state.child_ids.contains(saved_entities(e)[child]) ==> s.loaded(
            reg,
        ).world.objects[parent].state.child_ids.contains(child as i32),
{
    let ids = saved_entities(e);
    lemma_records_are_entities(e, s);
    lemma_loading_objects_grows(s.objects, reg, ids.len() as int);
    lemma_round_trip_keeps_entities(e, s, reg, child);
    lemma_round_trip_keeps_entities(e, s, reg, parent);
    lemma_record_of(ids, ids[parent], 0);
    lemma_record_of(ids, ids[child], 0);
    let old = entity(e, parent).state.child_ids;
    if old.contains(ids[child]) {
        let i = choose|i: int| 0 <= i < old.len() && old[i] == ids[child];
        lemma_new_ids_name_records(ids, old, old.len() as int, i);
    }
}

/// Two links that pointed at one shared component before the world was saved
/// have one identifier after it was loaded, and the link table knows the
/// identifier: both resolve to the shared component that the table has for
/// it, now and after every rebinding. This holds of every saved world, for
/// links of components of the entities that were saved.
pub proof fn lemma_round_trip_keeps_shared_identity(
    e: EngineView,
    s: EngineSaveView,
    reg: RegistryView,
    k1: int,
    j1: int,
    i1: int,
    k2: int,
    j2: int,
    i2: int,
)
    requires
        e.world.wf(),
        e.registry.wf(),
        s.is_saved(e),
        0 <= k1 < saved_entities(e).len(),
        0 <= j1 < entity(e, k1).components.len(),
        0 <= i1 < entity(e, k1).components[j1].component.links().len(),
        0 <= k2 < saved_entities(e).len(),
        0 <= j2 < entity(e, k2).components.len(),
        0 <= i2 < entity(e, k2).components[j2].component.links().len(),
        entity(e, k1).components[j1].component.links()[i1].link.data
            == entity(e, k2).components[j2].component.links()[i2].link.data,
        entity(e, k1).components[j1].component.links()[i1].link.data
            < e.registry.shared.len(),
    ensures
        ({
            let l = s.loaded(reg);
            let m1 = l.world.objects[k1].components[j1].component.links()[i1];
            let m2 = l.world.objects[k2].components[j2].component.links()[i2];
            let shared = e.registry.shared[entity(e, k1).components[j1].component.links()[i1].link.data as int];
            &&& m1.link.id == Some(e.registry.uuids[shared.name])
            &&& m2.link.id == m1.link.id
            &&& l.registry.links.contains_key(m1.link.id->0)
        }),
{
    lemma_loaded_link(e, s, reg, k1, j1, i1);
    lemma_loaded_link(e, s, reg, k2, j2, i2);
}

/// A link of a component of an entity, after the world was saved and loaded:
/// it has the identifier under which the name of its shared component is
/// saved, and the link table knows the identifier.
pub proof fn lemma_loaded_link(e: EngineView, s: EngineSaveView, reg: RegistryView, k: int, j: int, i: int)
    requires
        e.world.wf(),
        e.registry.wf(),
        s.is_saved(e),
        0 <= k < saved_entities(e).len(),
        0 <= j < entity(e, k).components.len(),
        0 <= i < entity(e, k).components[j].component.links().len(),
        entity(e, k).components[j].component.links()[i].link.data < e.registry.shared.len(),
    ensures
        ({
            let l = s.loaded(reg);
            let before = entity(e, k).components[j].component.links()[i];
            let after = l.world.objects[k].components[j].component.links()[i];
            &&& after.name == before.name
            &&& after.target == before.target
            &&& after.link.id == Some(
                e.registry.uuids[e.registry.shared[before.link.data as int].name],
            )
            &&& l.registry.links.contains_key(after.link.id->0)
        }),
{
    let n = saved_entities(e).len() as int;
    lemma_records_are_entities(e, s);
    lemma_loading_objects_grows(s.objects, reg, n);
    lemma_loaded_object_at(s.objects, reg, n, k);
    let saved = s.objects[k];
    assert(saved.is_saved(entity(e, k), e.registry));
    let tables = loaded_objects(s.objects, reg, k).1;
    let m = saved.components.len() as int;
    lemma_loaded_component_at(saved.components, tables, m, j);
    assert(saved.components[j].is_saved(entity(e, k).components[j], e.registry));
    let before = entity(e, k).components[j].component.links()[i];
    let links = saved.components[j].data.links();
    assert(links[i].link.id == saved_link_id(before.link, e.registry));
    assert(e.registry.uuids.contains_key(e.registry.shared[before.link.data as int].name));
    let at = loaded_components(saved.components, tables, j).1;
    lemma_resolved_links_keep_ids(links, at, links.len() as int, i);
    let id = links[i].link.id->0;
    // the identifier stays known: through the rest of the component's entity,
    // the rest of the entities, and the static components
    assert(loaded_components(saved.components, tables, j + 1).1.links.contains_key(id));
    lemma_loading_components_is_monotone(saved.components, tables, j + 1, m);
    assert(loaded_objects(s.objects, reg, k + 1).1.links.contains_key(id));
    lemma_loading_objects_is_monotone(s.objects, reg, k + 1, n);
    lemma_loading_statics_grows(
        s.static_components,
        loaded_objects(s.objects, reg, n).1,
        s.static_components.len() as int,
    );
}

/// Loading a link leaves the shared components that were there as they
/// were, and leaves what the identifiers of the link table stood for.
pub proof fn lemma_resolved_link_keeps_tables(l: LinkFieldView, reg: RegistryView)
    ensures
        resolved_link(l, reg).1.shared.len() >= reg.shared.len(),
        forall|h: int|
            0 <= h < reg.shared.len() ==> (#[trigger] resolved_link(l, reg).1.shared[h])
                == reg.shared[h],
        forall|id: u128| #[trigger]
            reg.links.contains_key(id) ==> resolved_link(l, reg).1.links[id] == reg.links[id],
{
}

/// Loading links leaves the shared components that were there as they were,
/// and leaves what the identifiers of the link table stood for.
pub proof fn lemma_resolving_keeps_tables(links: Seq<LinkFieldView>, reg: RegistryView, n: int)
    requires
        0 <= n <= links.len(),
    ensures
        resolved_links(links, reg, n).1.shared.len() >= reg.shared.len(),
        forall|h: int|
            0 <= h < reg.shared.len() ==> (#[trigger] resolved_links(links, reg, n).1.shared[h])
                == reg.shared[h],
        forall|id: u128| #[trigger]
            reg.links.contains_key(id) ==> resolved_links(links, reg, n).1.links.contains_key(id)
                && resolved_links(links, reg, n).1.links[id] == reg.links[id],
    decreases n,
{
    if n > 0 {
        lemma_resolving_keeps_tables(links, reg, n - 1);
        lemma_resolved_link_keeps_tables(links[n - 1], resolved_links(links, reg, n - 1).1);
        lemma_resolved_link_keeps_id(links[n - 1], resolved_links(links, reg, n - 1).1);
    }
}

/// The shared component that a saved static component becomes.
pub open spec fn loaded_static(s: StaticSaveView, reg: RegistryView) -> StaticComponentView {
    StaticComponentView {
        name: s.id,
        fields: s.data.fields,
        links: resolved_links(s.data.links, reg, s.data.links.len() as int).0,
    }
}

/// One static component is loaded: it stands at its handle, what was there
/// before stays, and the identifier of the component stands for it if the
/// link table knew the identifier. Every other identifier stands for what it
/// stood for.
pub proof fn lemma_static_is_loaded(s: StaticSaveView, reg: RegistryView)
    requires
        s.uuid is Some,
        s.loaded(reg).shared.len() <= usize::MAX,
    ensures
        s.loaded_handle(reg) < s.loaded(reg).shared.len(),
        s.loaded(reg).shared[s.loaded_handle(reg) as int] == loaded_static(s, reg),
        s.loaded(reg).shared.len() > reg.shared.len(),
        forall|h: int| 0 <= h < reg.shared.len() ==> (#[trigger] s.loaded(reg).shared[h]) == reg.shared[h],
        forall|id: u128| #[trigger]
            reg.links.contains_key(id) ==> s.loaded(reg).links.contains_key(id),
        forall|id: u128| #[trigger]
            reg.links.contains_key(id) && id != s.uuid->0 ==> s.loaded(reg).links[id]
                == reg.links[id],
        reg.links.contains_key(s.uuid->0) ==> s.loaded(reg).links[s.uuid->0] == s.loaded_handle(
            reg,
        ),
{
    lemma_resolving_keeps_tables(s.data.links, reg, s.data.links.len() as int);
}

/// While static components are loaded, a shared component that is there
/// stays as it is, and an identifier that the link table knows and that no
/// static component loaded meanwhile is saved under stands for what it stood
/// for.
pub proof fn lemma_loading_statics_keeps_tables(
    s: Seq<StaticSaveView>,
    reg: RegistryView,
    m: int,
    n: int,
    id: u128,
)
    requires
        0 <= m <= n <= s.len(),
        forall|k: int| 0 <= k < s.len() ==> (#[trigger] s[k]).uuid is Some,
        loaded_statics(s, reg, n).1.shared.len() <= usize::MAX,
        forall|k: int| m <= k < n ==> (#[trigger] s[k]).uuid != Some(id),
    ensures
        loaded_statics(s, reg, n).1.shared.len() >= loaded_statics(s, reg, m).1.shared.len(),
        forall|h: int|
            0 <= h < loaded_statics(s, reg, m).1.shared.len() ==> (#[trigger] loaded_statics(
                s,
                reg,
                n,
            ).1.shared[h]) == loaded_statics(s, reg, m).1.shared[h],
        loaded_statics(s, reg, m).1.links.contains_key(id) ==> loaded_statics(
            s,
            reg,
            n,
        ).1.links.contains_key(id) && loaded_statics(s, reg, n).1.links[id] == loaded_statics(
            s,
            reg,
            m,
        ).1.links[id],
    decreases n - m,
{
    if m < n {
        let before = loaded_statics(s, reg, n - 1).1;
        lemma_resolving_keeps_tables(s[n - 1].data.links, before, s[n - 1].data.links.len() as int);
        assert(s[n - 1].uuid is Some);
        assert(s[n - 1].uuid != Some(id));
        lemma_static_is_loaded(s[n - 1], before);
        lemma_loading_statics_keeps_tables(s, reg, m, n - 1, id);
    }
}

/// The `t`-th of some loaded static components has the handle that loading
/// gave it, with the tables as the components before it left them.
pub proof fn lemma_loaded_static_at(s: Seq<StaticSaveView>, reg: RegistryView, n: int, t: int)
    requires
        0 <= t < n <= s.len(),
    ensures
        loaded_statics(s, reg, n).0.len() == n,
        loaded_statics(s, reg, n).0[t] == s[t].loaded_handle(loaded_statics(s, reg, t).1),
    decreases n,
{
    lemma_loading_statics_grows(s, reg, n - 1);
    if t < n - 1 {
        lemma_loaded_static_at(s, reg, n - 1, t);
    }
}

/// A link of a component that pointed at a static component of the engine
/// points at that static component after the world was saved and loaded: the
/// link table has, for the identifier of the loaded link, the static
/// component that was loaded in its place, with its name and its data. This
/// holds where no other static component of the engine is saved under the
/// same identifier and the tables stay within the range of handles.
pub proof fn lemma_round_trip_binds_links(
    e: EngineView,
    s: EngineSaveView,
    reg: RegistryView,
    k: int,
    j: int,
    i: int,
    t: int,
)
    requires
        e.world.wf(),
        e.registry.wf(),
        are_handles(e.state.static_components, e.registry.shared.len()),
        s.is_saved(e),
        s.loaded(reg).registry.shared.len() <= usize::MAX,
        0 <= k < saved_entities(e).len(),
        0 <= j < entity(e, k).components.len(),
        0 <= i < entity(e, k).components[j].component.links().len(),
        0 <= t < e.state.static_components.len(),
        entity(e, k).components[j].component.links()[i].link.data
            == e.state.static_components[t],
        forall|other: int|
            0 <= other < e.state.static_components.len() && other != t
                ==> e.registry.uuids[e.registry.shared[(
            #[trigger] e.state.static_components[other]) as int].name]
                != e.registry.uuids[e.registry.shared[e.state.static_components[t] as int].name],
    ensures
        ({
            let l = s.loaded(reg);
            let link = l.world.objects[k].components[j].component.links()[i].link;
            let before = e.registry.shared[e.state.static_components[t] as int];
            let handle = l.state.static_components[t];
            &&& link.id is Some
            &&& l.registry.links.contains_key(link.id->0)
            &&& l.registry.links[link.id->0] == handle
            &&& handle < l.registry.shared.len()
            &&& l.registry.shared[handle as int].name == before.name
            &&& l.registry.shared[handle as int].fields == before.fields
        }),
{
    let h = e.state.static_components[t];
    assert(h < e.registry.shared.len());
    lemma_loaded_link(e, s, reg, k, j, i);
    let before = e.registry.shared[h as int];
    assert(e.registry.uuids.contains_key(before.name));
    let u = e.registry.uuids[before.name];
    let n = saved_entities(e).len() as int;
    let statics = s.static_components;
    let count = statics.len() as int;
    let tables = loaded_objects(s.objects, reg, s.objects.len() as int).1;
    lemma_records_are_entities(e, s);
    // every saved static component has an identifier; that of the `t`-th is `u`
    assert forall|x: int| 0 <= x < count implies (#[trigger] statics[x]).uuid is Some by {
        let hx = e.state.static_components[x];
        assert(hx < e.registry.shared.len());
        assert(e.registry.uuids.contains_key(e.registry.shared[hx as int].name));
    }
    assert(statics[t].uuid == Some(u));
    assert forall|x: int| t + 1 <= x < count implies (#[trigger] statics[x]).uuid != Some(u) by {
        let hx = e.state.static_components[x];
        assert(hx < e.registry.shared.len());
        assert(e.registry.uuids.contains_key(e.registry.shared[hx as int].name));
    }
    // the link table knows `u` when the entities are loaded, and still when
    // the `t`-th static component is
    lemma_loading_objects_grows(s.objects, reg, n);
    lemma_loading_objects_is_monotone(s.objects, reg, k + 1, n);
    lemma_loaded_object_at(s.objects, reg, n, k);
    assert(tables.links.contains_key(u)) by {
        lemma_link_is_known(e, s, reg, k, j, i);
    }
    lemma_loading_statics_grows(statics, tables, t);
    let at = loaded_statics(statics, tables, t).1;
    assert(at.links.contains_key(u));
    lemma_loading_statics_grows(statics, tables, count);
    lemma_loading_statics_keeps_tables(statics, tables, t + 1, count, u);
    lemma_loading_statics_grows(statics, tables, t + 1);
    lemma_static_is_loaded(statics[t], at);
    lemma_loaded_static_at(statics, tables, count, t);
}

/// The link table knows the identifier of a loaded link of a component as
/// soon as the entities are loaded.
proof fn lemma_link_is_known(e: EngineView, s: EngineSaveView, reg: RegistryView, k: int, j: int, i: int)
    requires
        e.world.wf(),
        e.registry.wf(),
        s.is_saved(e),
        0 <= k < saved_entities(e).len(),
        0 <= j < entity(e, k).components.len(),
        0 <= i < entity(e, k).components[j].component.links().len(),
        entity(e, k).components[j].component.links()[i].link.data < e.registry.shared.len(),
    ensures
        loaded_objects(s.objects, reg, s.objects.len() as int).1.links.contains_key(
            e.registry.uuids[e.registry.shared[entity(e, k).components[j].component.links()[i].link.data as int].name],
        ),
{
    let n = saved_entities(e).len() as int;
    lemma_records_are_entities(e, s);
    lemma_loading_objects_grows(s.objects, reg, n);
    lemma_loaded_object_at(s.objects, reg, n, k);
    let saved = s.objects[k];
    assert(saved.is_saved(entity(e, k), e.registry));
    let tables = loaded_objects(s.objects, reg, k).1;
    let m = saved.components.len() as int;
    lemma_loaded_component_at(saved.components, tables, m, j);
    assert(saved.components[j].is_saved(entity(e, k).components[j], e.registry));
    let before = entity(e, k).components[j].component.links()[i];
    let links = saved.components[j].data.links();
    assert(links[i].link.id == saved_link_id(before.link, e.registry));
    assert(e.registry.uuids.contains_key(e.registry.shared[before.link.data as int].name));
    let at = loaded_components(saved.components, tables, j).1;
    lemma_resolved_links_keep_ids(links, at, links.len() as int, i);
    let id = links[i].link.id->0;
    assert(loaded_components(saved.components, tables, j + 1).1.links.contains_key(id));
    lemma_loading_components_is_monotone(saved.components, tables, j + 1, m);
    assert(loaded_objects(s.objects, reg, k + 1).1.links.contains_key(id));
    lemma_loading_objects_is_monotone(s.objects, reg, k + 1, n);
}

} // verus!
