//! The tables that a running engine keeps beside its entities: the registered
//! component types, the shared components, the link table and the identifiers
//! under which shared components are saved.

use crate::component::TickVariant;
use crate::save::{fresh_uuid, is_random_uuid, Link};
use crate::static_component::{StaticComponent, StaticComponentView};
use std::collections::HashMap;
use vstd::prelude::*;

verus! {

broadcast use vstd::std_specs::hash::group_hash_axioms;

/// A table from names to values. A name occurs once.
pub struct NameTable<V: Copy> {
    keys: Vec<String>,
    values: Vec<V>,
}

impl<V: Copy> NameTable<V> {
    /// The table is consistent: no name occurs twice.
    pub closed spec fn wf(&self) -> bool {
        &&& self.keys@.len() == self.values@.len()
        &&& forall|i: int, j: int|
            0 <= i < j < self.keys@.len() ==> (#[trigger] self.keys@[i])@ != (
            #[trigger] self.keys@[j])@
    }

    spec fn has_at(&self, name: Seq<char>, i: int) -> bool {
        0 <= i < self.keys@.len() && self.keys@[i]@ == name
    }

    spec fn place_of(&self, name: Seq<char>) -> int {
        choose|i: int| self.has_at(name, i)
    }

    /// The mathematical model of the table.
    pub closed spec fn view(&self) -> Map<Seq<char>, V> {
        Map::new(
            |name: Seq<char>| exists|i: int| self.has_at(name, i),
            |name: Seq<char>| self.values@[self.place_of(name)],
        )
    }

    /// An empty table.
    pub fn new() -> (r: Self)
        ensures
            r.wf(),
            r@ == Map::<Seq<char>, V>::empty(),
    {
        let r = NameTable { keys: Vec::new(), values: Vec::new() };
        assert(r@ =~= Map::<Seq<char>, V>::empty());
        r
    }

    fn find(&self, name: &String) -> (r: Option<usize>)
        ensures
            match r {
                Some(i) => self.has_at(name@, i as int),
                None => forall|i: int| !self.has_at(name@, i),
            },
    {
        let mut i: usize = 0;
        while i < self.keys.len()
            invariant
                i <= self.keys.len(),
                forall|j: int| 0 <= j < i ==> !self.has_at(name@, j),
            decreases self.keys.len() - i,
        {
            if self.keys[i] == *name {
                return Some(i);
            }
            i += 1;
        }
        None
    }

    /// The value under `name`.
    pub fn get(&self, name: &String) -> (r: Option<V>)
        requires
            self.wf(),
        ensures
            r == (if self@.contains_key(name@) {
                Some(self@[name@])
            } else {
                None
            }),
    {
        match self.find(name) {
            Some(i) => {
                assert(self.has_at(name@, self.place_of(name@)));
                Some(self.values[i])
            },
            None => None,
        }
    }

    /// Whether the table has a value under `name`.
    pub fn contains(&self, name: &String) -> (b: bool)
        ensures
            b == self@.contains_key(name@),
    {
        self.find(name).is_some()
    }

    /// Puts `value` under `name`, in place of what was there.
    pub fn insert(&mut self, name: String, value: V)
        requires
            old(self).wf(),
        ensures
            final(self).wf(),
            final(self)@ == old(self)@.insert(name@, value),
    {
        match self.find(&name) {
            Some(i) => {
                self.values.set(i, value);
                assert forall|k: Seq<char>| #[trigger]
                    final(self)@.contains_key(k) == old(self)@.insert(name@, value).contains_key(
                        k,
                    ) by {
                    if old(self).has_at(k, old(self).place_of(k)) {
                        assert(final(self).has_at(k, old(self).place_of(k)));
                    }
                    if final(self).has_at(k, final(self).place_of(k)) {
                        assert(old(self).has_at(k, final(self).place_of(k)));
                    }
                    if k == name@ {
                        assert(old(self).has_at(k, i as int));
                    }
                }
                assert forall|k: Seq<char>| #[trigger]
                    final(self)@.contains_key(k) implies final(self)@[k] == old(self)@.insert(
                    name@,
                    value,
                )[k] by {
                    let p = final(self).place_of(k);
                    assert(final(self).has_at(k, p));
                    assert(old(self).has_at(k, p));
                    let q = old(self).place_of(k);
                    assert(old(self).has_at(k, q));
                    assert(p == q);
                }
                assert(final(self)@ =~= old(self)@.insert(name@, value));
            },
            None => {
                self.keys.push(name);
                self.values.push(value);
                let ghost last = old(self).keys@.len() as int;
                assert forall|i: int, j: int| 0 <= i < j < final(self).keys@.len() implies (
                #[trigger] final(self).keys@[i])@ != (#[trigger] final(self).keys@[j])@ by {
                    if j == last {
                        assert(!old(self).has_at(name@, i));
                    }
                }
                assert forall|k: Seq<char>| #[trigger]
                    final(self)@.contains_key(k) == old(self)@.insert(name@, value).contains_key(
                        k,
                    ) by {
                    if old(self).has_at(k, old(self).place_of(k)) {
                        assert(final(self).has_at(k, old(self).place_of(k)));
                    }
                    if final(self).has_at(k, final(self).place_of(k)) {
                        if final(self).place_of(k) < last {
                            assert(old(self).has_at(k, final(self).place_of(k)));
                        }
                    }
                    if k == name@ {
                        assert(final(self).has_at(k, last));
                    }
                }
                assert forall|k: Seq<char>| #[trigger]
                    final(self)@.contains_key(k) implies final(self)@[k] == old(self)@.insert(
                    name@,
                    value,
                )[k] by {
                    let p = final(self).place_of(k);
                    assert(final(self).has_at(k, p));
                    if k != name@ {
                        assert(old(self).has_at(k, p));
                        let q = old(self).place_of(k);
                        assert(old(self).has_at(k, q));
                        assert(p == q);
                    } else {
                        assert(final(self).has_at(k, last));
                        assert(!old(self).has_at(name@, p));
                        assert(p == last);
                    }
                }
                assert(final(self)@ =~= old(self)@.insert(name@, value));
            },
        }
    }
}

/// The tables of a running engine. They are made once and handed to every
/// function that needs them.
pub struct Registry {
    components: NameTable<TickVariant>,
    static_components: NameTable<bool>,
    links: HashMap<u128, usize>,
    uuids: NameTable<u128>,
    shared: Vec<StaticComponent>,
}

/// The mathematical model of the tables.
pub struct RegistryView {
    /// The registered component types, each with the way it is ticked.
    pub components: Map<Seq<char>, TickVariant>,
    /// The registered types of static components.
    pub static_components: Set<Seq<char>>,
    /// The link table: which shared component an identifier stands for.
    pub links: Map<u128, usize>,
    /// The identifier under which the shared component of a name is saved.
    pub uuids: Map<Seq<char>, u128>,
    /// The shared components. A handle is a place in this sequence.
    pub shared: Seq<StaticComponentView>,
}

/// The models of shared components, in their order.
pub open spec fn shared_views(shared: Seq<StaticComponent>) -> Seq<StaticComponentView> {
    shared.map_values(|s: StaticComponent| s@)
}

impl View for Registry {
    type V = RegistryView;

    closed spec fn view(&self) -> RegistryView {
        RegistryView {
            components: self.components@,
            static_components: self.static_components@.dom(),
            links: self.links@,
            uuids: self.uuids@,
            shared: shared_views(self.shared@),
        }
    }
}

impl RegistryView {
    /// Every identifier of the link table stands for a shared component that
    /// is there, and every shared component has an identifier to be saved
    /// under.
    pub open spec fn wf(self) -> bool {
        &&& forall|id: u128| #[trigger]
            self.links.contains_key(id) ==> self.links[id] < self.shared.len()
        &&& forall|h: int|
            0 <= h < self.shared.len() ==> self.uuids.contains_key((#[trigger] self.shared[h]).name)
    }

    /// The tables after the link was entered: its identifier stands for its
    /// instance, and the instance is saved under the identifier.
    pub open spec fn with_link(self, link: Link) -> RegistryView {
        RegistryView {
            links: self.links.insert(link.id->0, link.data),
            uuids: self.uuids.insert(self.shared[link.data as int].name, link.id->0),
            ..self
        }
    }

    /// What the link table makes of an identifier.
    pub open spec fn link_of(self, id: u128) -> Option<Link> {
        if self.links.contains_key(id) {
            Some(Link { id: Some(id), data: self.links[id], references: 1 })
        } else {
            None
        }
    }

    /// The tables after a shared component was added that is saved under
    /// `uuid`, unless its name has an identifier already.
    pub open spec fn with_shared(self, instance: StaticComponentView, uuid: u128) -> RegistryView {
        RegistryView {
            shared: self.shared.push(instance),
            uuids: if self.uuids.contains_key(instance.name) {
                self.uuids
            } else {
                self.uuids.insert(instance.name, uuid)
            },
            ..self
        }
    }
}

/// Tables stay consistent where the shared components keep their names, no
/// name loses its identifier, and every new entry of the link table stands
/// for a shared component that is there.
pub proof fn lemma_tables_stay_consistent(a: RegistryView, b: RegistryView)
    requires
        a.wf(),
        b.shared.len() >= a.shared.len(),
        forall|h: int| 0 <= h < a.shared.len() ==> (#[trigger] b.shared[h]).name == a.shared[h].name,
        forall|h: int|
            a.shared.len() <= h < b.shared.len() ==> b.uuids.contains_key(
                (#[trigger] b.shared[h]).name,
            ),
        forall|name: Seq<char>| #[trigger]
            a.uuids.contains_key(name) ==> b.uuids.contains_key(name),
        forall|id: u128| #[trigger]
            b.links.contains_key(id) ==> (a.links.contains_key(id) && b.links[id] == a.links[id])
                || b.links[id] < b.shared.len(),
    ensures
        b.wf(),
{
    assert forall|id: u128| #[trigger] b.links.contains_key(id) implies b.links[id]
        < b.shared.len() by {
        if a.links.contains_key(id) && b.links[id] == a.links[id] {
            assert(a.links[id] < a.shared.len());
        }
    }
    assert forall|h: int| 0 <= h < b.shared.len() implies b.uuids.contains_key(
        (#[trigger] b.shared[h]).name,
    ) by {
        if h < a.shared.len() {
            assert(a.uuids.contains_key(a.shared[h].name));
        }
    }
}

impl Registry {
    /// The tables are consistent.
    pub closed spec fn wf(&self) -> bool {
        &&& self.components.wf()
        &&& self.static_components.wf()
        &&& self.uuids.wf()
        &&& self@.wf()
    }

    /// Consistent tables have a consistent model.
    pub proof fn lemma_wf(&self)
        requires
            self.wf(),
        ensures
            self@.wf(),
    {
    }

    /// Empty tables.
    pub fn new() -> (r: Self)
        ensures
            r.wf(),
            r@.components == Map::<Seq<char>, TickVariant>::empty(),
            r@.static_components == Set::<Seq<char>>::empty(),
            r@.links == Map::<u128, usize>::empty(),
            r@.uuids == Map::<Seq<char>, u128>::empty(),
            r@.shared == Seq::<StaticComponentView>::empty(),
    {
        let r = Registry {
            components: NameTable::new(),
            static_components: NameTable::new(),
            links: HashMap::new(),
            uuids: NameTable::new(),
            shared: Vec::new(),
        };
        assert(r@.static_components =~= Set::<Seq<char>>::empty());
        assert(r@.shared =~= Seq::<StaticComponentView>::empty());
        r
    }

    /// How a component type of the given name is ticked, if the name is
    /// registered.
    pub fn component_ticker(&self, name: &String) -> (r: Option<TickVariant>)
        requires
            self.wf(),
        ensures
            r == (if self@.components.contains_key(name@) {
                Some(self@.components[name@])
            } else {
                None
            }),
    {
        self.components.get(name)
    }

    /// Whether a type of static components is registered under the name.
    pub fn knows_static(&self, name: &String) -> (b: bool)
        requires
            self.wf(),
        ensures
            b == self@.static_components.contains(name@),
    {
        self.static_components.contains(name)
    }

    /// The identifier under which the shared component of a name is saved.
    pub fn uuid_of(&self, name: &String) -> (r: Option<u128>)
        requires
            self.wf(),
        ensures
            r == (if self@.uuids.contains_key(name@) {
                Some(self@.uuids[name@])
            } else {
                None
            }),
    {
        self.uuids.get(name)
    }

    /// How many shared components there are.
    pub fn shared_len(&self) -> (n: usize)
        ensures
            n == self@.shared.len(),
    {
        self.shared.len()
    }

    /// The shared component of the given handle.
    pub fn shared(&self, handle: usize) -> (r: Option<&StaticComponent>)
        ensures
            match r {
                Some(s) => handle < self@.shared.len() && s@ == self@.shared[handle as int],
                None => handle >= self@.shared.len(),
            },
    {
        if handle < self.shared.len() {
            Some(&self.shared[handle])
        } else {
            None
        }
    }

    /// Gives the shared component of the handle new data. Returns whether
    /// there is such a component; where there is none, nothing is changed.
    pub fn set_fields(&mut self, handle: usize, fields: String) -> (found: bool)
        requires
            old(self).wf(),
        ensures
            final(self).wf(),
            found == (handle < old(self)@.shared.len()),
            found ==> final(self)@ == (RegistryView {
                shared: old(self)@.shared.update(
                    handle as int,
                    StaticComponentView { fields: fields@, ..old(self)@.shared[handle as int] },
                ),
                ..old(self)@
            }),
            !found ==> final(self)@ == old(self)@,
    {
        if handle < self.shared.len() {
            self.shared[handle].fields = fields;
            assert(final(self)@.shared =~= old(self)@.shared.update(
                handle as int,
                StaticComponentView { fields: fields@, ..old(self)@.shared[handle as int] },
            ));
            proof {
                lemma_tables_stay_consistent(old(self)@, final(self)@);
            }
            true
        } else {
            false
        }
    }

    /// Adds a shared component and returns its handle. A component whose name
    /// has no identifier to be saved under gets a new one.
    pub fn add_shared(&mut self, instance: StaticComponent) -> (handle: usize)
        requires
            old(self).wf(),
        ensures
            final(self).wf(),
            handle == old(self)@.shared.len(),
            exists|uuid: u128|
                is_random_uuid(uuid) && #[trigger] final(self)@ == old(self)@.with_shared(
                    instance@,
                    uuid,
                ),
    {
        let uuid = fresh_uuid();
        self.add_shared_under(instance, uuid)
    }

    /// Adds a shared component and returns its handle. A component whose name
    /// has no identifier to be saved under is saved under `uuid`.
    pub fn add_shared_under(&mut self, instance: StaticComponent, uuid: u128) -> (handle: usize)
        requires
            old(self).wf(),
        ensures
            final(self).wf(),
            handle == old(self)@.shared.len(),
            final(self)@ == old(self)@.with_shared(instance@, uuid),
    {
        let handle: usize = self.shared.len();
        if !self.uuids.contains(&instance.name) {
            self.uuids.insert(instance.name.clone(), uuid);
        }
        self.shared.push(instance);
        assert(final(self)@.shared =~= old(self)@.shared.push(instance@));
        proof {
            lemma_tables_stay_consistent(old(self)@, final(self)@);
        }
        handle
    }
}

/// Enters a component type under its name, with the way it is ticked. A name
/// is entered once: to enter it again is a fault of the configuration, and
/// the caller who cannot rule it out asks `Registry::component_ticker` first.
pub fn register_component(registry: &mut Registry, name: &str, ticker: TickVariant)
    requires
        old(registry).wf(),
        !old(registry)@.components.contains_key(name@),
    ensures
        final(registry).wf(),
        final(registry)@ == (RegistryView {
            components: old(registry)@.components.insert(name@, ticker),
            ..old(registry)@
        }),
{
    registry.components.insert(name.to_string(), ticker);
    proof {
        lemma_tables_stay_consistent(old(registry)@, final(registry)@);
    }
}

/// Enters a type of static components under its name. A name is entered
/// once: to enter it again is a fault of the configuration, and the caller
/// who cannot rule it out asks `Registry::knows_static` first.
pub fn register_static_component(registry: &mut Registry, name: &str)
    requires
        old(registry).wf(),
        !old(registry)@.static_components.contains(name@),
    ensures
        final(registry).wf(),
        final(registry)@ == (RegistryView {
            static_components: old(registry)@.static_components.insert(name@),
            ..old(registry)@
        }),
{
    registry.static_components.insert(name.to_string(), true);
    assert(final(registry)@.static_components =~= old(registry)@.static_components.insert(name@));
    proof {
        lemma_tables_stay_consistent(old(registry)@, final(registry)@);
    }
}

/// The names of the component types that the engine brings.
pub open spec fn own_names() -> Set<Seq<char>> {
    set!["Transform"@, "CharacterController2D"@, "InputComponent"@, "RenderComponent"@]
}

/// Enters the component types that the engine brings: the transform, the
/// character controller, the input component and the render component. None
/// of them is entered yet.
pub fn init(registry: &mut Registry)
    requires
        old(registry).wf(),
        forall|name: Seq<char>| #[trigger]
            own_names().contains(name) ==> !old(registry)@.components.contains_key(name),
    ensures
        final(registry).wf(),
        final(registry)@ == (RegistryView {
            components: old(registry)@.components.insert(
                "Transform"@,
                TickVariant::Default,
            ).insert("CharacterController2D"@, TickVariant::Input).insert(
                "InputComponent"@,
                TickVariant::Input,
            ).insert("RenderComponent"@, TickVariant::Render),
            ..old(registry)@
        }),
{
    proof {
        reveal_strlit("Transform");
        reveal_strlit("CharacterController2D");
        reveal_strlit("InputComponent");
        reveal_strlit("RenderComponent");
        assert(own_names().contains("Transform"@));
        assert(own_names().contains("CharacterController2D"@));
        assert(own_names().contains("InputComponent"@));
        assert(own_names().contains("RenderComponent"@));
        assert("Transform"@.len() == 9);
        assert("CharacterController2D"@.len() == 21);
        assert("InputComponent"@.len() == 14);
        assert("RenderComponent"@.len() == 15);
    }
    register_component(registry, "Transform", TickVariant::Default);
    register_component(registry, "CharacterController2D", TickVariant::Input);
    register_component(registry, "InputComponent", TickVariant::Input);
    register_component(registry, "RenderComponent", TickVariant::Render);
}

/// Enters a link in the link table: its identifier stands for its instance
/// from now on, and the instance is saved under the identifier.
pub fn register_link(registry: &mut Registry, link: Link)
    requires
        old(registry).wf(),
        link.id is Some,
        link.data < old(registry)@.shared.len(),
    ensures
        final(registry).wf(),
        final(registry)@ == old(registry)@.with_link(link),
{
    match link.id {
        Some(id) => {
            registry.links.insert(id, link.data);
            let name = registry.shared[link.data].name.clone();
            registry.uuids.insert(name, id);
            proof {
                lemma_tables_stay_consistent(old(registry)@, final(registry)@);
            }
        },
        None => {},
    }
}

/// The link that the link table has under the identifier.
pub fn get_link(registry: &Registry, id: u128) -> (r: Option<Link>)
    requires
        registry.wf(),
    ensures
        r == registry@.link_of(id),
{
    match registry.links.get(&id) {
        Some(data) => Some(Link { id: Some(id), data: *data, references: 1 }),
        None => None,
    }
}

impl Link {
    /// A link to the shared component of the handle `data`, under a new
    /// identifier, entered in the link table.
    pub fn new(registry: &mut Registry, data: usize) -> (r: Self)
        requires
            old(registry).wf(),
            data < old(registry)@.shared.len(),
        ensures
            final(registry).wf(),
            r.id is Some,
            is_random_uuid(r.id->0),
            r.data == data,
            r.references == 1,
            final(registry)@ == old(registry)@.with_link(r),
    {
        let id = fresh_uuid();
        let link = Self { id: Some(id), data, references: 1 };
        register_link(registry, link);
        link
    }

    /// A link, under a new identifier, to a new shared component that stands
    /// in for one of the type `target`. The link table is not told.
    pub fn default(registry: &mut Registry, target: String) -> (r: Self)
        requires
            old(registry).wf(),
        ensures
            final(registry).wf(),
            r.id is Some,
            is_random_uuid(r.id->0),
            r.data == old(registry)@.shared.len(),
            r.references == 1,
            exists|uuid: u128|
                is_random_uuid(uuid) && #[trigger] final(registry)@ == old(registry)@.with_shared(
                    StaticComponentView { name: target@, fields: "null"@, links: Seq::empty() },
                    uuid,
                ),
    {
        let data = registry.add_shared(StaticComponent::placeholder(target));
        let id = fresh_uuid();
        Self { id: Some(id), data, references: 1 }
    }

    /// The shared component that the link stands for now: what the link table
    /// has under the link's identifier, and what the link pointed at before
    /// where the table has nothing. The link remembers the answer.
    pub fn get_data(&mut self, registry: &Registry) -> (data: usize)
        requires
            registry.wf(),
            old(self).id is Some,
        ensures
            data == (if registry@.links.contains_key(old(self).id->0) {
                registry@.links[old(self).id->0]
            } else {
                old(self).data
            }),
            *final(self) == (Link { data, ..*old(self) }),
    {
        match self.id {
            Some(id) => match registry.links.get(&id) {
                Some(data) => {
                    self.data = *data;
                },
                None => {},
            },
            None => {},
        }
        self.data
    }

    /// Makes the link's identifier stand for the shared component `new_ref`,
    /// for this link and for every other of the same identifier.
    pub fn set_data(&mut self, registry: &mut Registry, new_ref: usize)
        requires
            old(registry).wf(),
            old(self).id is Some,
            new_ref < old(registry)@.shared.len(),
        ensures
            final(registry).wf(),
            final(registry)@ == (RegistryView {
                links: old(registry)@.links.insert(old(self).id->0, new_ref),
                ..old(registry)@
            }),
            *final(self) == (Link { data: new_ref, ..*old(self) }),
    {
        match self.id {
            Some(id) => {
                registry.links.insert(id, new_ref);
                proof {
                    lemma_tables_stay_consistent(old(registry)@, final(registry)@);
                }
                let data = self.get_data(registry);
            },
            None => {},
        }
    }
}

} // verus!
