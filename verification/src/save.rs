//! The saved form of a world and the way back from it, and the links by which
//! several components share one static component: an identifier and a table.
//!
//! A component is saved with its fields; a link is saved as the identifier
//! under which the name of its shared component is saved. Loading resolves
//! each link by the link table and lets a new shared component stand in where
//! the table has none; a static component that is loaded afterwards takes the
//! place of what stood in for it.

use crate::collider::{
    Collider, CubeCollider, OctagonCollider, Point, PointCollider, RectangularPrismCollider,
};
use crate::component::{
    component_views, link_views, Component, ComponentView, ComponentWrapper,
    ComponentWrapperView,
};
use crate::gameobject::{
    GameObject, GameObjectState, GameObjectStateView, GameObjectView, World, WorldView,
};
use crate::registry::{get_link, register_link, Registry, RegistryView};
use crate::state::{Engine, EngineStateView, EngineView};
use crate::static_component::{StaticComponent, StaticComponentView};
use vstd::prelude::*;

verus! {

/// The text of the identifier made of the 128 bits `id`: its thirty-two
/// digits to the base sixteen, the highest first, in small letters, in five
/// groups of eight, four, four, four and twelve with a hyphen between them.
pub open spec fn uuid_text(id: u128) -> Seq<char> {
    Seq::new(
        36,
        |i: int|
            if i == 8 || i == 13 || i == 18 || i == 23 {
                '-'
            } else {
                let digit = if i < 8 {
                    i
                } else if i < 13 {
                    i - 1
                } else if i < 18 {
                    i - 2
                } else if i < 23 {
                    i - 3
                } else {
                    i - 4
                };
                "0123456789abcdef"@[((id >> ((124 - 4 * digit) as u128)) & 0xfu128) as int]
            },
    )
}

/// Names what `uuid::Uuid::parse_str` makes of a text: the 128 bits of the
/// identifier that it reads, or nothing where it reads none.
pub uninterp spec fn uuid_parsed(text: Seq<char>) -> Option<u128>;

/// The type of the failures of `uuid::Uuid::parse_str`.
#[verifier::external_type_specification]
#[verifier::external_body]
pub struct ExUuidError(uuid::Error);

/// The bits that tell the version and the variant of an identifier say
/// "version 4, made at random".
pub open spec fn is_random_uuid(id: u128) -> bool {
    id & 0x0000_0000_0000_f000_c000_0000_0000_0000u128
        == 0x0000_0000_0000_4000_8000_0000_0000_0000u128
}

/// Calls `uuid::Uuid::new_v4` and hands back the 128 bits of the identifier
/// that it drew. Claims only what the crate sets in every such identifier:
/// the bits of version 4 and of the variant. The call asks the operating
/// system for random bytes and gives up where it gets none.
#[verifier::external_body]
pub(crate) fn fresh_uuid() -> (id: u128)
    ensures
        is_random_uuid(id),
{
    uuid::Uuid::new_v4().as_u128()
}

/// Calls `to_string` on the `uuid::Uuid` of the given bits. Claims that the
/// text is the hyphenated form in small letters, which the crate writes for
/// `Display`, and that `uuid::Uuid::parse_str` reads the same identifier
/// from it: the crate documents that its parser takes every form that it
/// writes.
#[verifier::external_body]
fn format_uuid(id: u128) -> (text: String)
    ensures
        text@ == uuid_text(id),
        uuid_parsed(text@) == Some(id),
{
    uuid::Uuid::from_u128(id).to_string()
}

/// Calls `uuid::Uuid::parse_str`. Claims that the outcome is a function of the
/// text, and names it.
#[verifier::external_body]
fn parse_uuid(text: &str) -> (r: Result<u128, uuid::Error>)
    ensures
        match r {
            Ok(id) => uuid_parsed(text@) == Some(id),
            Err(_) => uuid_parsed(text@) is None,
        },
{
    match uuid::Uuid::parse_str(text) {
        Ok(id) => Ok(id.as_u128()),
        Err(e) => Err(e),
    }
}

/// Why a link could not be read.
#[derive(Debug, PartialEq, Eq, Clone, Copy, Structural)]
pub enum LinkError {
    /// The text is no identifier.
    BadId,
}

/// A reference to a shared component: the identifier under which the link
/// table holds it, the shared instance that the link last resolved to, and how
/// many holders the link has been handed to.
#[derive(Clone, Copy, Debug, PartialEq, Eq, Structural)]
pub struct Link {
    pub id: Option<u128>,
    pub data: usize,
    pub references: usize,
}

/// A field of a component that holds a link to a shared component of the type
/// `target`.
#[derive(Clone, Debug)]
pub struct LinkField {
    pub name: String,
    pub target: String,
    pub link: Link,
}

/// The model of a link field.
pub struct LinkFieldView {
    pub name: Seq<char>,
    pub target: Seq<char>,
    pub link: Link,
}

impl View for LinkField {
    type V = LinkFieldView;

    open spec fn view(&self) -> LinkFieldView {
        LinkFieldView { name: self.name@, target: self.target@, link: self.link }
    }
}

/// `n + 1`, unless that leaves the range of `usize`.
pub open spec fn counted_up(n: usize) -> usize {
    if n < usize::MAX {
        (n + 1) as usize
    } else {
        n
    }
}

impl Link {
    /// A link to the instance `data` under the identifier `id`. The link
    /// table is not told.
    pub fn new_with(data: usize, id: u128) -> (r: Self)
        ensures
            r == (Link { id: Some(id), data, references: 1 }),
    {
        Self { id: Some(id), data, references: 1 }
    }

    /// Another link to the same instance, under the identifier `uuid`. The
    /// link counts one holder more, and so does the new one.
    pub fn clone_with_uuid(&mut self, uuid: u128) -> (r: Self)
        ensures
            *final(self) == (Link { references: counted_up(old(self).references), ..*old(self) }),
            r == (Link { id: Some(uuid), ..*final(self) }),
    {
        self.inc();
        Self { id: Some(uuid), data: self.data, references: self.references }
    }

    /// Counts one holder more. The count stays where it is at the end of its
    /// range.
    pub fn inc(&mut self)
        ensures
            *final(self) == (Link { references: counted_up(old(self).references), ..*old(self) }),
    {
        if self.references < usize::MAX {
            self.references += 1;
        }
    }

    /// The text under which a saved world lists the link: its identifier,
    /// as `deserialize` reads it back.
    pub fn serialize(&self) -> (text: String)
        requires
            self.id is Some,
        ensures
            text@ == uuid_text(self.id->0),
            uuid_parsed(text@) == self.id,
    {
        match self.id {
            Some(id) => format_uuid(id),
            None => String::new(),
        }
    }

    /// Reads a link from the identifier that a saved world lists it under.
    /// The link points at `data` until it is resolved.
    pub fn deserialize(text: &str, data: usize) -> (r: Result<Self, LinkError>)
        ensures
            r == match uuid_parsed(text@) {
                Some(id) => Ok::<Link, LinkError>(Link { id: Some(id), data, references: 1 }),
                None => Err::<Link, LinkError>(LinkError::BadId),
            },
    {
        Self::read_id(parse_uuid(text), data)
    }

    /// The link that comes of an identifier that was read, or of the failure
    /// to read one.
    pub fn read_id(parsed: Result<u128, uuid::Error>, data: usize) -> (r: Result<Self, LinkError>)
        ensures
            r == match parsed {
                Ok(id) => Ok::<Link, LinkError>(Link { id: Some(id), data, references: 1 }),
                Err(_) => Err::<Link, LinkError>(LinkError::BadId),
            },
    {
        match parsed {
            Ok(id) => Ok(Self::new_with(data, id)),
            Err(_) => Err(LinkError::BadId),
        }
    }
}

/// A collider as a saved world names it: by its variant and the measures that
/// it was made with. The points of a collider follow from these and are not
/// saved.
#[derive(Clone, Copy, Debug, PartialEq, Eq, Structural)]
pub enum ColliderType {
    CubeCollider { side_length: i32 },
    RectangularPrismCollider { width: i32, height: i32, depth: i32 },
    PointCollider { point: Point },
    OctagonCollider { size: i32 },
}

/// The saved form of a collider.
#[derive(Clone, Copy, Debug, PartialEq, Eq, Structural)]
pub struct ColliderSaveData {
    pub collider: ColliderType,
}

/// The saved form of the collider `c`.
pub open spec fn saved_collider(c: Collider) -> ColliderSaveData {
    ColliderSaveData {
        collider: match c {
            Collider::Cube(c) => ColliderType::CubeCollider { side_length: c.side_length },
            Collider::RectangularPrism(c) => ColliderType::RectangularPrismCollider {
                width: c.width,
                height: c.height,
                depth: c.depth,
            },
            Collider::Point(c) => ColliderType::PointCollider { point: c.point },
            Collider::Octagon(c) => ColliderType::OctagonCollider { size: c.size },
        },
    }
}

/// The collider that the saved form `s` stands for.
pub open spec fn loaded_collider(s: ColliderSaveData) -> Collider {
    match s.collider {
        ColliderType::CubeCollider { side_length } => Collider::Cube(CubeCollider { side_length }),
        ColliderType::RectangularPrismCollider { width, height, depth } => Collider::RectangularPrism(
            RectangularPrismCollider { width, height, depth },
        ),
        ColliderType::PointCollider { point } => Collider::Point(PointCollider { point }),
        ColliderType::OctagonCollider { size } => Collider::Octagon(OctagonCollider { size }),
    }
}

/// A collider that was saved and loaded is the collider that it was, and a
/// saved form that was loaded and saved is the form that it was.
pub proof fn lemma_collider_round_trip(c: Collider, s: ColliderSaveData)
    ensures
        loaded_collider(saved_collider(c)) == c,
        saved_collider(loaded_collider(s)) == s,
{
}

impl ColliderSaveData {
    pub fn from_collider(collider: &Collider) -> (r: Self)
        ensures
            r == saved_collider(*collider),
    {
        ColliderSaveData {
            collider: match collider {
                Collider::Cube(c) => ColliderType::CubeCollider { side_length: c.side_length },
                Collider::RectangularPrism(c) => ColliderType::RectangularPrismCollider {
                    width: c.width,
                    height: c.height,
                    depth: c.depth,
                },
                Collider::Point(c) => ColliderType::PointCollider { point: c.point },
                Collider::Octagon(c) => ColliderType::OctagonCollider { size: c.size },
            },
        }
    }

    pub fn to_collider(&self) -> (r: Collider)
        ensures
            r == loaded_collider(*self),
    {
        match self.collider {
            ColliderType::CubeCollider { side_length } => CubeCollider::new(side_length),
            ColliderType::RectangularPrismCollider { width, height, depth } => RectangularPrismCollider::new(
                width,
                height,
                depth,
            ),
            ColliderType::PointCollider { point } => PointCollider::new(point),
            ColliderType::OctagonCollider { size } => OctagonCollider::new(size),
        }
    }
}

/// The identifier under which a link is saved: that of the name of the shared
/// component that the link points at. A link that points at nothing keeps its
/// own identifier.
pub open spec fn saved_link_id(link: Link, reg: RegistryView) -> Option<u128> {
    if link.data < reg.shared.len() && reg.uuids.contains_key(reg.shared[link.data as int].name) {
        Some(reg.uuids[reg.shared[link.data as int].name])
    } else {
        link.id
    }
}

/// The saved form of a link field: the field with the link under the
/// identifier that it is saved under.
pub open spec fn saved_link(l: LinkFieldView, reg: RegistryView) -> LinkFieldView {
    LinkFieldView { link: Link { id: saved_link_id(l.link, reg), ..l.link }, ..l }
}

/// The saved forms of link fields, in their order.
pub open spec fn saved_links(links: Seq<LinkFieldView>, reg: RegistryView) -> Seq<LinkFieldView> {
    links.map_values(|l: LinkFieldView| saved_link(l, reg))
}

/// What stands in for a shared component of the type `target`.
pub open spec fn placeholder(target: Seq<char>) -> StaticComponentView {
    StaticComponentView { name: target, fields: "null"@, links: Seq::empty() }
}

/// What loading makes of a saved link field, and of the tables. A link whose
/// identifier the link table knows takes the shared component that the table
/// has for it. For every other identifier a new shared component stands in,
/// and the table learns the identifier. A link without identifier stays as it
/// is.
pub open spec fn resolved_link(l: LinkFieldView, reg: RegistryView) -> (LinkFieldView, RegistryView) {
    match l.link.id {
        Some(uuid) => {
            if reg.links.contains_key(uuid) {
                (
                    LinkFieldView {
                        link: Link { id: Some(uuid), data: reg.links[uuid], references: 1 },
                        ..l
                    },
                    reg,
                )
            } else {
                let link = Link { id: Some(uuid), data: reg.shared.len() as usize, references: 1 };
                (
                    LinkFieldView { link, ..l },
                    reg.with_shared(placeholder(l.target), uuid).with_link(link),
                )
            }
        },
        None => (l, reg),
    }
}

/// What loading makes of the first `n` of some saved link fields, taken in
/// their order, and of the tables.
pub open spec fn resolved_links(links: Seq<LinkFieldView>, reg: RegistryView, n: int) -> (
    Seq<LinkFieldView>,
    RegistryView,
)
    decreases n,
{
    if n <= 0 {
        (Seq::empty(), reg)
    } else {
        let before = resolved_links(links, reg, n - 1);
        let now = resolved_link(links[n - 1], before.1);
        (before.0.push(now.0), now.1)
    }
}

/// Saves the links of a component.
pub fn save_links(links: &Vec<LinkField>, registry: &Registry) -> (r: Vec<LinkField>)
    requires
        registry.wf(),
    ensures
        link_views(r@) == saved_links(link_views(links@), registry@),
{
    let mut r: Vec<LinkField> = Vec::new();
    let mut i: usize = 0;
    while i < links.len()
        invariant
            i <= links.len(),
            registry.wf(),
            link_views(r@) == saved_links(link_views(links@), registry@).take(i as int),
        decreases links.len() - i,
    {
        let l = &links[i];
        let id = match registry.shared(l.link.data) {
            Some(instance) => match registry.uuid_of(&instance.name) {
                Some(uuid) => Some(uuid),
                None => l.link.id,
            },
            None => l.link.id,
        };
        let saved = LinkField {
            name: l.name.clone(),
            target: l.target.clone(),
            link: Link { id, data: l.link.data, references: l.link.references },
        };
        assert(saved@ == saved_link(links@[i as int]@, registry@));
        let ghost before = link_views(r@);
        let ghost all = saved_links(link_views(links@), registry@);
        r.push(saved);
        assert(link_views(r@) =~= before.push(saved@));
        assert(all[i as int] == saved@);
        assert(all.take(i + 1) =~= all.take(i as int).push(all[i as int]));
        i += 1;
    }
    assert(saved_links(link_views(links@), registry@).take(links.len() as int) =~= saved_links(
        link_views(links@),
        registry@,
    ));
    r
}

/// Loads one saved link field.
pub fn load_link(l: &LinkField, registry: &mut Registry) -> (r: LinkField)
    requires
        old(registry).wf(),
    ensures
        final(registry).wf(),
        (r@, final(registry)@) == resolved_link(l@, old(registry)@),
{
    match l.link.id {
        Some(uuid) => match get_link(registry, uuid) {
            Some(link) => LinkField { name: l.name.clone(), target: l.target.clone(), link },
            None => {
                let data = registry.add_shared_under(
                    StaticComponent::placeholder(l.target.clone()),
                    uuid,
                );
                let link = Link::new_with(data, uuid);
                register_link(registry, link);
                LinkField { name: l.name.clone(), target: l.target.clone(), link }
            },
        },
        None => LinkField { name: l.name.clone(), target: l.target.clone(), link: l.link },
    }
}

/// What the tables hold only grows while links are loaded: the shared
/// components that were there stay, and so do the identifiers of the link
/// table.
pub proof fn lemma_resolving_grows(links: Seq<LinkFieldView>, reg: RegistryView, n: int)
    requires
        0 <= n <= links.len(),
    ensures
        resolved_links(links, reg, n).0.len() == n,
        resolved_links(links, reg, n).1.shared.len() >= reg.shared.len(),
        resolved_links(links, reg, n).1.shared.len() <= reg.shared.len() + n,
        resolved_links(links, reg, n).1.components == reg.components,
        resolved_links(links, reg, n).1.static_components == reg.static_components,
        forall|id: u128| #[trigger]
            reg.links.contains_key(id) ==> resolved_links(links, reg, n).1.links.contains_key(id),
    decreases n,
{
    if n > 0 {
        lemma_resolving_grows(links, reg, n - 1);
    }
}

/// Loads the saved links of a component, in their order.
pub fn load_links(links: &Vec<LinkField>, registry: &mut Registry) -> (r: Vec<LinkField>)
    requires
        old(registry).wf(),
    ensures
        final(registry).wf(),
        (link_views(r@), final(registry)@) == resolved_links(
            link_views(links@),
            old(registry)@,
            links@.len() as int,
        ),
{
    let mut r: Vec<LinkField> = Vec::new();
    let mut i: usize = 0;
    assert(link_views(r@) =~= Seq::empty());
    while i < links.len()
        invariant
            i <= links.len(),
            registry.wf(),
            (link_views(r@), registry@) == resolved_links(
                link_views(links@),
                old(registry)@,
                i as int,
            ),
        decreases links.len() - i,
    {
        let ghost before = link_views(r@);
        let loaded = load_link(&links[i], registry);
        r.push(loaded);
        assert(link_views(r@) =~= before.push(loaded@));
        i += 1;
    }
    r
}

/// The saved form of a component: the component with its links under the
/// identifiers that they are saved under.
pub open spec fn saved_component(c: ComponentView, reg: RegistryView) -> ComponentView {
    c.with_links(saved_links(c.links(), reg))
}

/// A component as a saved world lists it: under the name of its type, with an
/// identifier of its own, and with its fields.
#[derive(Debug)]
pub struct ComponentSaveData {
    pub id: String,
    pub uuid: Option<u128>,
    pub data: Component,
}

/// The model of a saved component.
pub struct ComponentSaveView {
    pub id: Seq<char>,
    pub uuid: Option<u128>,
    pub data: ComponentView,
}

impl View for ComponentSaveData {
    type V = ComponentSaveView;

    open spec fn view(&self) -> ComponentSaveView {
        ComponentSaveView { id: self.id@, uuid: self.uuid, data: self.data@ }
    }
}

/// The models of saved components, in their order.
pub open spec fn component_save_views(s: Seq<ComponentSaveData>) -> Seq<ComponentSaveView> {
    s.map_values(|c: ComponentSaveData| c@)
}

impl ComponentSaveView {
    /// This is the saved form of the component `c`.
    pub open spec fn is_saved(self, c: ComponentWrapperView, reg: RegistryView) -> bool {
        &&& self.id == c.component.kind_name()
        &&& self.uuid is Some
        &&& self.data == saved_component(c.component, reg)
    }

    /// The saved form can be loaded: its type is registered, and its fields
    /// are those of the type that it names.
    pub open spec fn loadable(self, reg: RegistryView) -> bool {
        &&& reg.components.contains_key(self.id)
        &&& self.data.kind_name() == self.id
    }

    /// The component that loading makes of the saved form, and what it makes
    /// of the tables. The component is ticked as its type is registered.
    pub open spec fn loaded(self, reg: RegistryView) -> (ComponentWrapperView, RegistryView) {
        let links = resolved_links(self.data.links(), reg, self.data.links().len() as int);
        (
            ComponentWrapperView {
                component: self.data.with_links(links.0),
                ticker: reg.components[self.id],
            },
            links.1,
        )
    }
}

impl ComponentSaveData {
    /// The saved form of a component. The identifier of the saved form is
    /// drawn anew for every save.
    pub fn from_component(comp: &ComponentWrapper, registry: &Registry) -> (r: Self)
        requires
            registry.wf(),
        ensures
            r@.is_saved(comp@, registry@),
            is_random_uuid(r@.uuid->0),
    {
        let links = match &comp.component {
            Component::Custom(c) => save_links(&c.links, registry),
            _ => Vec::new(),
        };
        proof {
            if !(comp.component is Custom) {
                assert(link_views(links@) =~= saved_links(comp@.component.links(), registry@));
            }
        }
        ComponentSaveData {
            id: comp.component.kind_name(),
            uuid: Some(fresh_uuid()),
            data: comp.component.with_links(links),
        }
    }

    /// Whether the saved form can be loaded with these tables.
    pub fn loadable(&self, registry: &Registry) -> (b: bool)
        requires
            registry.wf(),
        ensures
            b == self@.loadable(registry@),
    {
        registry.component_ticker(&self.id).is_some() && self.data.kind_name() == self.id
    }

    /// The component that the saved form stands for. Its links are resolved
    /// by the link table.
    pub fn to_component(&self, registry: &mut Registry) -> (r: ComponentWrapper)
        requires
            old(registry).wf(),
            self@.loadable(old(registry)@),
        ensures
            final(registry).wf(),
            (r@, final(registry)@) == self@.loaded(old(registry)@),
    {
        let ticker = registry.component_ticker(&self.id);
        let links = match &self.data {
            Component::Custom(c) => load_links(&c.links, registry),
            _ => Vec::new(),
        };
        proof {
            if !(self.data is Custom) {
                assert(link_views(links@) =~= Seq::empty());
            }
        }
        match ticker {
            Some(ticker) => ComponentWrapper { component: self.data.with_links(links), ticker },
            None => ComponentWrapper {
                component: self.data.with_links(links),
                ticker: crate::component::TickVariant::Default,
            },
        }
    }
}

/// The saved form of a static component: under its name, with the identifier
/// that its name is saved under, and with its links under theirs.
pub open spec fn saved_static(s: StaticComponentView, reg: RegistryView) -> StaticSaveView {
    StaticSaveView {
        id: s.name,
        uuid: if reg.uuids.contains_key(s.name) {
            Some(reg.uuids[s.name])
        } else {
            None
        },
        data: StaticComponentView { links: saved_links(s.links, reg), ..s },
    }
}

/// A static component as a saved world lists it.
#[derive(Debug)]
pub struct StaticComponentSaveData {
    pub id: String,
    pub uuid: Option<u128>,
    pub data: StaticComponent,
}

/// The model of a saved static component.
pub struct StaticSaveView {
    pub id: Seq<char>,
    pub uuid: Option<u128>,
    pub data: StaticComponentView,
}

impl View for StaticComponentSaveData {
    type V = StaticSaveView;

    open spec fn view(&self) -> StaticSaveView {
        StaticSaveView { id: self.id@, uuid: self.uuid, data: self.data@ }
    }
}

/// The models of saved static components, in their order.
pub open spec fn static_save_views(s: Seq<StaticComponentSaveData>) -> Seq<StaticSaveView> {
    s.map_values(|c: StaticComponentSaveData| c@)
}

impl StaticSaveView {
    /// The saved form can be loaded: its type is registered and it has an
    /// identifier.
    pub open spec fn loadable(self, reg: RegistryView) -> bool {
        reg.static_components.contains(self.id) && self.uuid is Some
    }

    /// What loading makes of the tables: the links of the component are
    /// resolved, the component joins the shared components under the name
    /// that it was saved under, and where the link table knows the
    /// component's identifier, the identifier stands for the component from
    /// now on.
    pub open spec fn loaded(self, reg: RegistryView) -> RegistryView {
        let links = resolved_links(self.data.links, reg, self.data.links.len() as int);
        let handle = links.1.shared.len() as usize;
        let added = links.1.with_shared(
            StaticComponentView { name: self.id, fields: self.data.fields, links: links.0 },
            self.uuid->0,
        );
        if added.links.contains_key(self.uuid->0) {
            RegistryView { links: added.links.insert(self.uuid->0, handle), ..added }
        } else {
            added
        }
    }

    /// The handle of the component that loading adds.
    pub open spec fn loaded_handle(self, reg: RegistryView) -> usize {
        resolved_links(self.data.links, reg, self.data.links.len() as int).1.shared.len() as usize
    }
}

impl StaticComponentSaveData {
    /// The saved form of the shared component of the given handle.
    pub fn from_static_component(registry: &Registry, comp: usize) -> (r: Self)
        requires
            registry.wf(),
            comp < registry@.shared.len(),
        ensures
            r@ == saved_static(registry@.shared[comp as int], registry@),
    {
        match registry.shared(comp) {
            Some(s) => StaticComponentSaveData {
                id: s.name.clone(),
                uuid: registry.uuid_of(&s.name),
                data: StaticComponent {
                    name: s.name.clone(),
                    fields: s.fields.clone(),
                    links: save_links(&s.links, registry),
                },
            },
            None => StaticComponentSaveData {
                id: String::new(),
                uuid: None,
                data: StaticComponent::placeholder(String::new()),
            },
        }
    }

    /// Whether the saved form can be loaded with these tables.
    pub fn loadable(&self, registry: &Registry) -> (b: bool)
        requires
            registry.wf(),
        ensures
            b == self@.loadable(registry@),
    {
        registry.knows_static(&self.id) && self.uuid.is_some()
    }

    /// Loads the shared component that the saved form stands for and returns
    /// its handle.
    pub fn to_static_component(&self, registry: &mut Registry) -> (handle: usize)
        requires
            old(registry).wf(),
            self@.loadable(old(registry)@),
        ensures
            final(registry).wf(),
            handle == self@.loaded_handle(old(registry)@),
            final(registry)@ == self@.loaded(old(registry)@),
    {
        let links = load_links(&self.data.links, registry);
        let instance = StaticComponent {
            name: self.id.clone(),
            fields: self.data.fields.clone(),
            links,
        };
        match self.uuid {
            Some(uuid) => {
                let handle = registry.add_shared_under(instance, uuid);
                match get_link(registry, uuid) {
                    Some(link) => {
                        let mut link = link;
                        link.set_data(registry, handle);
                    },
                    None => {},
                }
                handle
            },
            None => registry.add_shared(instance),
        }
    }
}

/// What loading makes of the first `n` of some saved components, taken in
/// their order, and of the tables.
pub open spec fn loaded_components(s: Seq<ComponentSaveView>, reg: RegistryView, n: int) -> (
    Seq<ComponentWrapperView>,
    RegistryView,
)
    decreases n,
{
    if n <= 0 {
        (Seq::empty(), reg)
    } else {
        let before = loaded_components(s, reg, n - 1);
        let now = s[n - 1].loaded(before.1);
        (before.0.push(now.0), now.1)
    }
}

/// Loading components adds to the tables and changes nothing that was there
/// but what identifiers stand for.
pub proof fn lemma_loading_components_grows(s: Seq<ComponentSaveView>, reg: RegistryView, n: int)
    requires
        0 <= n <= s.len(),
    ensures
        loaded_components(s, reg, n).0.len() == n,
        loaded_components(s, reg, n).1.components == reg.components,
        loaded_components(s, reg, n).1.static_components == reg.static_components,
        loaded_components(s, reg, n).1.shared.len() >= reg.shared.len(),
        forall|id: u128| #[trigger]
            reg.links.contains_key(id) ==> loaded_components(s, reg, n).1.links.contains_key(id),
    decreases n,
{
    if n > 0 {
        lemma_loading_components_grows(s, reg, n - 1);
        let before = loaded_components(s, reg, n - 1);
        let links = s[n - 1].data.links();
        lemma_resolving_grows(links, before.1, links.len() as int);
    }
}

/// The place of the first of the records `ids`, at or after `from`, that was
/// saved under the identifier `id`, or `-1` where there is none.
pub open spec fn record_of(ids: Seq<i32>, id: i32, from: int) -> int
    decreases ids.len() - from,
{
    if from < 0 || from >= ids.len() {
        -1
    } else if ids[from] == id {
        from
    } else {
        record_of(ids, id, from + 1)
    }
}

/// What `record_of` finds was saved under the identifier and is the first
/// that was; where it finds nothing, no record was.
pub proof fn lemma_record_of(ids: Seq<i32>, id: i32, from: int)
    requires
        0 <= from,
    ensures
        ({
            let k = record_of(ids, id, from);
            &&& k == -1 || from <= k < ids.len()
            &&& k >= 0 ==> ids[k] == id
            &&& forall|j: int|
                from <= j < (if k >= 0 { k } else { ids.len() as int }) ==> ids[j] != id
        }),
    decreases ids.len() - from,
{
    if from < ids.len() && ids[from] != id {
        lemma_record_of(ids, id, from + 1);
    }
}

/// The identifier that an entity gets at load, where the records of a saved
/// world were saved under `ids` and the first of them gets `first`: the
/// entity saved under `id` gets the identifier of its record. An entity that
/// was not saved gets none.
pub open spec fn new_id(ids: Seq<i32>, first: int, id: i32) -> Option<i32> {
    let k = record_of(ids, id, 0);
    if k >= 0 {
        Some((first + k) as i32)
    } else {
        None
    }
}

/// The identifiers that the first `n` of the entities `old` get at load, in
/// their order. Entities that were not saved are left out.
pub open spec fn new_ids(ids: Seq<i32>, first: int, old: Seq<i32>, n: int) -> Seq<i32>
    decreases n,
{
    if n <= 0 {
        Seq::empty()
    } else {
        match new_id(ids, first, old[n - 1]) {
            Some(id) => new_ids(ids, first, old, n - 1).push(id),
            None => new_ids(ids, first, old, n - 1),
        }
    }
}

/// The identifier that the entity saved under `id` gets at load.
pub fn renamed(ids: &Vec<i32>, first: i32, id: i32) -> (r: Option<i32>)
    requires
        0 <= first,
        first + ids@.len() <= i32::MAX,
    ensures
        r == new_id(ids@, first as int, id),
{
    let mut k: usize = 0;
    while k < ids.len()
        invariant
            k <= ids.len(),
            0 <= first,
            first + ids@.len() <= i32::MAX,
            record_of(ids@, id, 0) == record_of(ids@, id, k as int),
        decreases ids.len() - k,
    {
        if ids[k] == id {
            return Some(first + k as i32);
        }
        k += 1;
    }
    None
}

/// The identifiers that the entities `old` get at load, without those that
/// were not saved.
pub fn renamed_all(ids: &Vec<i32>, first: i32, old: &Vec<i32>) -> (r: Vec<i32>)
    requires
        0 <= first,
        first + ids@.len() <= i32::MAX,
    ensures
        r@ == new_ids(ids@, first as int, old@, old@.len() as int),
{
    let mut r: Vec<i32> = Vec::new();
    let mut i: usize = 0;
    while i < old.len()
        invariant
            i <= old.len(),
            0 <= first,
            first + ids@.len() <= i32::MAX,
            r@ == new_ids(ids@, first as int, old@, i as int),
        decreases old.len() - i,
    {
        match renamed(ids, first, old[i]) {
            Some(id) => {
                r.push(id);
            },
            None => {},
        }
        i += 1;
    }
    r
}

/// An entity as a saved world lists it.
#[derive(Debug)]
pub struct GameObjectSaveData {
    pub components: Vec<ComponentSaveData>,
    pub colliders: Vec<ColliderSaveData>,
    pub parent: Option<i32>,
    pub children: Vec<i32>,
    pub id: i32,
    pub name: String,
    pub active: bool,
}

/// The model of a saved entity.
pub struct ObjectSaveView {
    pub components: Seq<ComponentSaveView>,
    pub colliders: Seq<ColliderSaveData>,
    pub parent: Option<i32>,
    pub children: Seq<i32>,
    pub id: i32,
    pub name: Seq<char>,
    pub active: bool,
}

impl View for GameObjectSaveData {
    type V = ObjectSaveView;

    open spec fn view(&self) -> ObjectSaveView {
        ObjectSaveView {
            components: component_save_views(self.components@),
            colliders: self.colliders@,
            parent: self.parent,
            children: self.children@,
            id: self.id,
            name: self.name@,
            active: self.active,
        }
    }
}

/// The models of saved entities, in their order.
pub open spec fn object_save_views(s: Seq<GameObjectSaveData>) -> Seq<ObjectSaveView> {
    s.map_values(|o: GameObjectSaveData| o@)
}

/// The saved forms of colliders, in their order.
pub open spec fn saved_colliders(colliders: Seq<Collider>) -> Seq<ColliderSaveData> {
    colliders.map_values(|c: Collider| saved_collider(c))
}

/// The colliders that saved forms stand for, in their order.
pub open spec fn loaded_colliders(colliders: Seq<ColliderSaveData>) -> Seq<Collider> {
    colliders.map_values(|c: ColliderSaveData| loaded_collider(c))
}

impl ObjectSaveView {
    /// This is the saved form of the entity `o`.
    pub open spec fn is_saved(self, o: GameObjectView, reg: RegistryView) -> bool {
        &&& self.name == o.name
        &&& self.id == o.id
        &&& self.active == o.state.active
        &&& self.parent == o.state.parent_id
        &&& self.children == o.state.child_ids
        &&& self.colliders == saved_colliders(o.colliders)
        &&& self.components.len() == o.components.len()
        &&& forall|j: int|
            0 <= j < self.components.len() ==> (#[trigger] self.components[j]).is_saved(
                o.components[j],
                reg,
            )
    }

    /// Every component of the saved entity can be loaded.
    pub open spec fn loadable(self, reg: RegistryView) -> bool {
        forall|j: int| 0 <= j < self.components.len() ==> (#[trigger] self.components[j]).loadable(reg)
    }

    /// The entity that loading makes of the saved form under the identifier
    /// `id`, and what it makes of the tables. The records that are loaded
    /// together were saved under `ids`, and the first of them gets the
    /// identifier `first`: the parent and the children are named by the
    /// identifiers that their records get, and one that has no record is
    /// dropped.
    pub open spec fn loaded(self, id: i32, reg: RegistryView, ids: Seq<i32>, first: int) -> (
        GameObjectView,
        RegistryView,
    ) {
        let components = loaded_components(self.components, reg, self.components.len() as int);
        (
            GameObjectView {
                name: self.name,
                id,
                components: components.0,
                colliders: loaded_colliders(self.colliders),
                state: GameObjectStateView {
                    active: self.active,
                    parent_id: match self.parent {
                        Some(p) => new_id(ids, first, p),
                        None => None,
                    },
                    child_ids: new_ids(ids, first, self.children, self.children.len() as int),
                },
                render_references: Seq::empty(),
            },
            components.1,
        )
    }
}

impl GameObjectSaveData {
    /// The saved form of an entity.
    pub fn from_game_object(obj: &GameObject, registry: &Registry) -> (r: Self)
        requires
            registry.wf(),
        ensures
            r@.is_saved(obj@, registry@),
    {
        let mut components: Vec<ComponentSaveData> = Vec::new();
        let mut i: usize = 0;
        while i < obj.components.len()
            invariant
                i <= obj.components.len(),
                registry.wf(),
                components@.len() == i,
                forall|j: int|
                    0 <= j < i ==> (#[trigger] component_save_views(components@)[j]).is_saved(
                        obj@.components[j],
                        registry@,
                    ),
            decreases obj.components.len() - i,
        {
            let saved = ComponentSaveData::from_component(&obj.components[i], registry);
            let ghost before = component_save_views(components@);
            components.push(saved);
            assert(component_save_views(components@) =~= before.push(saved@));
            assert(obj@.components[i as int] == obj.components@[i as int]@);
            i += 1;
        }
        let mut colliders: Vec<ColliderSaveData> = Vec::new();
        let mut k: usize = 0;
        while k < obj.colliders.len()
            invariant
                k <= obj.colliders.len(),
                colliders@ == saved_colliders(obj.colliders@).take(k as int),
            decreases obj.colliders.len() - k,
        {
            let saved = ColliderSaveData::from_collider(&obj.colliders[k]);
            let ghost before = colliders@;
            colliders.push(saved);
            assert(colliders@ =~= saved_colliders(obj.colliders@).take(k + 1));
            k += 1;
        }
        assert(saved_colliders(obj.colliders@).take(obj.colliders.len() as int) =~= saved_colliders(
            obj.colliders@,
        ));
        GameObjectSaveData {
            components,
            colliders,
            parent: obj.state.parent_id,
            children: obj.state.child_ids.clone(),
            id: obj.id,
            name: obj.name.clone(),
            active: obj.state.active,
        }
    }

    /// Whether the saved entity can be loaded with these tables.
    pub fn loadable(&self, registry: &Registry) -> (b: bool)
        requires
            registry.wf(),
        ensures
            b == self@.loadable(registry@),
    {
        let mut i: usize = 0;
        while i < self.components.len()
            invariant
                i <= self.components.len(),
                registry.wf(),
                forall|j: int|
                    0 <= j < i ==> (#[trigger] self@.components[j]).loadable(registry@),
            decreases self.components.len() - i,
        {
            if !self.components[i].loadable(registry) {
                assert(!self@.components[i as int].loadable(registry@));
                return false;
            }
            i += 1;
        }
        true
    }

    /// Loads the entity that the saved form stands for into the world and
    /// returns its identifier. `ids` are the identifiers under which the
    /// records that are loaded together were saved, and `first` is the
    /// identifier that the first of them gets: by these the parent and the
    /// children of the entity are named anew.
    pub fn to_game_object(
        &self,
        world: &mut World,
        registry: &mut Registry,
        ids: &Vec<i32>,
        first: i32,
    ) -> (id: i32)
        requires
            old(world).wf(),
            old(registry).wf(),
            old(world)@.objects.len() < i32::MAX,
            self@.loadable(old(registry)@),
            0 <= first,
            first + ids@.len() <= i32::MAX,
        ensures
            final(world).wf(),
            final(registry).wf(),
            id == old(world)@.objects.len(),
            final(world)@ == (WorldView {
                objects: old(world)@.objects.push(
                    self@.loaded(id, old(registry)@, ids@, first as int).0,
                ),
                ..old(world)@
            }),
            final(world)@.find(id) == Some(final(world)@.objects[id as int]),
            final(registry)@ == self@.loaded(id, old(registry)@, ids@, first as int).1,
    {
        let mut components: Vec<ComponentWrapper> = Vec::new();
        let mut i: usize = 0;
        assert(component_views(components@) =~= Seq::empty());
        while i < self.components.len()
            invariant
                i <= self.components.len(),
                registry.wf(),
                self@.loadable(old(registry)@),
                (component_views(components@), registry@) == loaded_components(
                    self@.components,
                    old(registry)@,
                    i as int,
                ),
            decreases self.components.len() - i,
        {
            proof {
                lemma_loading_components_grows(self@.components, old(registry)@, i as int);
                assert(self@.components[i as int].loadable(old(registry)@));
            }
            let ghost before = component_views(components@);
            let loaded = self.components[i].to_component(registry);
            components.push(loaded);
            assert(component_views(components@) =~= before.push(loaded@));
            i += 1;
        }
        let mut colliders: Vec<Collider> = Vec::new();
        let mut k: usize = 0;
        while k < self.colliders.len()
            invariant
                k <= self.colliders.len(),
                colliders@ == loaded_colliders(self.colliders@).take(k as int),
            decreases self.colliders.len() - k,
        {
            let loaded = self.colliders[k].to_collider();
            colliders.push(loaded);
            assert(colliders@ =~= loaded_colliders(self.colliders@).take(k + 1));
            k += 1;
        }
        assert(loaded_colliders(self.colliders@).take(self.colliders.len() as int)
            =~= loaded_colliders(self.colliders@));
        let parent = match self.parent {
            Some(p) => renamed(ids, first, p),
            None => None,
        };
        let children = renamed_all(ids, first, &self.children);
        world.spawn(
            self.name.clone(),
            components,
            colliders,
            GameObjectState::new(self.active, parent, children),
        )
    }
}

/// Those of the first `n` identifiers for which the world answers, in their
/// order.
pub open spec fn live_among(ids: Seq<i32>, w: WorldView, n: int) -> Seq<i32>
    decreases n,
{
    if n <= 0 {
        Seq::empty()
    } else if w.find(ids[n - 1]) is Some {
        live_among(ids, w, n - 1).push(ids[n - 1])
    } else {
        live_among(ids, w, n - 1)
    }
}

/// The identifiers under which the records of some saved entities were saved.
pub open spec fn saved_ids(s: Seq<ObjectSaveView>) -> Seq<i32> {
    s.map_values(|o: ObjectSaveView| o.id)
}

/// What loading makes of the first `n` of some saved entities, taken in their
/// order, in a world that is empty before, and of the tables. The entities
/// get the identifiers that count up from zero, and parents and children are
/// named by these.
pub open spec fn loaded_objects(s: Seq<ObjectSaveView>, reg: RegistryView, n: int) -> (
    Seq<GameObjectView>,
    RegistryView,
)
    decreases n,
{
    if n <= 0 {
        (Seq::empty(), reg)
    } else {
        let before = loaded_objects(s, reg, n - 1);
        let now = s[n - 1].loaded((n - 1) as i32, before.1, saved_ids(s), 0);
        (before.0.push(now.0), now.1)
    }
}

/// What loading makes of the first `n` of some saved static components, taken
/// in their order: their handles, and the tables.
pub open spec fn loaded_statics(s: Seq<StaticSaveView>, reg: RegistryView, n: int) -> (
    Seq<usize>,
    RegistryView,
)
    decreases n,
{
    if n <= 0 {
        (Seq::empty(), reg)
    } else {
        let before = loaded_statics(s, reg, n - 1);
        (before.0.push(s[n - 1].loaded_handle(before.1)), s[n - 1].loaded(before.1))
    }
}

/// Loading entities adds to the tables and leaves the registered types as
/// they are.
pub proof fn lemma_loading_objects_grows(s: Seq<ObjectSaveView>, reg: RegistryView, n: int)
    requires
        0 <= n <= s.len(),
    ensures
        loaded_objects(s, reg, n).0.len() == n,
        loaded_objects(s, reg, n).1.components == reg.components,
        loaded_objects(s, reg, n).1.static_components == reg.static_components,
        loaded_objects(s, reg, n).1.shared.len() >= reg.shared.len(),
        forall|id: u128| #[trigger]
            reg.links.contains_key(id) ==> loaded_objects(s, reg, n).1.links.contains_key(id),
        forall|k: int| 0 <= k < n ==> (#[trigger] loaded_objects(s, reg, n).0[k]).id == k as i32,
    decreases n,
{
    if n > 0 {
        lemma_loading_objects_grows(s, reg, n - 1);
        let before = loaded_objects(s, reg, n - 1);
        lemma_loading_components_grows(
            s[n - 1].components,
            before.1,
            s[n - 1].components.len() as int,
        );
    }
}

/// Loading static components adds to the tables and leaves the registered
/// types as they are. The handles that it returns are those of shared
/// components.
pub proof fn lemma_loading_statics_grows(s: Seq<StaticSaveView>, reg: RegistryView, n: int)
    requires
        0 <= n <= s.len(),
    ensures
        loaded_statics(s, reg, n).0.len() == n,
        loaded_statics(s, reg, n).1.components == reg.components,
        loaded_statics(s, reg, n).1.static_components == reg.static_components,
        loaded_statics(s, reg, n).1.shared.len() >= reg.shared.len(),
        forall|id: u128| #[trigger]
            reg.links.contains_key(id) ==> loaded_statics(s, reg, n).1.links.contains_key(id),
        forall|k: int|
            0 <= k < n ==> (#[trigger] loaded_statics(s, reg, n).0[k]) < loaded_statics(
                s,
                reg,
                n,
            ).1.shared.len(),
    decreases n,
{
    if n > 0 {
        lemma_loading_statics_grows(s, reg, n - 1);
        let before = loaded_statics(s, reg, n - 1);
        lemma_resolving_grows(s[n - 1].data.links, before.1, s[n - 1].data.links.len() as int);
    }
}

/// A world as it is saved: its entities, its static components, and whether
/// it is drawn.
#[derive(Debug)]
pub struct EngineSaveData {
    pub objects: Vec<GameObjectSaveData>,
    pub static_components: Vec<StaticComponentSaveData>,
    pub graphics: bool,
}

/// The model of a saved world.
pub struct EngineSaveView {
    pub objects: Seq<ObjectSaveView>,
    pub static_components: Seq<StaticSaveView>,
    pub graphics: bool,
}

impl View for EngineSaveData {
    type V = EngineSaveView;

    open spec fn view(&self) -> EngineSaveView {
        EngineSaveView {
            objects: object_save_views(self.objects@),
            static_components: static_save_views(self.static_components@),
            graphics: self.graphics,
        }
    }
}

impl EngineSaveView {
    /// This is the saved form of the engine `e`: of those of its entities
    /// for which the world answers, of its static components, and of
    /// whether it is drawn.
    pub open spec fn is_saved(self, e: EngineView) -> bool {
        let ids = live_among(e.state.objects, e.world, e.state.objects.len() as int);
        &&& self.graphics == e.graphics
        &&& self.objects.len() == ids.len()
        &&& forall|k: int|
            0 <= k < ids.len() ==> (#[trigger] self.objects[k]).is_saved(
                e.world.objects[ids[k] as int],
                e.registry,
            )
        &&& self.static_components.len() == e.state.static_components.len()
        &&& forall|k: int|
            0 <= k < self.static_components.len() ==> (#[trigger] self.static_components[k])
                == saved_static(
                e.registry.shared[e.state.static_components[k] as int],
                e.registry,
            )
    }

    /// The saved world can be loaded: every type that it names is registered,
    /// and the identifiers of its entities fit.
    pub open spec fn loadable(self, reg: RegistryView) -> bool {
        &&& self.objects.len() <= i32::MAX
        &&& forall|k: int| 0 <= k < self.objects.len() ==> (#[trigger] self.objects[k]).loadable(reg)
        &&& forall|k: int|
            0 <= k < self.static_components.len() ==> (#[trigger] self.static_components[k]).loadable(
                reg,
            )
    }

    /// The tables after the entities of the saved world were loaded.
    pub open spec fn tables_with_objects(self, reg: RegistryView) -> RegistryView {
        loaded_objects(self.objects, reg, self.objects.len() as int).1
    }

    /// The engine that loading makes of the saved world and of the tables:
    /// first the entities, in their order, then the static components, in
    /// theirs.
    pub open spec fn loaded(self, reg: RegistryView) -> EngineView {
        let objects = loaded_objects(self.objects, reg, self.objects.len() as int);
        let statics = loaded_statics(
            self.static_components,
            objects.1,
            self.static_components.len() as int,
        );
        let ids = Seq::new(self.objects.len(), |k: int| k as i32);
        EngineView {
            state: EngineStateView { objects: ids, static_components: statics.0 },
            world: WorldView { objects: objects.0, destroyed: Seq::empty() },
            registry: statics.1,
            render_queue: Seq::empty(),
            ui: Seq::empty(),
            graphics: self.graphics,
            dt: None,
            keys_pressed: Seq::empty(),
            mouse_buttons_pressed: Seq::empty(),
            mouse_position: [0i32, 0i32],
            physics_objects: ids,
            friction: 100,
            paused: false,
        }
    }
}

impl EngineSaveData {
    /// The saved form of the engine. An entity for which the world does not
    /// answer is not saved.
    pub fn from_engine(e: &Engine) -> (r: Self)
        requires
            e.wf(),
        ensures
            r@.is_saved(e@),
    {
        let ids = e.state.objects();
        let mut objects: Vec<GameObjectSaveData> = Vec::new();
        let mut i: usize = 0;
        let ghost w = e@.world;
        let ghost reg = e@.registry;
        while i < ids.len()
            invariant
                i <= ids.len(),
                e.wf(),
                w == e@.world,
                reg == e@.registry,
                ids@ == e@.state.objects,
                objects@.len() == live_among(ids@, w, i as int).len(),
                forall|k: int|
                    0 <= k < objects@.len() ==> (#[trigger] object_save_views(objects@)[k]).is_saved(
                        w.objects[live_among(ids@, w, i as int)[k] as int],
                        reg,
                    ),
            decreases ids.len() - i,
        {
            match GameObject::find_by_id(&e.world, ids[i]) {
                Some(obj) => {
                    let saved = GameObjectSaveData::from_game_object(obj, &e.registry);
                    let ghost before = object_save_views(objects@);
                    objects.push(saved);
                    assert(object_save_views(objects@) =~= before.push(saved@));
                },
                None => {},
            }
            i += 1;
        }
        let handles = e.state.static_components();
        let mut static_components: Vec<StaticComponentSaveData> = Vec::new();
        let mut k: usize = 0;
        while k < handles.len()
            invariant
                k <= handles.len(),
                e.wf(),
                reg == e@.registry,
                handles@ == e@.state.static_components,
                static_components@.len() == k,
                forall|j: int|
                    0 <= j < k ==> (#[trigger] static_save_views(static_components@)[j])
                        == saved_static(reg.shared[handles@[j] as int], reg),
            decreases handles.len() - k,
        {
            assert(e@.state.static_components[k as int] < e@.registry.shared.len());
            let saved = StaticComponentSaveData::from_static_component(&e.registry, handles[k]);
            let ghost before = static_save_views(static_components@);
            static_components.push(saved);
            assert(static_save_views(static_components@) =~= before.push(saved@));
            k += 1;
        }
        EngineSaveData { objects, static_components, graphics: e.graphics }
    }

    /// Whether the saved world can be loaded with these tables.
    pub fn loadable(&self, registry: &Registry) -> (b: bool)
        requires
            registry.wf(),
        ensures
            b == self@.loadable(registry@),
    {
        if self.objects.len() > i32::MAX as usize {
            return false;
        }
        let mut i: usize = 0;
        while i < self.objects.len()
            invariant
                i <= self.objects.len(),
                registry.wf(),
                forall|k: int| 0 <= k < i ==> (#[trigger] self@.objects[k]).loadable(registry@),
            decreases self.objects.len() - i,
        {
            if !self.objects[i].loadable(registry) {
                assert(!self@.objects[i as int].loadable(registry@));
                return false;
            }
            i += 1;
        }
        let mut k: usize = 0;
        while k < self.static_components.len()
            invariant
                k <= self.static_components.len(),
                registry.wf(),
                forall|j: int|
                    0 <= j < k ==> (#[trigger] self@.static_components[j]).loadable(registry@),
            decreases self.static_components.len() - k,
        {
            if !self.static_components[k].loadable(registry) {
                assert(!self@.static_components[k as int].loadable(registry@));
                return false;
            }
            k += 1;
        }
        true
    }

    /// The engine that the saved world stands for, over the given tables.
    pub fn to_engine(&self, registry: Registry) -> (r: Engine)
        requires
            registry.wf(),
            self@.loadable(registry@),
        ensures
            r.wf(),
            r@ == self@.loaded(registry@),
    {
        let mut engine = Engine::new(self.graphics, registry);
        let ghost reg = registry@;
        let ghost saved = self@;
        let mut names: Vec<i32> = Vec::new();
        let mut j: usize = 0;
        while j < self.objects.len()
            invariant
                j <= self.objects.len(),
                names@ == saved_ids(self@.objects).take(j as int),
            decreases self.objects.len() - j,
        {
            names.push(self.objects[j].id);
            assert(names@ =~= saved_ids(self@.objects).take(j + 1));
            j += 1;
        }
        assert(saved_ids(self@.objects).take(self.objects.len() as int) =~= saved_ids(
            self@.objects,
        ));
        let mut i: usize = 0;
        assert(engine@.world.objects =~= Seq::empty());
        assert(engine@.world.destroyed =~= Seq::empty());
        assert(engine@.state.objects =~= Seq::new(0nat, |k: int| k as i32));
        assert(engine@.state.static_components =~= Seq::empty());
        assert(engine@.physics_objects =~= Seq::new(0nat, |k: int| k as i32));
        assert(engine@.render_queue =~= Seq::empty());
        assert(engine@.ui =~= Seq::empty());
        assert(engine@.keys_pressed =~= Seq::empty());
        assert(engine@.mouse_buttons_pressed =~= Seq::empty());
        while i < self.objects.len()
            invariant
                i <= self.objects.len(),
                self.objects.len() <= i32::MAX,
                engine.wf(),
                saved == self@,
                saved.loadable(reg),
                names@ == saved_ids(saved.objects),
                (engine@.world.objects, engine@.registry) == loaded_objects(
                    saved.objects,
                    reg,
                    i as int,
                ),
                engine@ == (EngineView {
                    state: EngineStateView {
                        objects: Seq::new(i as nat, |k: int| k as i32),
                        static_components: Seq::empty(),
                    },
                    world: WorldView { objects: engine@.world.objects, destroyed: Seq::empty() },
                    registry: engine@.registry,
                    render_queue: Seq::empty(),
                    ui: Seq::empty(),
                    graphics: saved.graphics,
                    dt: None,
                    keys_pressed: Seq::empty(),
                    mouse_buttons_pressed: Seq::empty(),
                    mouse_position: [0i32, 0i32],
                    physics_objects: Seq::new(i as nat, |k: int| k as i32),
                    friction: 100,
                    paused: false,
                }),
            decreases self.objects.len() - i,
        {
            proof {
                lemma_loading_objects_grows(saved.objects, reg, i as int);
                assert(saved.objects[i as int].loadable(reg));
                assert(saved.objects[i as int] == self.objects@[i as int]@);
            }
            let id = self.objects[i].to_game_object(
                &mut engine.world,
                &mut engine.registry,
                &names,
                0,
            );
            engine.add_object(id);
            assert(engine@.state.objects =~= Seq::new((i + 1) as nat, |k: int| k as i32));
            assert(engine@.physics_objects =~= Seq::new((i + 1) as nat, |k: int| k as i32));
            i += 1;
        }
        let ghost with_objects = engine@.registry;
        let ghost ids = Seq::new(self.objects.len() as nat, |k: int| k as i32);
        let mut k: usize = 0;
        proof {
            lemma_loading_objects_grows(saved.objects, reg, saved.objects.len() as int);
        }
        while k < self.static_components.len()
            invariant
                k <= self.static_components.len(),
                engine.wf(),
                saved == self@,
                saved.loadable(reg),
                with_objects == saved.tables_with_objects(reg),
                with_objects.static_components == reg.static_components,
                ids == Seq::new(saved.objects.len(), |k: int| k as i32),
                (engine@.state.static_components, engine@.registry) == loaded_statics(
                    saved.static_components,
                    with_objects,
                    k as int,
                ),
                engine@ == (EngineView {
                    state: EngineStateView {
                        objects: ids,
                        static_components: engine@.state.static_components,
                    },
                    world: WorldView {
                        objects: loaded_objects(saved.objects, reg, saved.objects.len() as int).0,
                        destroyed: Seq::empty(),
                    },
                    registry: engine@.registry,
                    render_queue: Seq::empty(),
                    ui: Seq::empty(),
                    graphics: saved.graphics,
                    dt: None,
                    keys_pressed: Seq::empty(),
                    mouse_buttons_pressed: Seq::empty(),
                    mouse_position: [0i32, 0i32],
                    physics_objects: ids,
                    friction: 100,
                    paused: false,
                }),
            decreases self.static_components.len() - k,
        {
            proof {
                lemma_loading_statics_grows(saved.static_components, with_objects, k as int);
                assert(saved.static_components[k as int].loadable(reg));
                assert(saved.static_components[k as int] == self.static_components@[k as int]@);
                lemma_resolving_grows(
                    saved.static_components[k as int].data.links,
                    engine@.registry,
                    saved.static_components[k as int].data.links.len() as int,
                );
            }
            let handle = self.static_components[k].to_static_component(&mut engine.registry);
            engine.add_static(handle);
            k += 1;
        }
        engine
    }
}

} // verus!
