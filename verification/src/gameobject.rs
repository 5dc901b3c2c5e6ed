//! Entities and the table that holds them.

use crate::collider::{
    covers_point, shapes_collide, world_points, Collider, Point,
};
use crate::component::{
    component_views, tick_outcome, Component, ComponentKind, ComponentKindView, ComponentView,
    ComponentWrapper, ComponentWrapperView, InputData, Key, RenderOutput, TickOutcome,
    TickVariant, Transform,
};
use vstd::prelude::*;

verus! {

/// The counter from which new entities take their identifiers.
#[derive(Clone, Copy, Debug)]
pub struct Count {
    internal: i32,
}

impl View for Count {
    type V = int;

    closed spec fn view(&self) -> int {
        self.internal as int
    }
}

impl Count {
    pub fn new() -> (r: Self)
        ensures
            r@ == 0,
    {
        Self { internal: 0 }
    }

    pub fn increment(&mut self)
        requires
            old(self)@ < i32::MAX,
        ensures
            final(self)@ == old(self)@ + 1,
    {
        self.internal += 1;
    }

    pub fn get(&self) -> (r: i32)
        ensures
            r == self@,
    {
        self.internal
    }
}

/// Whether an entity takes part in rendering, and where it hangs in the tree
/// of entities.
#[derive(Clone, Debug)]
pub struct GameObjectState {
    pub active: bool,
    pub parent_id: Option<i32>,
    pub child_ids: Vec<i32>,
}

/// The mathematical model of a `GameObjectState`.
pub struct GameObjectStateView {
    pub active: bool,
    pub parent_id: Option<i32>,
    pub child_ids: Seq<i32>,
}

impl View for GameObjectState {
    type V = GameObjectStateView;

    open spec fn view(&self) -> GameObjectStateView {
        GameObjectStateView {
            active: self.active,
            parent_id: self.parent_id,
            child_ids: self.child_ids@,
        }
    }
}

impl GameObjectStateView {
    /// The state with `child_id` among the children. A child that is there
    /// already is not added again.
    pub open spec fn with_child(self, child_id: i32) -> GameObjectStateView {
        if self.child_ids.contains(child_id) {
            self
        } else {
            GameObjectStateView { child_ids: self.child_ids.push(child_id), ..self }
        }
    }

    /// The state with `parent_id` as the parent.
    pub open spec fn with_parent(self, parent_id: i32) -> GameObjectStateView {
        GameObjectStateView { parent_id: Some(parent_id), ..self }
    }
}

/// Whether `id` is among `ids`.
pub fn contains_id(ids: &Vec<i32>, id: i32) -> (b: bool)
    ensures
        b == ids@.contains(id),
{
    let mut i: usize = 0;
    while i < ids.len()
        invariant
            i <= ids.len(),
            forall|j: int| 0 <= j < i ==> ids@[j] != id,
        decreases ids.len() - i,
    {
        if ids[i] == id {
            return true;
        }
        i += 1;
    }
    false
}

/// Whether a lookup in the table finds an entity.
pub open spec fn answered(w: WorldView) -> spec_fn(i32) -> bool {
    |c: i32| w.find(c) is Some
}

impl GameObjectState {
    pub fn new(active: bool, parent_id: Option<i32>, child_ids: Vec<i32>) -> (r: Self)
        ensures
            r@ == (GameObjectStateView { active, parent_id, child_ids: child_ids@ }),
    {
        Self { active, parent_id, child_ids }
    }

    /// The parent, where there is one and the table still answers for it.
    pub fn parent<'a>(&self, world: &'a World) -> (r: Option<&'a GameObject>)
        requires
            world.wf(),
        ensures
            match self.parent_id {
                Some(p) => option_view(r) == world@.find(p),
                None => r is None,
            },
    {
        match self.parent_id {
            Some(p) => GameObject::find_by_id(world, p),
            None => None,
        }
    }

    /// The children for which the table still answers, in their order.
    pub fn children(&self, world: &World) -> (r: Vec<i32>)
        requires
            world.wf(),
        ensures
            r@ == self.child_ids@.filter(answered(world@)),
    {
        let mut r: Vec<i32> = Vec::new();
        let mut i: usize = 0;
        let ghost live = answered(world@);
        assert(self.child_ids@.take(0) =~= Seq::<i32>::empty());
        while i < self.child_ids.len()
            invariant
                i <= self.child_ids.len(),
                world.wf(),
                live == answered(world@),
                r@ == self.child_ids@.take(i as int).filter(live),
            decreases self.child_ids.len() - i,
        {
            let c: i32 = self.child_ids[i];
            proof {
                let before = self.child_ids@.take(i as int);
                let now = self.child_ids@.take(i + 1);
                reveal(Seq::filter);
                assert(now.drop_last() =~= before);
                assert(now.last() == c);
            }
            if GameObject::find_by_id(world, c).is_some() {
                r.push(c);
            }
            i += 1;
        }
        assert(self.child_ids@.take(self.child_ids.len() as int) =~= self.child_ids@);
        r
    }

    pub fn child_ids(&self) -> (r: Vec<i32>)
        ensures
            r@ == self.child_ids@,
    {
        self.child_ids.clone()
    }

    pub fn active(&self) -> (r: bool)
        ensures
            r == self.active,
    {
        self.active
    }

    pub fn add_child(&mut self, child_id: i32)
        ensures
            final(self)@ == old(self)@.with_child(child_id),
    {
        if !contains_id(&self.child_ids, child_id) {
            self.child_ids.push(child_id);
        }
    }

    pub fn set_parent(&mut self, parent_id: i32)
        ensures
            final(self)@ == old(self)@.with_parent(parent_id),
    {
        self.parent_id = Some(parent_id);
    }
}

/// An entity: a named thing of the simulation with its components, its
/// colliders and its place in the tree of entities.
#[derive(Clone, Debug)]
pub struct GameObject {
    pub name: String,
    pub id: i32,
    pub components: Vec<ComponentWrapper>,
    pub colliders: Vec<Collider>,
    pub state: GameObjectState,
    pub render_references: Vec<usize>,
}

/// The mathematical model of an entity.
pub struct GameObjectView {
    pub name: Seq<char>,
    pub id: i32,
    pub components: Seq<ComponentWrapperView>,
    pub colliders: Seq<Collider>,
    pub state: GameObjectStateView,
    pub render_references: Seq<usize>,
}

impl View for GameObject {
    type V = GameObjectView;

    open spec fn view(&self) -> GameObjectView {
        GameObjectView {
            name: self.name@,
            id: self.id,
            components: component_views(self.components@),
            colliders: self.colliders@,
            state: self.state@,
            render_references: self.render_references@,
        }
    }
}

/// The model of what a lookup found.
pub open spec fn option_view(o: Option<&GameObject>) -> Option<GameObjectView> {
    match o {
        Some(g) => Some(g@),
        None => None,
    }
}

/// The index of the first component of the given kind at or after `from`, or
/// `-1` where there is none.
pub open spec fn first_of_kind(
    components: Seq<ComponentWrapperView>,
    kind: ComponentKindView,
    from: int,
) -> int
    decreases components.len() - from,
{
    if from < 0 || from >= components.len() {
        -1
    } else if components[from].component.kind() == kind {
        from
    } else {
        first_of_kind(components, kind, from + 1)
    }
}

/// What `first_of_kind` finds is of the kind and the first that is; where it
/// finds nothing there is none.
pub proof fn lemma_first_of_kind(
    components: Seq<ComponentWrapperView>,
    kind: ComponentKindView,
    from: int,
)
    requires
        0 <= from,
    ensures
        ({
            let i = first_of_kind(components, kind, from);
            &&& i == -1 || from <= i < components.len()
            &&& i >= 0 ==> components[i].component.kind() == kind
            &&& forall|j: int|
                from <= j < (if i >= 0 { i } else { components.len() as int })
                    ==> components[j].component.kind() != kind
        }),
    decreases components.len() - from,
{
    if from < components.len() && components[from].component.kind() != kind {
        lemma_first_of_kind(components, kind, from + 1);
    }
}

impl GameObjectView {
    /// Where the entity stands: the position of its first transform, the origin
    /// where it has none.
    pub open spec fn position(self) -> Point {
        let i = first_of_kind(self.components, ComponentKindView::Transform, 0);
        if i >= 0 {
            match self.components[i].component {
                ComponentView::Transform { pos, .. } => Point { x: pos[0], y: pos[1], z: pos[2] },
                _ => Point { x: 0, y: 0, z: 0 },
            }
        } else {
            Point { x: 0, y: 0, z: 0 }
        }
    }

    /// Whether the entity has a component of the given kind.
    pub open spec fn has_component(self, kind: ComponentKindView) -> bool {
        first_of_kind(self.components, kind, 0) >= 0
    }

    /// One of the entity's colliders, where the entity stands, collides with
    /// `other` standing at `other_pos`.
    pub open spec fn colliding_with(self, other: Collider, other_pos: Point) -> bool {
        exists|k: int|
            0 <= k < self.colliders.len() && #[trigger] shapes_collide(
                world_points(self.colliders[k].spec_points(), self.position()),
                world_points(other.spec_points(), other_pos),
            )
    }

    /// `point` lies in the bounding box of one of the entity's colliders.
    pub open spec fn colliding_point(self, point: Point) -> bool {
        exists|k: int|
            0 <= k < self.colliders.len() && #[trigger] covers_point(
                world_points(self.colliders[k].spec_points(), self.position()),
                point@,
            )
    }

    /// The segment meets one of the entity's colliders.
    pub open spec fn intersects(self, segment: (Point, Point)) -> bool {
        exists|k: int|
            0 <= k < self.colliders.len() && #[trigger] self.colliders[k].spec_intersects(
                segment,
                self.position(),
            )
    }
}

impl GameObject {
    /// Makes an entity, enters it in the table under the next identifier and
    /// returns the identifier.
    pub fn new(
        world: &mut World,
        name: String,
        components: Vec<ComponentWrapper>,
        state: GameObjectState,
    ) -> (id: i32)
        requires
            old(world).wf(),
            old(world)@.objects.len() < i32::MAX,
        ensures
            final(world).wf(),
            id == old(world)@.objects.len(),
            final(world)@ == old(world)@.created(name@, component_views(components@), state@),
            final(world)@.find(id) == Some(final(world)@.objects[id as int]),
    {
        world.spawn(name, components, Vec::new(), state)
    }

    /// The entity of the given identifier, unless it was destroyed or never
    /// made.
    pub fn find_by_id(world: &World, id: i32) -> (r: Option<&GameObject>)
        requires
            world.wf(),
        ensures
            option_view(r) == world@.find(id),
    {
        if contains_id(&world.destroyed, id) {
            return None;
        }
        if 0 <= id && (id as usize) < world.objects.len() {
            Some(&world.objects[id as usize])
        } else {
            None
        }
    }

    pub fn name(&self) -> (r: &str)
        ensures
            r@ == self@.name,
    {
        self.name.as_str()
    }

    pub fn update_name(&mut self, new: String)
        ensures
            final(self)@ == (GameObjectView { name: new@, ..old(self)@ }),
    {
        self.name = new;
    }

    pub fn id(&self) -> (r: i32)
        ensures
            r == self@.id,
    {
        self.id
    }

    pub fn components(&self) -> (r: &Vec<ComponentWrapper>)
        ensures
            component_views(r@) == self@.components,
    {
        &self.components
    }

    pub fn add_component(&mut self, component: ComponentWrapper)
        ensures
            final(self)@ == (GameObjectView {
                components: old(self)@.components.push(component@),
                ..old(self)@
            }),
    {
        self.components.push(component);
        assert(component_views(final(self).components@) =~= component_views(
            old(self).components@,
        ).push(component@));
    }

    pub fn colliders(&self) -> (r: &Vec<Collider>)
        ensures
            r@ == self@.colliders,
    {
        &self.colliders
    }

    pub fn add_collider(&mut self, coll: Collider)
        ensures
            final(self)@ == (GameObjectView {
                colliders: old(self)@.colliders.push(coll),
                ..old(self)@
            }),
    {
        self.colliders.push(coll);
    }

    /// The index of the first component of the given kind.
    pub fn find_component(&self, kind: &ComponentKind) -> (r: Option<usize>)
        ensures
            match r {
                Some(i) => i == first_of_kind(self@.components, kind@, 0),
                None => first_of_kind(self@.components, kind@, 0) == -1,
            },
    {
        let mut i: usize = 0;
        let ghost views = self@.components;
        while i < self.components.len()
            invariant
                i <= self.components.len(),
                views == component_views(self.components@),
                first_of_kind(views, kind@, 0) == first_of_kind(views, kind@, i as int),
            decreases self.components.len() - i,
        {
            if self.components[i].component.is_kind(kind) {
                return Some(i);
            }
            i += 1;
        }
        None
    }

    /// Where the entity stands: the position of its first transform, the origin
    /// where it has none.
    pub fn position(&self) -> (r: Point)
        ensures
            r == self@.position(),
    {
        proof {
            lemma_first_of_kind(self@.components, ComponentKindView::Transform, 0);
        }
        match self.find_component(&ComponentKind::Transform) {
            Some(i) => match &self.components[i].component {
                Component::Transform(t) => Point { x: t.pos[0], y: t.pos[1], z: t.pos[2] },
                _ => Point { x: 0, y: 0, z: 0 },
            },
            None => Point { x: 0, y: 0, z: 0 },
        }
    }

    /// Whether one of the entity's colliders collides with `other` standing at
    /// `other_pos`.
    pub fn colliding_with(&self, other: &Collider, other_pos: Point) -> (b: bool)
        ensures
            b == self@.colliding_with(*other, other_pos),
    {
        let current_pos = self.position();
        let mut i: usize = 0;
        while i < self.colliders.len()
            invariant
                i <= self.colliders.len(),
                current_pos == self@.position(),
                forall|k: int|
                    0 <= k < i ==> !shapes_collide(
                        world_points(self.colliders@[k].spec_points(), current_pos),
                        world_points(other.spec_points(), other_pos),
                    ),
            decreases self.colliders.len() - i,
        {
            if self.colliders[i].colliding_with(&current_pos, other, &other_pos) {
                assert(shapes_collide(
                    world_points(self@.colliders[i as int].spec_points(), self@.position()),
                    world_points(other.spec_points(), other_pos),
                ));
                return true;
            }
            i += 1;
        }
        false
    }

    /// Whether `other` lies in the bounding box of one of the entity's
    /// colliders.
    pub fn colliding_point(&self, other: Point) -> (b: bool)
        ensures
            b == self@.colliding_point(other),
    {
        let current_pos = self.position();
        let mut i: usize = 0;
        while i < self.colliders.len()
            invariant
                i <= self.colliders.len(),
                current_pos == self@.position(),
                forall|k: int|
                    0 <= k < i ==> !covers_point(
                        world_points(self.colliders@[k].spec_points(), current_pos),
                        other@,
                    ),
            decreases self.colliders.len() - i,
        {
            if self.colliders[i].colliding_point(&current_pos, &other) {
                assert(covers_point(
                    world_points(self@.colliders[i as int].spec_points(), self@.position()),
                    other@,
                ));
                return true;
            }
            i += 1;
        }
        false
    }

    /// Whether the segment meets one of the entity's colliders.
    pub fn intersects(&self, segment: &(Point, Point)) -> (b: bool)
        ensures
            b == self@.intersects(*segment),
    {
        let current_pos = self.position();
        let mut i: usize = 0;
        while i < self.colliders.len()
            invariant
                i <= self.colliders.len(),
                current_pos == self@.position(),
                forall|k: int|
                    0 <= k < i ==> !self.colliders@[k].spec_intersects(*segment, current_pos),
            decreases self.colliders.len() - i,
        {
            if self.colliders[i].intersects(segment, &current_pos) {
                assert(self@.colliders[i as int].spec_intersects(*segment, self@.position()));
                return true;
            }
            i += 1;
        }
        false
    }

    /// Hands the first component of the given kind to `f` and puts what `f`
    /// returns in its place. Returns `None`, and calls nothing, where the
    /// entity has no such component.
    pub fn get_component_closure<F: FnOnce(ComponentWrapper) -> ComponentWrapper>(
        &mut self,
        kind: &ComponentKind,
        f: F,
    ) -> (r: Option<()>)
        requires
            forall|c: ComponentWrapper| call_requires(f, (c,)),
        ensures
            r is Some == old(self)@.has_component(kind@),
            r is None ==> final(self)@ == old(self)@,
            r is Some ==> exists|before: ComponentWrapper, after: ComponentWrapper|
                {
                    let i = first_of_kind(old(self)@.components, kind@, 0);
                    &&& before@ == old(self)@.components[i]
                    &&& #[trigger] call_ensures(f, (before,), after)
                    &&& final(self)@ == (GameObjectView {
                        components: old(self)@.components.update(i, after@),
                        ..old(self)@
                    })
                },
    {
        proof {
            lemma_first_of_kind(self@.components, kind@, 0);
        }
        match self.find_component(kind) {
            Some(i) => {
                let before = self.components.remove(i);
                let ghost taken = before;
                let after = f(before);
                let ghost given = after;
                self.components.insert(i, after);
                assert(final(self)@.components =~= old(self)@.components.update(i as int, given@));
                assert(taken@ == old(self)@.components[i as int]);
                assert(call_ensures(f, (taken,), given));
                Some(())
            },
            None => None,
        }
    }

    /// Whether the entity has a component of the given kind.
    pub fn has_component(&self, kind: &ComponentKind) -> (b: bool)
        ensures
            b == self@.has_component(kind@),
    {
        self.find_component(kind).is_some()
    }

    /// Marks the entity of the given identifier as destroyed. Its entry stays
    /// in the table; lookups no longer answer for it. An identifier that was
    /// never given out is not marked.
    pub fn destroy(world: &mut World, id: i32)
        requires
            old(world).wf(),
        ensures
            final(world).wf(),
            final(world)@ == old(world)@.destroyed_one(id),
    {
        if 0 <= id && (id as usize) < world.objects.len() {
            world.destroyed.push(id);
            let ghost after = final(world)@;
            assert forall|k: int| 0 <= k < after.destroyed.len() implies after.holds(
                #[trigger] after.destroyed[k],
            ) by {
                if k < old(world)@.destroyed.len() {
                    assert(old(world)@.holds(old(world)@.destroyed[k]));
                }
            }
        }
    }
}

/// The table of entities. An entity's identifier is its place in the table;
/// a destroyed entity keeps its place and is masked.
pub struct World {
    objects: Vec<GameObject>,
    count: Count,
    destroyed: Vec<i32>,
}

/// The mathematical model of the table of entities.
pub struct WorldView {
    pub objects: Seq<GameObjectView>,
    pub destroyed: Seq<i32>,
}

/// The models of entities, in their order.
pub open spec fn object_views(objects: Seq<GameObject>) -> Seq<GameObjectView> {
    objects.map_values(|o: GameObject| o@)
}

impl View for World {
    type V = WorldView;

    closed spec fn view(&self) -> WorldView {
        WorldView { objects: object_views(self.objects@), destroyed: self.destroyed@ }
    }
}

impl WorldView {
    /// Every entity sits at the place that its identifier names, and only
    /// entities that were made are marked as destroyed.
    pub open spec fn wf(self) -> bool {
        &&& self.objects.len() <= i32::MAX
        &&& forall|i: int| 0 <= i < self.objects.len() ==> (#[trigger] self.objects[i]).id == i
        &&& forall|k: int|
            0 <= k < self.destroyed.len() ==> self.holds(#[trigger] self.destroyed[k])
    }

    /// The table has an entry for `id`.
    pub open spec fn holds(self, id: i32) -> bool {
        0 <= id < self.objects.len()
    }

    /// What a lookup of `id` finds: nothing for a destroyed entity and for an
    /// identifier that was never given out.
    pub open spec fn find(self, id: i32) -> Option<GameObjectView> {
        if self.destroyed.contains(id) {
            None
        } else if self.holds(id) {
            Some(self.objects[id as int])
        } else {
            None
        }
    }

    /// The table after a new entity was entered.
    pub open spec fn created(
        self,
        name: Seq<char>,
        components: Seq<ComponentWrapperView>,
        state: GameObjectStateView,
    ) -> WorldView {
        self.spawned(name, components, Seq::empty(), state)
    }

    /// The table after a new entity with colliders was entered.
    pub open spec fn spawned(
        self,
        name: Seq<char>,
        components: Seq<ComponentWrapperView>,
        colliders: Seq<Collider>,
        state: GameObjectStateView,
    ) -> WorldView {
        WorldView {
            objects: self.objects.push(
                GameObjectView {
                    name,
                    id: self.objects.len() as i32,
                    components,
                    colliders,
                    state,
                    render_references: Seq::empty(),
                },
            ),
            ..self
        }
    }

    /// The table after `id` was marked as destroyed. An identifier that was
    /// never given out cannot be marked: the table stays as it is.
    pub open spec fn destroyed_one(self, id: i32) -> WorldView {
        if self.holds(id) {
            WorldView { destroyed: self.destroyed.push(id), ..self }
        } else {
            self
        }
    }

    /// The table with the entry of `id` replaced.
    pub open spec fn with_object(self, id: i32, object: GameObjectView) -> WorldView {
        WorldView { objects: self.objects.update(id as int, object), ..self }
    }

    /// The table after `child_id` was hung under `parent_id`. Nothing changes
    /// unless the table holds both and they differ.
    pub open spec fn reparented(self, parent_id: i32, child_id: i32) -> WorldView {
        if self.holds(parent_id) && self.holds(child_id) && parent_id != child_id {
            let child = self.objects[child_id as int];
            let parent = self.objects[parent_id as int];
            self.with_object(
                child_id,
                GameObjectView { state: child.state.with_parent(parent_id), ..child },
            ).with_object(
                parent_id,
                GameObjectView { state: parent.state.with_child(child_id), ..parent },
            )
        } else {
            self
        }
    }
}

impl World {
    /// The table is consistent: the counter stands at the number of entities,
    /// and every entity sits at the place that its identifier names.
    pub closed spec fn wf(&self) -> bool {
        &&& self.count@ == self.objects@.len()
        &&& self@.wf()
    }

    /// A consistent table has a consistent model.
    pub proof fn lemma_wf(&self)
        requires
            self.wf(),
        ensures
            self@.wf(),
    {
    }

    /// An empty table.
    pub fn new() -> (r: Self)
        ensures
            r.wf(),
            r@.objects.len() == 0,
            r@.destroyed.len() == 0,
    {
        World { objects: Vec::new(), count: Count::new(), destroyed: Vec::new() }
    }

    /// Makes an entity with components and colliders, enters it in the table
    /// under the next identifier and returns the identifier.
    pub fn spawn(
        &mut self,
        name: String,
        components: Vec<ComponentWrapper>,
        colliders: Vec<Collider>,
        state: GameObjectState,
    ) -> (id: i32)
        requires
            old(self).wf(),
            old(self)@.objects.len() < i32::MAX,
        ensures
            final(self).wf(),
            id == old(self)@.objects.len(),
            final(self)@ == old(self)@.spawned(
                name@,
                component_views(components@),
                colliders@,
                state@,
            ),
            final(self)@.find(id) == Some(final(self)@.objects[id as int]),
    {
        let id: i32 = self.count.get();
        let game_object = GameObject {
            name,
            id,
            components,
            state,
            render_references: Vec::new(),
            colliders,
        };
        self.objects.push(game_object);
        self.count.increment();
        assert(final(self)@.objects =~= old(self)@.objects.push(game_object@));
        proof {
            lemma_new_entity_is_found(
                old(self)@,
                name@,
                component_views(components@),
                colliders@,
                state@,
            );
        }
        id
    }

    /// How many entities were made, the destroyed ones among them.
    pub fn len(&self) -> (r: usize)
        ensures
            r == self@.objects.len(),
    {
        self.objects.len()
    }

    /// Whether the entity was marked as destroyed.
    pub fn is_destroyed(&self, id: i32) -> (b: bool)
        ensures
            b == self@.destroyed.contains(id),
    {
        contains_id(&self.destroyed, id)
    }
}

/// What a tick of an entity has made so far: the entity, the render queue,
/// and the places of the host-defined components that the tick came by.
pub struct TickState {
    pub object: GameObjectView,
    pub queue: Seq<RenderOutput>,
    pub pending: Seq<usize>,
}

impl GameObjectView {
    /// The position and the turn of the first transform.
    pub open spec fn placement(self) -> Option<([i32; 3], [i32; 3])> {
        let i = first_of_kind(self.components, ComponentKindView::Transform, 0);
        if i >= 0 {
            match self.components[i].component {
                ComponentView::Transform { pos, rot, .. } => Some((pos, rot)),
                _ => None,
            }
        } else {
            None
        }
    }

    /// The entity with its first transform put at `pos` and turned to `rot`.
    /// An entity without a transform stays as it is.
    pub open spec fn placed(self, pos: [i32; 3], rot: [i32; 3]) -> GameObjectView {
        let i = first_of_kind(self.components, ComponentKindView::Transform, 0);
        if i >= 0 {
            match self.components[i].component {
                ComponentView::Transform { state, .. } => GameObjectView {
                    components: self.components.update(
                        i,
                        ComponentWrapperView {
                            component: ComponentView::Transform { state, pos, rot },
                            ticker: self.components[i].ticker,
                        },
                    ),
                    ..self
                },
                _ => self,
            }
        } else {
            self
        }
    }
}

/// The first `n` requests of the render queue without those at the given
/// places, in their order.
pub open spec fn without_places(queue: Seq<RenderOutput>, places: Seq<usize>, n: int) -> Seq<
    RenderOutput,
>
    decreases n,
{
    if n <= 0 {
        Seq::empty()
    } else if places.contains((n - 1) as usize) {
        without_places(queue, places, n - 1)
    } else {
        without_places(queue, places, n - 1).push(queue[n - 1])
    }
}

/// The tick of the `i`-th component: what the component asks is done. An
/// entity that is asked to move puts its first transform there. A request for
/// the render backend goes to the end of the render queue if the entity is
/// active, and the entity notes its place there; if the entity is not active,
/// the requests at the places that it has noted leave the queue, and the
/// entity forgets the places. A component that is left to the host is noted
/// for the host.
pub open spec fn tick_step(st: TickState, i: int, keys: Seq<Key>) -> TickState {
    match tick_outcome(st.object.components[i], Some(keys), st.object.placement()) {
        TickOutcome::Moved(pos, rot) => TickState { object: st.object.placed(pos, rot), ..st },
        TickOutcome::Render(out) => {
            if st.object.state.active {
                TickState {
                    object: GameObjectView {
                        render_references: st.object.render_references.push(
                            st.queue.len() as usize,
                        ),
                        ..st.object
                    },
                    queue: st.queue.push(out),
                    ..st
                }
            } else {
                TickState {
                    object: GameObjectView { render_references: Seq::empty(), ..st.object },
                    queue: without_places(
                        st.queue,
                        st.object.render_references,
                        st.queue.len() as int,
                    ),
                    ..st
                }
            }
        },
        TickOutcome::Host => TickState { pending: st.pending.push(i as usize), ..st },
        TickOutcome::Nothing => st,
    }
}

pub(crate) fn mark(marks: &mut Vec<bool>, refs: &Vec<usize>, Ghost(before): Ghost<Seq<usize>>)
    requires
        forall|i: int| 0 <= i < old(marks)@.len() ==> old(marks)@[i] == before.contains(i as usize),
    ensures
        final(marks)@.len() == old(marks)@.len(),
        forall|i: int|
            0 <= i < final(marks)@.len() ==> final(marks)@[i] == (before + refs@).contains(
                i as usize,
            ),
{
    let mut k: usize = 0;
    assert(before + refs@.take(0) =~= before);
    while k < refs.len()
        invariant
            k <= refs.len(),
            marks@.len() == old(marks)@.len(),
            forall|i: int|
                0 <= i < marks@.len() ==> marks@[i] == (before + refs@.take(k as int)).contains(
                    i as usize,
                ),
        decreases refs.len() - k,
    {
        let r: usize = refs[k];
        let ghost seen = before + refs@.take(k as int);
        let ghost now = before + refs@.take(k + 1);
        assert(now =~= seen.push(r));
        if r < marks.len() {
            marks.set(r, true);
        }
        assert forall|i: int| 0 <= i < marks@.len() implies marks@[i] == now.contains(i as usize) by {
            if seen.contains(i as usize) {
                let j = choose|j: int| 0 <= j < seen.len() && seen[j] == i as usize;
                assert(now[j] == i as usize);
            }
            if now.contains(i as usize) {
                let j = choose|j: int| 0 <= j < now.len() && now[j] == i as usize;
                if j < seen.len() {
                    assert(seen[j] == i as usize);
                }
            }
            if i == r {
                assert(now[seen.len() as int] == r);
            }
        }
        k += 1;
    }
    assert(refs@.take(refs.len() as int) =~= refs@);
}

pub(crate) fn sweep(queue: &Vec<RenderOutput>, marks: &Vec<bool>, Ghost(places): Ghost<Seq<usize>>) -> (r: Vec<
    RenderOutput,
>)
    requires
        marks@.len() == queue@.len(),
        forall|i: int| 0 <= i < marks@.len() ==> marks@[i] == places.contains(i as usize),
    ensures
        r@ == without_places(queue@, places, queue@.len() as int),
{
    let mut r: Vec<RenderOutput> = Vec::new();
    let mut i: usize = 0;
    while i < queue.len()
        invariant
            i <= queue.len(),
            marks@.len() == queue@.len(),
            forall|i: int| 0 <= i < marks@.len() ==> marks@[i] == places.contains(i as usize),
            r@ == without_places(queue@, places, i as int),
        decreases queue.len() - i,
    {
        if !marks[i] {
            r.push(queue[i]);
        }
        i += 1;
    }
    r
}

/// Takes the requests at the given places out of the render queue. The
/// requests that stay keep their order; a place beyond the end of the queue
/// names no request.
pub fn retract(queue: &mut Vec<RenderOutput>, refs: &Vec<usize>)
    ensures
        final(queue)@ == without_places(old(queue)@, refs@, old(queue)@.len() as int),
{
    let mut marks: Vec<bool> = Vec::new();
    let mut q: usize = 0;
    while q < queue.len()
        invariant
            q <= queue.len(),
            marks@.len() == q,
            forall|i: int| 0 <= i < q ==> !marks@[i],
        decreases queue.len() - q,
    {
        marks.push(false);
        q += 1;
    }
    mark(&mut marks, refs, Ghost(Seq::empty()));
    assert(Seq::<usize>::empty() + refs@ =~= refs@);
    let kept = sweep(queue, &marks, Ghost(refs@));
    *queue = kept;
}

/// The ticks of the first `n` components, in their order.
pub open spec fn tick_upto(st: TickState, n: int, keys: Seq<Key>) -> TickState
    decreases n,
{
    if n <= 0 {
        st
    } else {
        tick_step(tick_upto(st, n - 1, keys), n - 1, keys)
    }
}

/// The tick of an entity: the ticks of all its components.
pub open spec fn ticked(object: GameObjectView, queue: Seq<RenderOutput>, keys: Seq<Key>) -> TickState {
    tick_upto(
        TickState { object, queue, pending: Seq::empty() },
        object.components.len() as int,
        keys,
    )
}

/// Placing an entity changes nothing but the position and the turn of its
/// first transform.
pub proof fn lemma_placed_keeps_rest(o: GameObjectView, pos: [i32; 3], rot: [i32; 3])
    ensures
        o.placed(pos, rot).components.len() == o.components.len(),
        o.placed(pos, rot).id == o.id,
        o.placed(pos, rot).state == o.state,
        o.placed(pos, rot).name == o.name,
        o.placed(pos, rot).colliders == o.colliders,
        o.placed(pos, rot).render_references == o.render_references,
        forall|k: int|
            0 <= k < o.components.len() ==> (#[trigger] o.placed(pos, rot).components[k]).ticker
                == o.components[k].ticker,
        forall|k: int|
            0 <= k < o.components.len() ==> (#[trigger] o.placed(pos, rot).components[k]).component.kind()
                == o.components[k].component.kind(),
{
    lemma_first_of_kind(o.components, ComponentKindView::Transform, 0);
}

/// A tick leaves the number of an entity's components as it was.
pub proof fn lemma_tick_keeps_components(st: TickState, n: int, keys: Seq<Key>)
    ensures
        tick_upto(st, n, keys).object.components.len() == st.object.components.len(),
        tick_upto(st, n, keys).object.id == st.object.id,
        tick_upto(st, n, keys).object.state == st.object.state,
        tick_upto(st, n, keys).object.name == st.object.name,
        tick_upto(st, n, keys).object.colliders == st.object.colliders,
    decreases n,
{
    if n > 0 {
        lemma_tick_keeps_components(st, n - 1, keys);
        let prev = tick_upto(st, n - 1, keys);
        match tick_outcome(prev.object.components[n - 1], Some(keys), prev.object.placement()) {
            TickOutcome::Moved(pos, rot) => {
                lemma_placed_keeps_rest(prev.object, pos, rot);
            },
            _ => {},
        }
    }
}

impl GameObject {
    fn placement(&self) -> (r: Option<([i32; 3], [i32; 3])>)
        ensures
            r == self@.placement(),
    {
        proof {
            lemma_first_of_kind(self@.components, ComponentKindView::Transform, 0);
        }
        match self.find_component(&ComponentKind::Transform) {
            Some(i) => match &self.components[i].component {
                Component::Transform(t) => Some((t.pos, t.rot)),
                _ => None,
            },
            None => None,
        }
    }

    /// Puts the entity's first transform at `pos`, turned to `rot`.
    pub fn place(&mut self, pos: [i32; 3], rot: [i32; 3])
        ensures
            final(self)@ == old(self)@.placed(pos, rot),
    {
        proof {
            lemma_first_of_kind(self@.components, ComponentKindView::Transform, 0);
        }
        match self.find_component(&ComponentKind::Transform) {
            Some(i) => {
                match &mut self.components[i].component {
                    Component::Transform(t) => {
                        t.pos = pos;
                        t.rot = rot;
                    },
                    _ => {},
                }
                assert(final(self)@.components =~= old(self)@.placed(pos, rot).components);
            },
            None => {},
        }
    }

    /// Ticks every component of the entity, in their order. Requests of render
    /// components go to the end of `queue`. Returns the places of the entity's
    /// host-defined components, whose behaviour the host runs.
    pub fn tick_self(&mut self, input: &InputData, dt: u64, queue: &mut Vec<RenderOutput>) -> (pending:
        Vec<usize>)
        ensures
            final(self)@ == ticked(old(self)@, old(queue)@, input.keys_pressed@).object,
            final(queue)@ == ticked(old(self)@, old(queue)@, input.keys_pressed@).queue,
            pending@ == ticked(old(self)@, old(queue)@, input.keys_pressed@).pending,
    {
        let mut pending: Vec<usize> = Vec::new();
        let n: usize = self.components.len();
        let ghost keys = input.keys_pressed@;
        let ghost start = TickState { object: self@, queue: queue@, pending: Seq::empty() };
        let mut i: usize = 0;
        while i < n
            invariant
                i <= n,
                n == self.components.len(),
                n == start.object.components.len(),
                keys == input.keys_pressed@,
                (TickState { object: self@, queue: queue@, pending: pending@ }) == tick_upto(
                    start,
                    i as int,
                    keys,
                ),
            decreases n - i,
        {
            let ghost before = TickState { object: self@, queue: queue@, pending: pending@ };
            let current = self.placement();
            let outcome = self.components[i].tick(Some(input), current, dt);
            match outcome {
                TickOutcome::Moved(pos, rot) => {
                    proof {
                        lemma_placed_keeps_rest(self@, pos, rot);
                    }
                    self.place(pos, rot);
                },
                TickOutcome::Render(out) => {
                    if self.state.active {
                        self.render_references.push(queue.len());
                        queue.push(out);
                    } else {
                        retract(queue, &self.render_references);
                        self.render_references.clear();
                    }
                },
                TickOutcome::Host => {
                    pending.push(i);
                },
                TickOutcome::Nothing => {},
            }
            assert((TickState { object: self@, queue: queue@, pending: pending@ }) == tick_step(
                before,
                i as int,
                keys,
            ));
            i += 1;
        }
        pending
    }
}

/// How an attempt to add a component ended.
#[derive(Debug, PartialEq, Eq, Clone, Copy, Structural)]
pub enum AddComponent {
    /// The component is the entity's last.
    Added,
    /// No entity answers for the identifier; nothing was changed.
    NoSuchObject,
    /// The entity has a component of this kind already; nothing was changed.
    AlreadyPresent,
}

impl WorldView {
    /// The table after `f` was applied to the entity that a lookup of `id`
    /// finds; the table as it is where the lookup finds none.
    pub open spec fn changed(self, id: i32, to: GameObjectView) -> WorldView {
        if self.find(id) is Some {
            self.with_object(id, to)
        } else {
            self
        }
    }
}

/// An active entity without a parent that has a transform and nothing else.
pub fn make_base_game_object(world: &mut World, name: String) -> (id: i32)
    requires
        old(world).wf(),
        old(world)@.objects.len() < i32::MAX,
    ensures
        final(world).wf(),
        id == old(world)@.objects.len(),
        final(world)@ == old(world)@.created(
            name@,
            seq![
                ComponentWrapperView {
                    component: ComponentView::Transform {
                        state: "null"@,
                        pos: [0i32, 0i32, 0i32],
                        rot: [0i32, 0i32, 0i32],
                    },
                    ticker: TickVariant::Default,
                },
            ],
            GameObjectStateView { active: true, parent_id: None, child_ids: Seq::empty() },
        ),
{
    let mut components: Vec<ComponentWrapper> = Vec::new();
    components.push(Transform::new());
    assert(component_views(components@) =~= seq![components@[0]@]);
    GameObject::new(world, name, components, GameObjectState::new(true, None, Vec::new()))
}

/// Whether one of the entity's colliders collides with `other` standing at
/// `other_pos`. No entity that a lookup does not find collides.
pub fn colliding_with(world: &World, obj_id: i32, other: &Collider, other_pos: Point) -> (b: bool)
    requires
        world.wf(),
    ensures
        b == match world@.find(obj_id) {
            Some(o) => o.colliding_with(*other, other_pos),
            None => false,
        },
{
    match GameObject::find_by_id(world, obj_id) {
        Some(o) => o.colliding_with(other, other_pos),
        None => false,
    }
}

/// Whether `other` lies in the bounding box of one of the entity's colliders.
/// No entity that a lookup does not find holds a point.
pub fn colliding_point(world: &World, obj_id: i32, other: Point) -> (b: bool)
    requires
        world.wf(),
    ensures
        b == match world@.find(obj_id) {
            Some(o) => o.colliding_point(other),
            None => false,
        },
{
    match GameObject::find_by_id(world, obj_id) {
        Some(o) => o.colliding_point(other),
        None => false,
    }
}

/// Whether the entity has a component of the given kind. An entity that a
/// lookup does not find has none.
pub fn has_component(world: &World, obj_id: i32, kind: &ComponentKind) -> (b: bool)
    requires
        world.wf(),
    ensures
        b == match world@.find(obj_id) {
            Some(o) => o.has_component(kind@),
            None => false,
        },
{
    match GameObject::find_by_id(world, obj_id) {
        Some(o) => o.has_component(kind),
        None => false,
    }
}

/// Gives the entity another collider. Returns whether a lookup found the
/// entity; where it did not, nothing is changed.
pub fn add_collider(world: &mut World, obj_id: i32, coll: Collider) -> (found: bool)
    requires
        old(world).wf(),
    ensures
        final(world).wf(),
        found == (old(world)@.find(obj_id) is Some),
        found ==> final(world)@ == old(world)@.with_object(
            obj_id,
            GameObjectView {
                colliders: old(world)@.objects[obj_id as int].colliders.push(coll),
                ..old(world)@.objects[obj_id as int]
            },
        ),
        !found ==> final(world)@ == old(world)@,
{
    if world.answers(obj_id) {
        world.objects[obj_id as usize].add_collider(coll);
        assert(final(world)@.objects =~= old(world)@.objects.update(
            obj_id as int,
            final(world).objects@[obj_id as int]@,
        ));
        true
    } else {
        false
    }
}

/// Hangs `child_id` under `parent_id`: the child gets the parent, and the
/// parent gets the child unless it has it already. Nothing changes unless the
/// table holds both and they are two entities.
pub fn reparent(world: &mut World, parent_id: i32, child_id: i32)
    requires
        old(world).wf(),
    ensures
        final(world).wf(),
        final(world)@ == old(world)@.reparented(parent_id, child_id),
{
    let n: usize = world.objects.len();
    if 0 <= parent_id && (parent_id as usize) < n && 0 <= child_id && (child_id as usize) < n
        && parent_id != child_id {
        world.objects[child_id as usize].state.set_parent(parent_id);
        world.objects[parent_id as usize].state.add_child(child_id);
        assert(final(world)@.objects =~= old(world)@.reparented(parent_id, child_id).objects);
    }
}

/// Gives the entity another component, unless it has one of the same kind.
pub fn add_component(world: &mut World, object: i32, comp: ComponentWrapper) -> (r: AddComponent)
    requires
        old(world).wf(),
    ensures
        final(world).wf(),
        r == match old(world)@.find(object) {
            None => AddComponent::NoSuchObject,
            Some(o) => if o.has_component(comp@.component.kind()) {
                AddComponent::AlreadyPresent
            } else {
                AddComponent::Added
            },
        },
        r == AddComponent::Added ==> final(world)@ == old(world)@.with_object(
            object,
            GameObjectView {
                components: old(world)@.objects[object as int].components.push(comp@),
                ..old(world)@.objects[object as int]
            },
        ),
        r != AddComponent::Added ==> final(world)@ == old(world)@,
{
    if !world.answers(object) {
        return AddComponent::NoSuchObject;
    }
    let kind = comp.component.kind();
    if world.objects[object as usize].has_component(&kind) {
        return AddComponent::AlreadyPresent;
    }
    world.objects[object as usize].add_component(comp);
    assert(final(world)@.objects =~= old(world)@.objects.update(
        object as int,
        final(world).objects@[object as int]@,
    ));
    AddComponent::Added
}

impl World {
    /// Whether a lookup of `id` finds an entity.
    pub fn answers(&self, id: i32) -> (b: bool)
        requires
            self.wf(),
        ensures
            b == (self@.find(id) is Some),
    {
        !contains_id(&self.destroyed, id) && 0 <= id && (id as usize) < self.objects.len()
    }

    /// Gives the entity another component, whatever it has. Returns whether a
    /// lookup found the entity; where it did not, nothing is changed.
    pub fn add_component(&mut self, id: i32, component: ComponentWrapper) -> (found: bool)
        requires
            old(self).wf(),
        ensures
            final(self).wf(),
            found == (old(self)@.find(id) is Some),
            found ==> final(self)@ == old(self)@.with_object(
                id,
                GameObjectView {
                    components: old(self)@.objects[id as int].components.push(component@),
                    ..old(self)@.objects[id as int]
                },
            ),
            !found ==> final(self)@ == old(self)@,
    {
        if self.answers(id) {
            self.objects[id as usize].add_component(component);
            assert(final(self)@.objects =~= old(self)@.objects.update(
                id as int,
                final(self).objects@[id as int]@,
            ));
            true
        } else {
            false
        }
    }

    /// Hands the first component of the given kind that the entity has to `f`
    /// and puts what `f` returns in its place. Returns `None`, and calls
    /// nothing, where a lookup finds no entity or the entity has no such
    /// component.
    pub fn get_component_closure<F: FnOnce(ComponentWrapper) -> ComponentWrapper>(
        &mut self,
        id: i32,
        kind: &ComponentKind,
        f: F,
    ) -> (r: Option<()>)
        requires
            old(self).wf(),
            forall|c: ComponentWrapper| call_requires(f, (c,)),
        ensures
            final(self).wf(),
            r is Some == match old(self)@.find(id) {
                Some(o) => o.has_component(kind@),
                None => false,
            },
            r is None ==> final(self)@ == old(self)@,
            r is Some ==> exists|before: ComponentWrapper, after: ComponentWrapper|
                {
                    let o = old(self)@.objects[id as int];
                    let i = first_of_kind(o.components, kind@, 0);
                    &&& before@ == o.components[i]
                    &&& #[trigger] call_ensures(f, (before,), after)
                    &&& final(self)@ == old(self)@.with_object(
                        id,
                        GameObjectView { components: o.components.update(i, after@), ..o },
                    )
                },
    {
        if self.answers(id) {
            let r = self.objects[id as usize].get_component_closure(kind, f);
            assert(final(self)@.objects =~= old(self)@.objects.update(
                id as int,
                final(self).objects@[id as int]@,
            ));
            if r.is_none() {
                assert(final(self)@.objects =~= old(self)@.objects);
            }
            r
        } else {
            None
        }
    }

    /// Renames the entity. Returns whether a lookup found the entity; where
    /// it did not, nothing is changed.
    pub fn update_name(&mut self, id: i32, new: String) -> (found: bool)
        requires
            old(self).wf(),
        ensures
            final(self).wf(),
            found == (old(self)@.find(id) is Some),
            found ==> final(self)@ == old(self)@.with_object(
                id,
                GameObjectView { name: new@, ..old(self)@.objects[id as int] },
            ),
            !found ==> final(self)@ == old(self)@,
    {
        if self.answers(id) {
            self.objects[id as usize].update_name(new);
            assert(final(self)@.objects =~= old(self)@.objects.update(
                id as int,
                final(self).objects@[id as int]@,
            ));
            true
        } else {
            false
        }
    }

    /// Makes the entity active or inactive. Returns whether a lookup found the
    /// entity; where it did not, nothing is changed.
    pub fn set_active(&mut self, id: i32, active: bool) -> (found: bool)
        requires
            old(self).wf(),
        ensures
            final(self).wf(),
            found == (old(self)@.find(id) is Some),
            found ==> final(self)@ == old(self)@.with_object(
                id,
                GameObjectView {
                    state: GameObjectStateView { active, ..old(self)@.objects[id as int].state },
                    ..old(self)@.objects[id as int]
                },
            ),
            !found ==> final(self)@ == old(self)@,
    {
        if self.answers(id) {
            self.objects[id as usize].state.active = active;
            assert(final(self)@.objects =~= old(self)@.objects.update(
                id as int,
                final(self).objects@[id as int]@,
            ));
            true
        } else {
            false
        }
    }

    /// Puts the entity's first transform at `pos`, turned to `rot`. Returns
    /// whether a lookup found the entity; where it did not, nothing is
    /// changed.
    pub fn place(&mut self, id: i32, pos: [i32; 3], rot: [i32; 3]) -> (found: bool)
        requires
            old(self).wf(),
        ensures
            final(self).wf(),
            found == (old(self)@.find(id) is Some),
            found ==> final(self)@ == old(self)@.with_object(
                id,
                old(self)@.objects[id as int].placed(pos, rot),
            ),
            !found ==> final(self)@ == old(self)@,
    {
        if self.answers(id) {
            self.objects[id as usize].place(pos, rot);
            assert(final(self)@.objects =~= old(self)@.objects.update(
                id as int,
                final(self).objects@[id as int]@,
            ));
            true
        } else {
            false
        }
    }

    /// Ticks the entity, as `GameObject::tick_self` does. A lookup that finds
    /// no entity leaves everything as it is: a handle to a destroyed entity is
    /// inert.
    pub fn tick_self(&mut self, id: i32, input: &InputData, dt: u64, queue: &mut Vec<RenderOutput>) -> (pending:
        Vec<usize>)
        requires
            old(self).wf(),
        ensures
            final(self).wf(),
            match old(self)@.find(id) {
                Some(o) => {
                    &&& final(self)@ == old(self)@.with_object(
                        id,
                        ticked(o, old(queue)@, input.keys_pressed@).object,
                    )
                    &&& final(queue)@ == ticked(o, old(queue)@, input.keys_pressed@).queue
                    &&& pending@ == ticked(o, old(queue)@, input.keys_pressed@).pending
                },
                None => {
                    &&& final(self)@ == old(self)@
                    &&& final(queue)@ == old(queue)@
                    &&& pending@ == Seq::<usize>::empty()
                },
            },
    {
        if self.answers(id) {
            proof {
                let o = self@.objects[id as int];
                lemma_tick_keeps_components(
                    TickState { object: o, queue: queue@, pending: Seq::empty() },
                    o.components.len() as int,
                    input.keys_pressed@,
                );
            }
            let pending = self.objects[id as usize].tick_self(input, dt, queue);
            assert(final(self)@.objects =~= old(self)@.objects.update(
                id as int,
                final(self).objects@[id as int]@,
            ));
            pending
        } else {
            Vec::new()
        }
    }
}

/// A tick that the host has to run: that of the host-defined component at
/// the given place among the components of the given entity.
#[derive(Clone, Copy, Debug, PartialEq, Eq, Structural)]
pub struct HostTick {
    pub object: i32,
    pub component: usize,
}

/// What a frame has made so far: the world, the render queue, and the ticks
/// that are left to the host, in the order in which the frame came by them.
pub struct Frame {
    pub world: WorldView,
    pub queue: Seq<RenderOutput>,
    pub host: Seq<HostTick>,
}

/// The host's ticks for the components at the given places of an entity.
pub open spec fn host_ticks(id: i32, places: Seq<usize>) -> Seq<HostTick> {
    places.map_values(|c: usize| HostTick { object: id, component: c })
}

/// The frame after the entity `id` was ticked. An entity that a lookup does
/// not find is not ticked.
pub open spec fn frame_after_self(f: Frame, id: i32, keys: Seq<Key>) -> Frame {
    match f.world.find(id) {
        Some(o) => {
            let t = ticked(o, f.queue, keys);
            Frame {
                world: f.world.with_object(id, t.object),
                queue: t.queue,
                host: f.host + host_ticks(id, t.pending),
            }
        },
        None => f,
    }
}

/// The frame after the entity `id` and the entities below it were ticked: the
/// entity first, then its children in their order, each with what is below
/// it. So an entity is ticked before everything that hangs under it. The
/// descent ends after `depth` levels; a tree of entities has no more levels
/// than the world has entities.
pub open spec fn frame_after_tree(f: Frame, id: i32, depth: nat, keys: Seq<Key>) -> Frame
    decreases depth, 0int,
{
    if depth == 0 || f.world.find(id) is None {
        f
    } else {
        let own = frame_after_self(f, id, keys);
        let children = own.world.objects[id as int].state.child_ids;
        frame_after_children(own, children, children.len() as int, (depth - 1) as nat, keys)
    }
}

/// The frame after the first `n` of some children, and the entities below
/// them, were ticked.
pub open spec fn frame_after_children(
    f: Frame,
    children: Seq<i32>,
    n: int,
    depth: nat,
    keys: Seq<Key>,
) -> Frame
    decreases depth, n,
{
    if n <= 0 {
        f
    } else {
        frame_after_tree(
            frame_after_children(f, children, n - 1, depth, keys),
            children[n - 1],
            depth,
            keys,
        )
    }
}

impl World {
    /// Notes for an entity a place of the render queue at which a request of
    /// the entity stands. Returns whether a lookup found the entity; where it
    /// did not, nothing is changed.
    pub fn note_render_reference(&mut self, id: i32, reference: usize) -> (found: bool)
        requires
            old(self).wf(),
        ensures
            final(self).wf(),
            found == (old(self)@.find(id) is Some),
            found ==> final(self)@ == old(self)@.with_object(
                id,
                GameObjectView {
                    render_references: old(self)@.objects[id as int].render_references.push(
                        reference,
                    ),
                    ..old(self)@.objects[id as int]
                },
            ),
            !found ==> final(self)@ == old(self)@,
    {
        if self.answers(id) {
            self.objects[id as usize].render_references.push(reference);
            assert(final(self)@.objects =~= old(self)@.objects.update(
                id as int,
                final(self).objects@[id as int]@,
            ));
            true
        } else {
            false
        }
    }

    /// Takes the notes of an entity about its places in the render queue and
    /// hands them out. An entity that a lookup does not find has none to give.
    pub fn take_render_references(&mut self, id: i32) -> (refs: Vec<usize>)
        requires
            old(self).wf(),
        ensures
            final(self).wf(),
            match old(self)@.find(id) {
                Some(o) => {
                    &&& refs@ == o.render_references
                    &&& final(self)@ == old(self)@.with_object(
                        id,
                        GameObjectView { render_references: Seq::empty(), ..o },
                    )
                },
                None => refs@ == Seq::<usize>::empty() && final(self)@ == old(self)@,
            },
    {
        if self.answers(id) {
            let mut refs: Vec<usize> = Vec::new();
            std::mem::swap(&mut refs, &mut self.objects[id as usize].render_references);
            assert(final(self)@.objects =~= old(self)@.objects.update(
                id as int,
                final(self).objects@[id as int]@,
            ));
            refs
        } else {
            Vec::new()
        }
    }

    /// Ticks the entity `id` and the entities below it, as `frame_after_tree`
    /// says. The ticks that are left to the host are added to `host`.
    pub fn tick_all(
        &mut self,
        id: i32,
        depth: usize,
        input: &InputData,
        dt: u64,
        queue: &mut Vec<RenderOutput>,
        host: &mut Vec<HostTick>,
    )
        requires
            old(self).wf(),
        ensures
            final(self).wf(),
            (Frame { world: final(self)@, queue: final(queue)@, host: final(host)@ })
                == frame_after_tree(
                Frame { world: old(self)@, queue: old(queue)@, host: old(host)@ },
                id,
                depth as nat,
                input.keys_pressed@,
            ),
        decreases depth, 0int,
    {
        if depth == 0 || !self.answers(id) {
            return ;
        }
        let ghost keys = input.keys_pressed@;
        let ghost start = Frame { world: self@, queue: queue@, host: host@ };
        let ghost own = frame_after_self(start, id, keys);
        let pending = self.tick_self(id, input, dt, queue);
        let mut i: usize = 0;
        while i < pending.len()
            invariant
                i <= pending.len(),
                host@ == start.host + host_ticks(id, pending@.take(i as int)),
            decreases pending.len() - i,
        {
            host.push(HostTick { object: id, component: pending[i] });
            assert(host_ticks(id, pending@.take(i + 1)) =~= host_ticks(
                id,
                pending@.take(i as int),
            ).push(HostTick { object: id, component: pending@[i as int] }));
            assert(host@ =~= start.host + host_ticks(id, pending@.take(i + 1)));
            i += 1;
        }
        assert(pending@.take(pending.len() as int) =~= pending@);
        assert((Frame { world: self@, queue: queue@, host: host@ }) == own);
        self.tick_children(id, depth - 1, input, dt, queue, host);
    }

    /// Ticks the children of the entity `id`, in their order, each with what
    /// is below it. An entity that a lookup does not find has no children to
    /// tick.
    pub fn tick_children(
        &mut self,
        id: i32,
        depth: usize,
        input: &InputData,
        dt: u64,
        queue: &mut Vec<RenderOutput>,
        host: &mut Vec<HostTick>,
    )
        requires
            old(self).wf(),
        ensures
            final(self).wf(),
            (Frame { world: final(self)@, queue: final(queue)@, host: final(host)@ })
                == match old(self)@.find(id) {
                Some(o) => frame_after_children(
                    Frame { world: old(self)@, queue: old(queue)@, host: old(host)@ },
                    o.state.child_ids,
                    o.state.child_ids.len() as int,
                    depth as nat,
                    input.keys_pressed@,
                ),
                None => Frame { world: old(self)@, queue: old(queue)@, host: old(host)@ },
            },
        decreases depth, 1int,
    {
        if !self.answers(id) {
            return ;
        }
        let ghost keys = input.keys_pressed@;
        let ghost own = Frame { world: self@, queue: queue@, host: host@ };
        let children = self.objects[id as usize].state.child_ids.clone();
        let mut k: usize = 0;
        while k < children.len()
            invariant
                k <= children.len(),
                self.wf(),
                keys == input.keys_pressed@,
                (Frame { world: self@, queue: queue@, host: host@ }) == frame_after_children(
                    own,
                    children@,
                    k as int,
                    depth as nat,
                    keys,
                ),
            decreases children.len() - k,
        {
            self.tick_all(children[k], depth, input, dt, queue, host);
            k += 1;
        }
    }

    /// Hands the entry that the table has for `obj_id` to `func` and returns
    /// what `func` makes of it. An entity that was destroyed still has its
    /// entry. Returns `None`, and calls nothing, where the table has no entry.
    pub fn _internal_to_object<T, F: FnOnce(&GameObject) -> T>(&self, obj_id: i32, func: F) -> (r:
        Option<T>)
        requires
            self.wf(),
            forall|o: &GameObject| call_requires(func, (o,)),
        ensures
            r is Some == self@.holds(obj_id),
            r is Some ==> exists|o: &GameObject|
                o@ == self@.objects[obj_id as int] && #[trigger] call_ensures(func, (o,), r->0),
    {
        if 0 <= obj_id && (obj_id as usize) < self.objects.len() {
            let o = &self.objects[obj_id as usize];
            let made = func(o);
            let ghost kept = made;
            let r = Some(made);
            assert(o@ == self@.objects[obj_id as int]);
            assert(call_ensures(func, (o,), kept));
            assert(r->0 == kept);
            r
        } else {
            None
        }
    }
}

/// An entity that was just made is found under its identifier.
pub proof fn lemma_new_entity_is_found(
    w: WorldView,
    name: Seq<char>,
    components: Seq<ComponentWrapperView>,
    colliders: Seq<Collider>,
    state: GameObjectStateView,
)
    requires
        w.wf(),
        w.objects.len() < i32::MAX,
    ensures
        w.spawned(name, components, colliders, state).wf(),
        w.spawned(name, components, colliders, state).find(w.objects.len() as i32) == Some(
            w.spawned(name, components, colliders, state).objects[w.objects.len() as int],
        ),
{
    let after = w.spawned(name, components, colliders, state);
    let id = w.objects.len() as i32;
    if after.destroyed.contains(id) {
        let k = choose|k: int| 0 <= k < w.destroyed.len() && w.destroyed[k] == id;
        assert(w.holds(w.destroyed[k]));
    }
    assert forall|k: int| 0 <= k < after.destroyed.len() implies after.holds(
        #[trigger] after.destroyed[k],
    ) by {
        assert(w.holds(w.destroyed[k]));
    }
}

/// A destroyed entity is not found, every other entity is found as before,
/// and the table keeps all its entries: what was held of the destroyed entity
/// stays as it was.
pub proof fn lemma_destroyed_is_not_found(w: WorldView, id: i32, other: i32)
    ensures
        w.destroyed_one(id).find(id) is None,
        other != id ==> w.destroyed_one(id).find(other) == w.find(other),
        w.destroyed_one(id).objects == w.objects,
{
    let d = w.destroyed_one(id).destroyed;
    if w.holds(id) {
        assert(d[w.destroyed.len() as int] == id);
    }
    if other != id && w.holds(id) {
        if w.destroyed.contains(other) {
            let k = choose|k: int| 0 <= k < w.destroyed.len() && w.destroyed[k] == other;
            assert(d[k] == other);
        }
        if d.contains(other) {
            let k = choose|k: int| 0 <= k < d.len() && d[k] == other;
            assert(w.destroyed[k] == other);
        }
    }
}

/// A handle to a destroyed entity is inert: a tick through it changes
/// nothing, and neither does a tick of what would hang below it.
pub proof fn lemma_destroyed_is_not_ticked(f: Frame, id: i32, depth: nat, keys: Seq<Key>)
    requires
        f.world.find(id) is None,
    ensures
        frame_after_self(f, id, keys) == f,
        frame_after_tree(f, id, depth, keys) == f,
{
}

} // verus!
