//! Components: the units of state and behaviour that an entity owns, and the
//! three ways in which the frame loop ticks them.

use crate::bounds::{clipped, Bounds2D};
use crate::collider::Point;
use crate::fixed::{add_saturating, saturated, sub_saturating};
use crate::save::{LinkField, LinkFieldView};
use vstd::prelude::*;

verus! {

/// How a component takes part in the frame loop.
#[derive(Debug, PartialEq, Eq, Clone, Copy, Structural)]
pub enum ComponentType {
    Input,
    Render,
    Default,
}

/// The state blob that every component carries: a JSON document, kept as its
/// text. The engine stores it and hands it back; it does not read it.
#[derive(Clone, Debug)]
pub struct ComponentState {
    _state: String,
}

impl View for ComponentState {
    type V = Seq<char>;

    closed spec fn view(&self) -> Seq<char> {
        self._state@
    }
}

impl ComponentState {
    /// The state of a component that has stored nothing: the JSON `null`.
    pub fn new() -> (r: Self)
        ensures
            r@ == "null"@,
    {
        Self { _state: "null".to_string() }
    }

    pub fn get(&self) -> (r: String)
        ensures
            r@ == self@,
    {
        self._state.clone()
    }

    /// A state that holds the same document.
    pub fn duplicate(&self) -> (r: Self)
        ensures
            r@ == self@,
    {
        Self { _state: self._state.clone() }
    }

    pub fn set(&mut self, value: String)
        ensures
            final(self)@ == value@,
    {
        self._state = value;
    }
}

impl Default for ComponentState {
    fn default() -> (r: Self)
        ensures
            r@ == "null"@,
    {
        Self::new()
    }
}

/// A key of the keyboard. The keys that the engine's own components read have
/// a name; every other key is told apart by its code.
#[derive(Debug, PartialEq, Eq, Clone, Copy, Structural)]
pub enum Key {
    W,
    A,
    S,
    D,
    Left,
    Right,
    Space,
    Other(u32),
}

/// A button of the mouse.
#[derive(Debug, PartialEq, Eq, Clone, Copy, Structural)]
pub enum MouseButton {
    Left,
    Right,
    Middle,
    Other(u16),
}

/// What the input source holds at the start of a frame. Components read it;
/// none changes it.
#[derive(Clone, Debug)]
pub struct InputData {
    pub keys_pressed: Vec<Key>,
    pub mouse_buttons_pressed: Vec<MouseButton>,
    pub mouse_position: [i32; 2],
}

/// The shapes that the render backend can draw, each with its measures and
/// its colour.
#[derive(Clone, Copy, Debug, PartialEq)]
pub enum Primitives {
    Cube(i32, [i32; 3]),
    Triangle(i32, [i32; 3]),
    Hexagon(i32, [i32; 3]),
    Pentagon(i32, [i32; 3]),
    Octagon(i32, [i32; 3]),
    Line(Point, i32, i32, i32, [i32; 3]),
    RaycastLine(Point, i32, i32, i32, [i32; 3]),
}

impl Default for Primitives {
    fn default() -> (r: Self)
        ensures
            r == Primitives::Cube(0, [0i32, 0i32, 0i32]),
    {
        Primitives::Cube(0, [0, 0, 0])
    }
}

/// What a render tick hands to the render backend: the shape to draw, and
/// where its entity stood and how it was turned when the tick ran. The backend
/// makes the shape, moves it by `pos` and turns it by `rot` about the x, the
/// y and the z axis, in this order.
#[derive(Clone, Copy, Debug, PartialEq)]
pub struct RenderOutput {
    pub obj: Option<Primitives>,
    pub pos: Option<[i32; 3]>,
    pub rot: Option<[i32; 3]>,
}

/// Where an entity stands and how it is turned. Other components read it.
#[derive(Clone, Debug)]
pub struct Transform {
    pub state: ComponentState,
    pub pos: [i32; 3],
    pub rot: [i32; 3],
}

/// Moves its entity by the keys W, A, S, D and turns it by the arrow keys.
#[derive(Clone, Debug)]
pub struct CharacterController2D {
    pub moveamt: i32,
    pub state: ComponentState,
    pub rotamt: i32,
    pub bounds: Option<Bounds2D>,
}

/// A component that is ticked with the input and does nothing with it.
#[derive(Clone, Debug)]
pub struct InputComponent {
    pub name: String,
    pub state: ComponentState,
}

/// A component that asks the render backend for a shape in every frame.
#[derive(Clone, Debug)]
pub struct RenderComponent {
    pub name: String,
    pub state: ComponentState,
    pub obj: Primitives,
}

/// A component of a type that the host defines. The engine keeps its data and
/// its links to shared components; the host runs its behaviour.
#[derive(Clone, Debug)]
pub struct CustomComponent {
    pub kind_name: String,
    pub state: ComponentState,
    pub fields: String,
    pub links: Vec<LinkField>,
}

/// The component types, closed: a saved world names each by its variant.
#[derive(Clone, Debug)]
pub enum Component {
    Transform(Transform),
    CharacterController2D(CharacterController2D),
    Input(InputComponent),
    Render(RenderComponent),
    Custom(CustomComponent),
}

/// The tag that routes a tick: which of the three tick shapes a component has.
#[derive(Debug, PartialEq, Eq, Clone, Copy, Structural)]
pub enum TickVariant {
    Input,
    Render,
    Default,
}

/// A component together with its tick tag, as an entity holds it.
#[derive(Clone, Debug)]
pub struct ComponentWrapper {
    pub component: Component,
    pub ticker: TickVariant,
}

/// The mathematical model of a component.
pub enum ComponentView {
    Transform { state: Seq<char>, pos: [i32; 3], rot: [i32; 3] },
    CharacterController2D { moveamt: i32, state: Seq<char>, rotamt: i32, bounds: Option<Bounds2D> },
    Input { name: Seq<char>, state: Seq<char> },
    Render { name: Seq<char>, state: Seq<char>, obj: Primitives },
    Custom { kind_name: Seq<char>, state: Seq<char>, fields: Seq<char>, links: Seq<LinkFieldView> },
}

/// The mathematical model of a component with its tick tag.
pub struct ComponentWrapperView {
    pub component: ComponentView,
    pub ticker: TickVariant,
}

/// The models of link fields, in their order.
pub open spec fn link_views(links: Seq<LinkField>) -> Seq<LinkFieldView> {
    links.map_values(|l: LinkField| l@)
}

impl View for Component {
    type V = ComponentView;

    open spec fn view(&self) -> ComponentView {
        match *self {
            Component::Transform(t) => ComponentView::Transform {
                state: t.state@,
                pos: t.pos,
                rot: t.rot,
            },
            Component::CharacterController2D(c) => ComponentView::CharacterController2D {
                moveamt: c.moveamt,
                state: c.state@,
                rotamt: c.rotamt,
                bounds: c.bounds,
            },
            Component::Input(c) => ComponentView::Input { name: c.name@, state: c.state@ },
            Component::Render(c) => ComponentView::Render {
                name: c.name@,
                state: c.state@,
                obj: c.obj,
            },
            Component::Custom(c) => ComponentView::Custom {
                kind_name: c.kind_name@,
                state: c.state@,
                fields: c.fields@,
                links: link_views(c.links@),
            },
        }
    }
}

impl View for ComponentWrapper {
    type V = ComponentWrapperView;

    open spec fn view(&self) -> ComponentWrapperView {
        ComponentWrapperView { component: self.component@, ticker: self.ticker }
    }
}

/// The models of components, in their order.
pub open spec fn component_views(components: Seq<ComponentWrapper>) -> Seq<ComponentWrapperView> {
    components.map_values(|c: ComponentWrapper| c@)
}

/// A type of component, as lookups name it.
#[derive(Clone, Debug)]
pub enum ComponentKind {
    Transform,
    CharacterController2D,
    InputComponent,
    RenderComponent,
    Custom(String),
}

/// The model of a component kind.
pub enum ComponentKindView {
    Transform,
    CharacterController2D,
    InputComponent,
    RenderComponent,
    Custom(Seq<char>),
}

impl View for ComponentKind {
    type V = ComponentKindView;

    open spec fn view(&self) -> ComponentKindView {
        match *self {
            ComponentKind::Transform => ComponentKindView::Transform,
            ComponentKind::CharacterController2D => ComponentKindView::CharacterController2D,
            ComponentKind::InputComponent => ComponentKindView::InputComponent,
            ComponentKind::RenderComponent => ComponentKindView::RenderComponent,
            ComponentKind::Custom(n) => ComponentKindView::Custom(n@),
        }
    }
}

impl ComponentView {
    /// The kind of this component.
    pub open spec fn kind(self) -> ComponentKindView {
        match self {
            ComponentView::Transform { .. } => ComponentKindView::Transform,
            ComponentView::CharacterController2D { .. } => ComponentKindView::CharacterController2D,
            ComponentView::Input { .. } => ComponentKindView::InputComponent,
            ComponentView::Render { .. } => ComponentKindView::RenderComponent,
            ComponentView::Custom { kind_name, .. } => ComponentKindView::Custom(kind_name),
        }
    }

    /// The name under which a saved world lists this component's type.
    pub open spec fn kind_name(self) -> Seq<char> {
        match self {
            ComponentView::Transform { .. } => "Transform"@,
            ComponentView::CharacterController2D { .. } => "CharacterController2D"@,
            ComponentView::Input { .. } => "InputComponent"@,
            ComponentView::Render { .. } => "RenderComponent"@,
            ComponentView::Custom { kind_name, .. } => kind_name,
        }
    }
}

impl ComponentView {
    /// The links that the component holds. Only a host-defined component
    /// holds any.
    pub open spec fn links(self) -> Seq<LinkFieldView> {
        match self {
            ComponentView::Custom { links, .. } => links,
            _ => Seq::empty(),
        }
    }

    /// The component with other links in place of its own. A component that
    /// holds no links stays as it is.
    pub open spec fn with_links(self, links: Seq<LinkFieldView>) -> ComponentView {
        match self {
            ComponentView::Custom { kind_name, state, fields, .. } => ComponentView::Custom {
                kind_name,
                state,
                fields,
                links,
            },
            _ => self,
        }
    }
}

impl TickVariant {
    pub fn component_type(&self) -> (r: ComponentType)
        ensures
            r == match *self {
                TickVariant::Input => ComponentType::Input,
                TickVariant::Render => ComponentType::Render,
                TickVariant::Default => ComponentType::Default,
            },
    {
        match self {
            TickVariant::Input => ComponentType::Input,
            TickVariant::Render => ComponentType::Render,
            TickVariant::Default => ComponentType::Default,
        }
    }
}

impl Component {
    /// Whether this component is of the given kind.
    pub fn is_kind(&self, kind: &ComponentKind) -> (b: bool)
        ensures
            b == (self@.kind() == kind@),
    {
        match (self, kind) {
            (Component::Transform(_), ComponentKind::Transform) => true,
            (Component::CharacterController2D(_), ComponentKind::CharacterController2D) => true,
            (Component::Input(_), ComponentKind::InputComponent) => true,
            (Component::Render(_), ComponentKind::RenderComponent) => true,
            (Component::Custom(c), ComponentKind::Custom(n)) => c.kind_name == *n,
            _ => false,
        }
    }

    /// The kind of this component.
    pub fn kind(&self) -> (r: ComponentKind)
        ensures
            r@ == self@.kind(),
    {
        match self {
            Component::Transform(_) => ComponentKind::Transform,
            Component::CharacterController2D(_) => ComponentKind::CharacterController2D,
            Component::Input(_) => ComponentKind::InputComponent,
            Component::Render(_) => ComponentKind::RenderComponent,
            Component::Custom(c) => ComponentKind::Custom(c.kind_name.clone()),
        }
    }

    /// A component that holds what this one holds, with `links` in place of
    /// its links. A component that holds no links is copied as it is.
    pub fn with_links(&self, links: Vec<LinkField>) -> (r: Component)
        ensures
            r@ == self@.with_links(link_views(links@)),
    {
        match self {
            Component::Transform(t) => Component::Transform(
                Transform { state: t.state.duplicate(), pos: t.pos, rot: t.rot },
            ),
            Component::CharacterController2D(c) => Component::CharacterController2D(
                CharacterController2D {
                    moveamt: c.moveamt,
                    state: c.state.duplicate(),
                    rotamt: c.rotamt,
                    bounds: c.bounds,
                },
            ),
            Component::Input(c) => Component::Input(
                InputComponent { name: c.name.clone(), state: c.state.duplicate() },
            ),
            Component::Render(c) => Component::Render(
                RenderComponent { name: c.name.clone(), state: c.state.duplicate(), obj: c.obj },
            ),
            Component::Custom(c) => Component::Custom(
                CustomComponent {
                    kind_name: c.kind_name.clone(),
                    state: c.state.duplicate(),
                    fields: c.fields.clone(),
                    links,
                },
            ),
        }
    }

    /// The name under which a saved world lists this component's type.
    pub fn kind_name(&self) -> (r: String)
        ensures
            r@ == self@.kind_name(),
    {
        match self {
            Component::Transform(_) => "Transform".to_string(),
            Component::CharacterController2D(_) => "CharacterController2D".to_string(),
            Component::Input(_) => "InputComponent".to_string(),
            Component::Render(_) => "RenderComponent".to_string(),
            Component::Custom(c) => c.kind_name.clone(),
        }
    }
}

impl ComponentWrapper {
    pub fn new(component: Component, ticker: TickVariant) -> (r: Self)
        ensures
            r.component == component,
            r.ticker == ticker,
    {
        Self { component, ticker }
    }
}

/// A component with its tick tag.
pub fn create_component_wrapper(component: Component, tick_variant: TickVariant) -> (r:
    ComponentWrapper)
    ensures
        r.component == component,
        r.ticker == tick_variant,
{
    ComponentWrapper::new(component, tick_variant)
}

impl Transform {
    /// A transform at the origin, not turned, ticked as `Default`.
    pub fn new() -> (r: ComponentWrapper)
        ensures
            r@ == (ComponentWrapperView {
                component: ComponentView::Transform {
                    state: "null"@,
                    pos: [0i32, 0i32, 0i32],
                    rot: [0i32, 0i32, 0i32],
                },
                ticker: TickVariant::Default,
            }),
    {
        ComponentWrapper {
            component: Component::Transform(
                Transform { state: ComponentState::new(), pos: [0, 0, 0], rot: [0, 0, 0] },
            ),
            ticker: TickVariant::Default,
        }
    }
}

impl CharacterController2D {
    /// A controller that moves by a hundredth of a unit and turns by two
    /// degrees for each key, ticked as `Input`.
    pub fn new(bounds: Option<Bounds2D>) -> (r: ComponentWrapper)
        ensures
            r@ == (ComponentWrapperView {
                component: ComponentView::CharacterController2D {
                    moveamt: 10,
                    state: "null"@,
                    rotamt: 2000,
                    bounds,
                },
                ticker: TickVariant::Input,
            }),
    {
        ComponentWrapper {
            component: Component::CharacterController2D(
                CharacterController2D {
                    moveamt: 10,
                    rotamt: 2000,
                    state: ComponentState::new(),
                    bounds,
                },
            ),
            ticker: TickVariant::Input,
        }
    }
}

impl InputComponent {
    /// An input component of the given name, ticked as `Input`.
    pub fn new(name: String) -> (r: ComponentWrapper)
        ensures
            r@ == (ComponentWrapperView {
                component: ComponentView::Input { name: name@, state: "null"@ },
                ticker: TickVariant::Input,
            }),
    {
        ComponentWrapper {
            component: Component::Input(InputComponent { name, state: ComponentState::new() }),
            ticker: TickVariant::Input,
        }
    }
}

impl RenderComponent {
    /// A render component for the given shape, ticked as `Render`.
    pub fn new(obj: Primitives) -> (r: ComponentWrapper)
        ensures
            r@ == (ComponentWrapperView {
                component: ComponentView::Render {
                    name: "RenderComponent"@,
                    state: "null"@,
                    obj,
                },
                ticker: TickVariant::Render,
            }),
    {
        ComponentWrapper {
            component: Component::Render(
                RenderComponent {
                    name: "RenderComponent".to_string(),
                    state: ComponentState::new(),
                    obj,
                },
            ),
            ticker: TickVariant::Render,
        }
    }
}

impl CustomComponent {
    /// A component of a host-defined type with the given tick tag.
    pub fn new(kind_name: String, ticker: TickVariant, fields: String, links: Vec<LinkField>) -> (r:
        ComponentWrapper)
        ensures
            r@ == (ComponentWrapperView {
                component: ComponentView::Custom {
                    kind_name: kind_name@,
                    state: "null"@,
                    fields: fields@,
                    links: link_views(links@),
                },
                ticker,
            }),
    {
        ComponentWrapper {
            component: Component::Custom(
                CustomComponent { kind_name, state: ComponentState::new(), fields, links },
            ),
            ticker,
        }
    }
}

/// Where a controller has brought its entity: the position along x and y and
/// the turn about z.
pub struct Pose {
    pub x: int,
    pub y: int,
    pub turn: int,
}

/// The pose after one pressed key. W and S move along y, D and A along x, the
/// left and right arrows turn. A scalar that would leave its range stays at
/// the end of it.
pub open spec fn pose_after_key(p: Pose, key: Key, moveamt: int, rotamt: int) -> Pose {
    match key {
        Key::W => Pose { y: saturated(p.y + moveamt), ..p },
        Key::S => Pose { y: saturated(p.y - moveamt), ..p },
        Key::A => Pose { x: saturated(p.x - moveamt), ..p },
        Key::D => Pose { x: saturated(p.x + moveamt), ..p },
        Key::Left => Pose { turn: saturated(p.turn + rotamt), ..p },
        Key::Right => Pose { turn: saturated(p.turn - rotamt), ..p },
        _ => p,
    }
}

/// The pose after the pressed keys, taken in their order.
pub open spec fn pose_after_keys(p: Pose, keys: Seq<Key>, moveamt: int, rotamt: int) -> Pose
    decreases keys.len(),
{
    if keys.len() == 0 {
        p
    } else {
        pose_after_key(
            pose_after_keys(p, keys.drop_last(), moveamt, rotamt),
            keys.last(),
            moveamt,
            rotamt,
        )
    }
}

/// The pose brought within the bounds, where there are any.
pub open spec fn pose_within(p: Pose, bounds: Option<Bounds2D>) -> Pose {
    match bounds {
        Some(b) => Pose {
            x: saturated(clipped(b.x_limit(), p.x)),
            y: saturated(clipped(b.y_limit(), p.y)),
            ..p
        },
        None => p,
    }
}

/// The pose that one tick of a controller leaves.
pub open spec fn controlled_pose(
    p: Pose,
    keys: Seq<Key>,
    moveamt: int,
    rotamt: int,
    bounds: Option<Bounds2D>,
) -> Pose {
    pose_within(pose_after_keys(p, keys, moveamt, rotamt), bounds)
}

/// After a tick under bounds that are not negative the position lies within
/// them, whatever keys were pressed and wherever the entity stood before.
pub proof fn lemma_controller_keeps_bounds(
    p: Pose,
    keys: Seq<Key>,
    moveamt: int,
    rotamt: int,
    b: Bounds2D,
)
    requires
        b.x_limit() >= 0,
        b.y_limit() >= 0,
    ensures
        -b.x_limit() <= controlled_pose(p, keys, moveamt, rotamt, Some(b)).x <= b.x_limit(),
        -b.y_limit() <= controlled_pose(p, keys, moveamt, rotamt, Some(b)).y <= b.y_limit(),
{
}

/// Where a controller brings an entity that stands at `pos`, turned to `rot`.
pub open spec fn controlled_placement(
    pos: [i32; 3],
    rot: [i32; 3],
    keys: Seq<Key>,
    moveamt: i32,
    rotamt: i32,
    bounds: Option<Bounds2D>,
) -> ([i32; 3], [i32; 3]) {
    let p = controlled_pose(
        Pose { x: pos[0] as int, y: pos[1] as int, turn: rot[2] as int },
        keys,
        moveamt as int,
        rotamt as int,
        bounds,
    );
    ([p.x as i32, p.y as i32, pos[2]], [rot[0], rot[1], p.turn as i32])
}

/// The request of a render component for its shape, where its entity stands
/// and as it is turned. An entity without transform stands nowhere.
pub open spec fn render_request(obj: Primitives, placement: Option<([i32; 3], [i32; 3])>) -> RenderOutput {
    match placement {
        Some((pos, rot)) => RenderOutput { obj: Some(obj), pos: Some(pos), rot: Some(rot) },
        None => RenderOutput { obj: Some(obj), pos: None, rot: None },
    }
}

/// What the tick of a component asks of its entity.
#[derive(Clone, Copy, Debug, PartialEq)]
pub enum TickOutcome {
    /// Nothing.
    Nothing,
    /// To stand at the position and to be turned as given.
    Moved([i32; 3], [i32; 3]),
    /// To hand the request to the render backend.
    Render(RenderOutput),
    /// To let the host run the behaviour of the component.
    Host,
}

/// What the tick of a component asks, by the tag that routes it. Under
/// `Input` a controller moves its entity by the pressed keys, if there is
/// input and the entity has a transform. Under `Render` a render component
/// asks for its shape. A host-defined component is left to the host under
/// every tag. Every other pairing of tag and component asks nothing.
pub open spec fn tick_outcome(
    c: ComponentWrapperView,
    keys: Option<Seq<Key>>,
    placement: Option<([i32; 3], [i32; 3])>,
) -> TickOutcome {
    match c.component {
        ComponentView::CharacterController2D { moveamt, rotamt, bounds, .. } => {
            if c.ticker == TickVariant::Input && keys is Some && placement is Some {
                let at = placement->0;
                let to = controlled_placement(at.0, at.1, keys->0, moveamt, rotamt, bounds);
                TickOutcome::Moved(to.0, to.1)
            } else {
                TickOutcome::Nothing
            }
        },
        ComponentView::Render { obj, .. } => {
            if c.ticker == TickVariant::Render {
                TickOutcome::Render(render_request(obj, placement))
            } else {
                TickOutcome::Nothing
            }
        },
        ComponentView::Custom { .. } => TickOutcome::Host,
        _ => TickOutcome::Nothing,
    }
}

impl Transform {
    /// The tick of a transform. A transform holds data for others and does
    /// nothing of its own.
    pub fn tick(&self, dt: u64) -> (r: TickOutcome)
        ensures
            r == TickOutcome::Nothing,
    {
        TickOutcome::Nothing
    }
}

impl InputComponent {
    /// The tick of an input component, which does nothing with the input.
    pub fn tick_with_input(&self, input: &InputData, dt: u64) -> (r: TickOutcome)
        ensures
            r == TickOutcome::Nothing,
    {
        TickOutcome::Nothing
    }
}

impl RenderComponent {
    /// The tick of a render component: the request for its shape where the
    /// entity stands and as it is turned.
    pub fn render_tick(&self, placement: Option<([i32; 3], [i32; 3])>, dt: u64) -> (r:
        RenderOutput)
        ensures
            r == render_request(self.obj, placement),
    {
        match placement {
            Some((pos, rot)) => RenderOutput { obj: Some(self.obj), pos: Some(pos), rot: Some(rot) },
            None => RenderOutput { obj: Some(self.obj), pos: None, rot: None },
        }
    }
}

impl TickVariant {
    /// Routes a tick to the behaviour of the component that the tag says it
    /// has.
    pub fn tick(
        &self,
        component: &Component,
        input: Option<&InputData>,
        placement: Option<([i32; 3], [i32; 3])>,
        dt: u64,
    ) -> (r: TickOutcome)
        ensures
            r == tick_outcome(
                ComponentWrapperView { component: component@, ticker: *self },
                match input {
                    Some(i) => Some(i.keys_pressed@),
                    None => None,
                },
                placement,
            ),
    {
        match component {
            Component::Custom(_) => TickOutcome::Host,
            Component::CharacterController2D(c) => match self {
                TickVariant::Input => match input {
                    Some(input) => c.tick_with_input(input, placement, dt),
                    None => TickOutcome::Nothing,
                },
                _ => TickOutcome::Nothing,
            },
            Component::Input(c) => match self {
                TickVariant::Input => match input {
                    Some(input) => c.tick_with_input(input, dt),
                    None => TickOutcome::Nothing,
                },
                _ => TickOutcome::Nothing,
            },
            Component::Render(c) => match self {
                TickVariant::Render => TickOutcome::Render(c.render_tick(placement, dt)),
                _ => TickOutcome::Nothing,
            },
            Component::Transform(c) => match self {
                TickVariant::Default => c.tick(dt),
                _ => TickOutcome::Nothing,
            },
        }
    }
}

impl ComponentWrapper {
    /// The tick of the component, routed by its tag.
    pub fn tick(
        &self,
        input: Option<&InputData>,
        placement: Option<([i32; 3], [i32; 3])>,
        dt: u64,
    ) -> (r: TickOutcome)
        ensures
            r == tick_outcome(
                self@,
                match input {
                    Some(i) => Some(i.keys_pressed@),
                    None => None,
                },
                placement,
            ),
    {
        self.ticker.tick(&self.component, input, placement, dt)
    }
}

impl CharacterController2D {
    /// The tick of a controller: where the pressed keys bring an entity that
    /// has a transform.
    pub fn tick_with_input(
        &self,
        input: &InputData,
        placement: Option<([i32; 3], [i32; 3])>,
        dt: u64,
    ) -> (r: TickOutcome)
        ensures
            r == match placement {
                Some((pos, rot)) => {
                    let to = controlled_placement(
                        pos,
                        rot,
                        input.keys_pressed@,
                        self.moveamt,
                        self.rotamt,
                        self.bounds,
                    );
                    TickOutcome::Moved(to.0, to.1)
                },
                None => TickOutcome::Nothing,
            },
    {
        match placement {
            Some((pos, rot)) => {
                let to = self.moved(input, pos, rot);
                TickOutcome::Moved(to.0, to.1)
            },
            None => TickOutcome::Nothing,
        }
    }

    /// The position and the turn that one tick of this controller makes of
    /// `pos` and `rot` under the pressed keys.
    pub fn moved(&self, input: &InputData, pos: [i32; 3], rot: [i32; 3]) -> (r: ([i32; 3], [i32; 3]))
        ensures
            r == controlled_placement(
                pos,
                rot,
                input.keys_pressed@,
                self.moveamt,
                self.rotamt,
                self.bounds,
            ),
    {
        let mut x: i32 = pos[0];
        let mut y: i32 = pos[1];
        let mut turn: i32 = rot[2];
        let ghost start = Pose { x: pos[0] as int, y: pos[1] as int, turn: rot[2] as int };
        let keys = &input.keys_pressed;
        let mut i: usize = 0;
        assert(keys@.take(0) =~= Seq::<Key>::empty());
        while i < keys.len()
            invariant
                i <= keys.len(),
                (Pose { x: x as int, y: y as int, turn: turn as int }) == pose_after_keys(
                    start,
                    keys@.take(i as int),
                    self.moveamt as int,
                    self.rotamt as int,
                ),
            decreases keys.len() - i,
        {
            assert(keys@.take(i + 1).drop_last() =~= keys@.take(i as int));
            match keys[i] {
                Key::W => {
                    y = add_saturating(y, self.moveamt);
                },
                Key::S => {
                    y = sub_saturating(y, self.moveamt);
                },
                Key::A => {
                    x = sub_saturating(x, self.moveamt);
                },
                Key::D => {
                    x = add_saturating(x, self.moveamt);
                },
                Key::Left => {
                    turn = add_saturating(turn, self.rotamt);
                },
                Key::Right => {
                    turn = sub_saturating(turn, self.rotamt);
                },
                _ => {},
            }
            i += 1;
        }
        assert(keys@.take(keys.len() as int) =~= keys@);
        match self.bounds {
            Some(b) => {
                let c = b.clip(x, y);
                x = c[0];
                y = c[1];
            },
            None => {},
        }
        ([x, y, pos[2]], [rot[0], rot[1], turn])
    }
}

} // verus!
