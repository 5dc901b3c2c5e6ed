//! The engine: the world with its tables, the render queue and the input of
//! the frame.

use crate::component::{InputData, Key, MouseButton, RenderOutput};
use crate::gameobject::{
    frame_after_tree, mark, sweep, without_places, Frame, GameObject, GameObjectView, HostTick,
    World, WorldView,
};
use crate::save::EngineSaveData;
use crate::static_component::StaticComponentView;
use crate::physics::PhysicsEngine;
use crate::registry::{Registry, RegistryView};
use crate::ui::{UIElement, UIRenderer};
use vstd::prelude::*;

verus! {

/// What the window and the input devices tell the engine.
#[derive(Clone, Copy, Debug, PartialEq)]
pub enum AppEvent {
    KeyPressed(Key),
    KeyReleased(Key),
    MouseInput(MouseButton),
    MouseRelease(MouseButton),
    MouseMoved([i32; 2]),
    Resized([u32; 2]),
    ScaleFactorChanged([u32; 2]),
    RedrawRequested,
    RedrawEventsCleared,
    Closed,
}

/// The entities and the static components that the engine ticks.
#[derive(Debug)]
pub struct EngineState {
    objects: Vec<i32>,
    static_components: Vec<usize>,
}

/// The model of an `EngineState`.
pub struct EngineStateView {
    pub objects: Seq<i32>,
    pub static_components: Seq<usize>,
}

impl View for EngineState {
    type V = EngineStateView;

    closed spec fn view(&self) -> EngineStateView {
        EngineStateView { objects: self.objects@, static_components: self.static_components@ }
    }
}

impl EngineState {
    pub fn new() -> (r: Self)
        ensures
            r@.objects == Seq::<i32>::empty(),
            r@.static_components == Seq::<usize>::empty(),
    {
        Self { objects: Vec::new(), static_components: Vec::new() }
    }

    pub fn objects(&self) -> (r: Vec<i32>)
        ensures
            r@ == self@.objects,
    {
        self.objects.clone()
    }

    /// The handles of the static components, in the order in which they were
    /// added.
    pub fn static_components(&self) -> (r: Vec<usize>)
        ensures
            r@ == self@.static_components,
    {
        self.static_components.clone()
    }

    pub fn add_object(&mut self, obj: i32)
        ensures
            final(self)@ == (EngineStateView {
                objects: old(self)@.objects.push(obj),
                ..old(self)@
            }),
    {
        self.objects.push(obj);
    }

    pub fn add_static(&mut self, obj: usize)
        ensures
            final(self)@ == (EngineStateView {
                static_components: old(self)@.static_components.push(obj),
                ..old(self)@
            }),
    {
        self.static_components.push(obj);
    }
}

/// The time that the last frame took.
#[derive(Clone, Copy, Debug)]
pub struct FrameData {
    pub dt: Option<u64>,
}

/// The engine.
pub struct Engine {
    pub state: EngineState,
    pub world: World,
    pub registry: Registry,
    pub render_queue: Vec<RenderOutput>,
    pub ui_handler: UIRenderer,
    pub graphics: bool,
    pub dt: Option<u64>,
    pub keys_pressed: Vec<Key>,
    pub mouse_buttons_pressed: Vec<MouseButton>,
    pub mouse_position: [i32; 2],
    pub physics_engine: PhysicsEngine,
    pub paused: bool,
}

/// The mathematical model of the engine.
pub struct EngineView {
    pub state: EngineStateView,
    pub world: WorldView,
    pub registry: RegistryView,
    pub render_queue: Seq<RenderOutput>,
    pub ui: Seq<UIElement>,
    pub graphics: bool,
    pub dt: Option<u64>,
    pub keys_pressed: Seq<Key>,
    pub mouse_buttons_pressed: Seq<MouseButton>,
    pub mouse_position: [i32; 2],
    pub physics_objects: Seq<i32>,
    pub friction: i32,
    pub paused: bool,
}

impl View for Engine {
    type V = EngineView;

    open spec fn view(&self) -> EngineView {
        EngineView {
            state: self.state@,
            world: self.world@,
            registry: self.registry@,
            render_queue: self.render_queue@,
            ui: self.ui_handler@,
            graphics: self.graphics,
            dt: self.dt,
            keys_pressed: self.keys_pressed@,
            mouse_buttons_pressed: self.mouse_buttons_pressed@,
            mouse_position: self.mouse_position,
            physics_objects: self.physics_engine.game_objects@,
            friction: self.physics_engine.friction,
            paused: self.paused,
        }
    }
}

/// Whether a key is another than `key`.
pub open spec fn other_key(key: Key) -> spec_fn(Key) -> bool {
    |k: Key| k != key
}

/// Whether a button is another than `button`.
pub open spec fn other_button(button: MouseButton) -> spec_fn(MouseButton) -> bool {
    |b: MouseButton| b != button
}

/// The keys without `key`.
pub open spec fn without_key(keys: Seq<Key>, key: Key) -> Seq<Key> {
    keys.filter(other_key(key))
}

/// The buttons without `button`.
pub open spec fn without_button(buttons: Seq<MouseButton>, button: MouseButton) -> Seq<MouseButton> {
    buttons.filter(other_button(button))
}

impl EngineView {
    /// The engine after it was told of an event. A pressed key or button joins
    /// those that are held unless it is among them; a released one leaves
    /// them; a move of the mouse is noted. Every other event changes nothing.
    pub open spec fn after_event(self, event: AppEvent) -> EngineView {
        match event {
            AppEvent::KeyPressed(key) => if self.keys_pressed.contains(key) {
                self
            } else {
                EngineView { keys_pressed: self.keys_pressed.push(key), ..self }
            },
            AppEvent::KeyReleased(key) => EngineView {
                keys_pressed: without_key(self.keys_pressed, key),
                ..self
            },
            AppEvent::MouseInput(button) => if self.mouse_buttons_pressed.contains(button) {
                self
            } else {
                EngineView {
                    mouse_buttons_pressed: self.mouse_buttons_pressed.push(button),
                    ..self
                }
            },
            AppEvent::MouseRelease(button) => EngineView {
                mouse_buttons_pressed: without_button(self.mouse_buttons_pressed, button),
                ..self
            },
            AppEvent::MouseMoved(position) => EngineView { mouse_position: position, ..self },
            _ => self,
        }
    }
}

/// The world after the first `n` of the listed entities gave up their notes
/// about the render queue, and the places that they had noted, in the order
/// in which they were given up. An entity that a lookup does not find keeps
/// what it has.
pub open spec fn after_retracting(w: WorldView, objects: Seq<i32>, n: int) -> (WorldView, Seq<usize>)
    decreases n,
{
    if n <= 0 {
        (w, Seq::empty())
    } else {
        let before = after_retracting(w, objects, n - 1);
        let id = objects[n - 1];
        match before.0.find(id) {
            Some(o) => (
                before.0.with_object(id, GameObjectView { render_references: Seq::empty(), ..o }),
                before.1 + o.render_references,
            ),
            None => before,
        }
    }
}

/// The frame after the roots among the first `n` of the listed entities were
/// ticked, each with what is below it. A root is an entity without parent
/// that a lookup finds.
pub open spec fn after_roots(f: Frame, objects: Seq<i32>, n: int, depth: nat, keys: Seq<Key>) -> Frame
    decreases n,
{
    if n <= 0 {
        f
    } else {
        let before = after_roots(f, objects, n - 1, depth, keys);
        let id = objects[n - 1];
        match before.world.find(id) {
            Some(o) => if o.state.parent_id is None {
                frame_after_tree(before, id, depth, keys)
            } else {
                before
            },
            None => before,
        }
    }
}

impl EngineView {
    /// The engine after a tick, and the ticks that are left to the host. A
    /// paused engine does nothing. Otherwise the elements of the user
    /// interface are dropped; every listed entity gives up its places in the
    /// render queue, and the requests at these places leave the queue; and
    /// the roots are ticked in the order of the engine's list, each with what
    /// is below it.
    pub open spec fn ticked(self) -> (EngineView, Seq<HostTick>) {
        if self.paused {
            (self, Seq::empty())
        } else {
            let retracted = after_retracting(
                self.world,
                self.state.objects,
                self.state.objects.len() as int,
            );
            let cleared = (
                retracted.0,
                without_places(self.render_queue, retracted.1, self.render_queue.len() as int),
            );
            let frame = after_roots(
                Frame { world: cleared.0, queue: cleared.1, host: Seq::empty() },
                self.state.objects,
                self.state.objects.len() as int,
                cleared.0.objects.len(),
                self.keys_pressed,
            );
            (
                EngineView {
                    world: frame.world,
                    render_queue: frame.queue,
                    ui: Seq::empty(),
                    ..self
                },
                frame.host,
            )
        }
    }
}

fn keys_without(keys: &Vec<Key>, key: Key) -> (r: Vec<Key>)
    ensures
        r@ == without_key(keys@, key),
{
    let mut r: Vec<Key> = Vec::new();
    let mut i: usize = 0;
    let ghost keep = other_key(key);
    assert(keys@.take(0) =~= Seq::<Key>::empty());
    while i < keys.len()
        invariant
            i <= keys.len(),
            keep == other_key(key),
            r@ == keys@.take(i as int).filter(keep),
        decreases keys.len() - i,
    {
        proof {
            reveal(Seq::filter);
            assert(keys@.take(i + 1).drop_last() =~= keys@.take(i as int));
        }
        if keys[i] != key {
            r.push(keys[i]);
        }
        i += 1;
    }
    assert(keys@.take(keys.len() as int) =~= keys@);
    r
}

fn buttons_without(buttons: &Vec<MouseButton>, button: MouseButton) -> (r: Vec<MouseButton>)
    ensures
        r@ == without_button(buttons@, button),
{
    let mut r: Vec<MouseButton> = Vec::new();
    let mut i: usize = 0;
    let ghost keep = other_button(button);
    assert(buttons@.take(0) =~= Seq::<MouseButton>::empty());
    while i < buttons.len()
        invariant
            i <= buttons.len(),
            keep == other_button(button),
            r@ == buttons@.take(i as int).filter(keep),
        decreases buttons.len() - i,
    {
        proof {
            reveal(Seq::filter);
            assert(buttons@.take(i + 1).drop_last() =~= buttons@.take(i as int));
        }
        if buttons[i] != button {
            r.push(buttons[i]);
        }
        i += 1;
    }
    assert(buttons@.take(buttons.len() as int) =~= buttons@);
    r
}

fn holds_key(keys: &Vec<Key>, key: Key) -> (b: bool)
    ensures
        b == keys@.contains(key),
{
    let mut i: usize = 0;
    while i < keys.len()
        invariant
            i <= keys.len(),
            forall|j: int| 0 <= j < i ==> keys@[j] != key,
        decreases keys.len() - i,
    {
        if keys[i] == key {
            return true;
        }
        i += 1;
    }
    false
}

fn holds_button(buttons: &Vec<MouseButton>, button: MouseButton) -> (b: bool)
    ensures
        b == buttons@.contains(button),
{
    let mut i: usize = 0;
    while i < buttons.len()
        invariant
            i <= buttons.len(),
            forall|j: int| 0 <= j < i ==> buttons@[j] != button,
        decreases buttons.len() - i,
    {
        if buttons[i] == button {
            return true;
        }
        i += 1;
    }
    false
}

/// Every one of the handles is that of one of `n` shared components.
pub open spec fn are_handles(handles: Seq<usize>, n: nat) -> bool {
    forall|k: int| 0 <= k < handles.len() ==> (#[trigger] handles[k]) < n
}

impl Engine {
    /// The world and the tables of the engine are consistent, and the static
    /// components that the engine ticks are among the shared components.
    pub open spec fn wf(&self) -> bool {
        &&& self.world.wf()
        &&& self.registry.wf()
        &&& are_handles(self@.state.static_components, self@.registry.shared.len())
    }

    /// An engine with an empty world over the given tables.
    pub fn new(graphics: bool, registry: Registry) -> (r: Self)
        requires
            registry.wf(),
        ensures
            r.wf(),
            r@.registry == registry@,
            r@.graphics == graphics,
            r@.world.objects.len() == 0,
            r@.world.destroyed.len() == 0,
            r@.state.objects.len() == 0,
            r@.state.static_components.len() == 0,
            r@.render_queue.len() == 0,
            r@.ui.len() == 0,
            r@.keys_pressed.len() == 0,
            r@.mouse_buttons_pressed.len() == 0,
            r@.mouse_position == [0i32, 0i32],
            r@.physics_objects.len() == 0,
            r@.friction == 100,
            r@.dt is None,
            !r@.paused,
    {
        Engine {
            state: EngineState::new(),
            world: World::new(),
            registry,
            render_queue: Vec::new(),
            ui_handler: UIRenderer::new(),
            graphics,
            dt: None,
            keys_pressed: Vec::new(),
            mouse_buttons_pressed: Vec::new(),
            mouse_position: [0, 0],
            physics_engine: PhysicsEngine::new(100),
            paused: false,
        }
    }

    pub fn pause(&mut self)
        ensures
            final(self)@ == (EngineView { paused: true, ..old(self)@ }),
            old(self).wf() ==> final(self).wf(),
    {
        self.paused = true;
    }

    pub fn unpause(&mut self)
        ensures
            final(self)@ == (EngineView { paused: false, ..old(self)@ }),
            old(self).wf() ==> final(self).wf(),
    {
        self.paused = false;
    }

    pub fn state(&self) -> (r: &EngineState)
        ensures
            r@ == self@.state,
    {
        &self.state
    }

    /// Puts a request at the end of the render queue and returns its place.
    pub fn render(&mut self, data: RenderOutput) -> (reference: usize)
        ensures
            reference == old(self)@.render_queue.len(),
            final(self)@ == (EngineView {
                render_queue: old(self)@.render_queue.push(data),
                ..old(self)@
            }),
            old(self).wf() ==> final(self).wf(),
    {
        self.render_queue.push(data);
        self.render_queue.len() - 1
    }

    /// Puts a request of the entity `id` at the end of the render queue, as a
    /// render tick of the entity does: the entity notes the place, and the
    /// next tick of the engine takes the request out again. Nothing is done
    /// for an entity that is not active or that a lookup does not find.
    pub fn render_for(&mut self, id: i32, data: RenderOutput) -> (reference: Option<usize>)
        requires
            old(self).wf(),
        ensures
            final(self).wf(),
            match old(self)@.world.find(id) {
                Some(o) => if o.state.active {
                    &&& reference == Some(old(self)@.render_queue.len() as usize)
                    &&& final(self)@ == (EngineView {
                        render_queue: old(self)@.render_queue.push(data),
                        world: old(self)@.world.with_object(
                            id,
                            GameObjectView {
                                render_references: o.render_references.push(
                                    old(self)@.render_queue.len() as usize,
                                ),
                                ..o
                            },
                        ),
                        ..old(self)@
                    })
                } else {
                    reference is None && final(self)@ == old(self)@
                },
                None => reference is None && final(self)@ == old(self)@,
            },
    {
        let active = match GameObject::find_by_id(&self.world, id) {
            Some(o) => o.state.active,
            None => false,
        };
        if active {
            let reference: usize = self.render_queue.len();
            self.render_queue.push(data);
            self.world.note_render_reference(id, reference);
            Some(reference)
        } else {
            None
        }
    }

    /// Takes the request at the given place out of the render queue. The
    /// requests behind it move up by one.
    pub fn remove_from_render_queue(&mut self, reference: usize)
        requires
            reference < old(self)@.render_queue.len(),
        ensures
            final(self)@ == (EngineView {
                render_queue: old(self)@.render_queue.remove(reference as int),
                ..old(self)@
            }),
            old(self).wf() ==> final(self).wf(),
    {
        self.render_queue.remove(reference);
    }

    /// What the input source holds now.
    pub fn input_data(&self) -> (r: InputData)
        ensures
            r.keys_pressed@ == self@.keys_pressed,
            r.mouse_buttons_pressed@ == self@.mouse_buttons_pressed,
            r.mouse_position == self@.mouse_position,
    {
        InputData {
            keys_pressed: self.keys_pressed.clone(),
            mouse_buttons_pressed: self.mouse_buttons_pressed.clone(),
            mouse_position: self.mouse_position,
        }
    }

    /// Tells the engine of an event of the window or of an input device.
    pub fn handle_event(&mut self, event: AppEvent)
        ensures
            final(self)@ == old(self)@.after_event(event),
            old(self).wf() ==> final(self).wf(),
    {
        match event {
            AppEvent::KeyPressed(key) => {
                if !holds_key(&self.keys_pressed, key) {
                    self.keys_pressed.push(key);
                }
            },
            AppEvent::KeyReleased(key) => {
                self.keys_pressed = keys_without(&self.keys_pressed, key);
            },
            AppEvent::MouseInput(button) => {
                if !holds_button(&self.mouse_buttons_pressed, button) {
                    self.mouse_buttons_pressed.push(button);
                }
            },
            AppEvent::MouseRelease(button) => {
                self.mouse_buttons_pressed = buttons_without(&self.mouse_buttons_pressed, button);
            },
            AppEvent::MouseMoved(position) => {
                self.mouse_position = position;
            },
            _ => {},
        }
    }

    /// Tells the engine how long the last frame took.
    pub fn frame(&mut self, data: FrameData)
        ensures
            final(self)@ == (EngineView { dt: data.dt, ..old(self)@ }),
            old(self).wf() ==> final(self).wf(),
    {
        self.dt = data.dt;
    }

    /// Puts an entity of the world under the engine: the engine ticks it and
    /// saves it from now on.
    pub fn add_object(&mut self, obj: i32) -> (id: i32)
        ensures
            id == obj,
            final(self)@ == (EngineView {
                state: EngineStateView {
                    objects: old(self)@.state.objects.push(obj),
                    ..old(self)@.state
                },
                physics_objects: old(self)@.physics_objects.push(obj),
                ..old(self)@
            }),
            old(self).wf() ==> final(self).wf(),
    {
        self.state.add_object(obj);
        self.physics_engine.add_object(obj);
        obj
    }

    /// Puts a shared component under the engine: the host ticks it in every
    /// frame, and the engine saves it.
    pub fn add_static(&mut self, comp: usize)
        requires
            comp < old(self)@.registry.shared.len(),
        ensures
            final(self)@ == (EngineView {
                state: EngineStateView {
                    static_components: old(self)@.state.static_components.push(comp),
                    ..old(self)@.state
                },
                ..old(self)@
            }),
            old(self).wf() ==> final(self).wf(),
    {
        self.state.add_static(comp);
    }

    /// Asks the render backend to show an element in this frame.
    pub fn add_ui_element(&mut self, element: UIElement)
        ensures
            final(self)@ == (EngineView { ui: old(self)@.ui.push(element), ..old(self)@ }),
            old(self).wf() ==> final(self).wf(),
    {
        self.ui_handler.queue(element);
    }
}

impl Engine {
    /// The saved form of the engine.
    pub fn export(&self) -> (r: EngineSaveData)
        requires
            self.wf(),
        ensures
            r@.is_saved(self@),
    {
        EngineSaveData::from_engine(self)
    }

    /// One tick of the engine. Returns the ticks of host-defined components,
    /// which the host has to run; the host also ticks the static components.
    pub fn tick(&mut self) -> (host: Vec<HostTick>)
        requires
            old(self).wf(),
        ensures
            final(self).wf(),
            (final(self)@, host@) == old(self)@.ticked(),
    {
        let mut host: Vec<HostTick> = Vec::new();
        if self.paused {
            return host;
        }
        self.ui_handler.clear();
        let objects = self.state.objects();
        let n: usize = objects.len();
        let ghost start = old(self)@;
        let mut marks: Vec<bool> = Vec::new();
        let mut q: usize = 0;
        while q < self.render_queue.len()
            invariant
                q <= self.render_queue.len(),
                marks@.len() == q,
                forall|i: int| 0 <= i < q ==> !marks@[i],
            decreases self.render_queue.len() - q,
        {
            marks.push(false);
            q += 1;
        }
        let mut m: usize = 0;
        while m < n
            invariant
                m <= n,
                n == objects.len(),
                objects@ == start.state.objects,
                self.wf(),
                start == old(self)@,
                self@.world == after_retracting(start.world, objects@, m as int).0,
                marks@.len() == start.render_queue.len(),
                forall|i: int|
                    0 <= i < marks@.len() ==> marks@[i] == after_retracting(
                        start.world,
                        objects@,
                        m as int,
                    ).1.contains(i as usize),
                self@ == (EngineView { world: self@.world, ui: Seq::empty(), ..start }),
            decreases n - m,
        {
            let id: i32 = objects[m];
            let refs = self.world.take_render_references(id);
            mark(&mut marks, &refs, Ghost(after_retracting(start.world, objects@, m as int).1));
            proof {
                if after_retracting(start.world, objects@, m as int).0.find(id) is None {
                    assert(after_retracting(start.world, objects@, m as int).1 + refs@
                        =~= after_retracting(start.world, objects@, m as int).1);
                }
            }
            m += 1;
        }
        self.render_queue = sweep(
            &self.render_queue,
            &marks,
            Ghost(after_retracting(start.world, objects@, n as int).1),
        );
        let input = self.input_data();
        let depth: usize = self.world.len();
        let dt: u64 = match self.dt {
            Some(dt) => dt,
            None => 0,
        };
        let ghost cleared = (self@.world, self@.render_queue);
        let ghost keys = start.keys_pressed;
        let mut i: usize = 0;
        while i < n
            invariant
                i <= n,
                n == objects.len(),
                objects@ == start.state.objects,
                self.wf(),
                depth == cleared.0.objects.len(),
                keys == input.keys_pressed@,
                keys == start.keys_pressed,
                (Frame { world: self@.world, queue: self@.render_queue, host: host@ })
                    == after_roots(
                    Frame { world: cleared.0, queue: cleared.1, host: Seq::empty() },
                    objects@,
                    i as int,
                    depth as nat,
                    keys,
                ),
                self@ == (EngineView {
                    world: self@.world,
                    render_queue: self@.render_queue,
                    ui: Seq::empty(),
                    ..start
                }),
            decreases n - i,
        {
            let id: i32 = objects[i];
            let root = match GameObject::find_by_id(&self.world, id) {
                Some(o) => o.state.parent_id.is_none(),
                None => false,
            };
            if root {
                self.world.tick_all(id, depth, &input, dt, &mut self.render_queue, &mut host);
            }
            i += 1;
        }
        host
    }

    /// Hands the data of the first static component of the given name to `f`
    /// and keeps what `f` returns in its place. Returns `None`, and calls
    /// nothing, where the engine ticks no static component of the name.
    pub fn get_static_closure<F: FnOnce(String) -> String>(&mut self, name: &String, f: F) -> (r:
        Option<()>)
        requires
            old(self).wf(),
            forall|fields: String| call_requires(f, (fields,)),
        ensures
            final(self).wf(),
            r is Some == (first_static(old(self)@, name@, 0) >= 0),
            r is None ==> final(self)@ == old(self)@,
            r is Some ==> exists|before: String, after: String|
                {
                    let k = first_static(old(self)@, name@, 0);
                    let handle = old(self)@.state.static_components[k];
                    let shared = old(self)@.registry.shared[handle as int];
                    &&& before@ == shared.fields
                    &&& #[trigger] call_ensures(f, (before,), after)
                    &&& final(self)@ == (EngineView {
                        registry: crate::registry::RegistryView {
                            shared: old(self)@.registry.shared.update(
                                handle as int,
                                StaticComponentView { fields: after@, ..shared },
                            ),
                            ..old(self)@.registry
                        },
                        ..old(self)@
                    })
                },
    {
        let handles = self.state.static_components();
        let mut k: usize = 0;
        while k < handles.len()
            invariant
                k <= handles.len(),
                self.wf(),
                self@ == old(self)@,
                handles@ == self@.state.static_components,
                first_static(self@, name@, 0) == first_static(self@, name@, k as int),
                forall|fields: String| call_requires(f, (fields,)),
            decreases handles.len() - k,
        {
            let handle: usize = handles[k];
            assert(self@.state.static_components[k as int] < self@.registry.shared.len());
            let found = match self.registry.shared(handle) {
                Some(s) => if s.name == *name {
                    Some(s.fields.clone())
                } else {
                    None
                },
                None => None,
            };
            match found {
                Some(before) => {
                    let ghost taken = before;
                    let after = f(before);
                    let ghost given = after;
                    self.registry.set_fields(handle, after);
                    assert(call_ensures(f, (taken,), given));
                    return Some(());
                },
                None => {},
            }
            k += 1;
        }
        None
    }
}

/// The place, in the engine's list, of the first static component of the
/// given name at or after `from`, or `-1` where there is none.
pub open spec fn first_static(e: EngineView, name: Seq<char>, from: int) -> int
    decreases e.state.static_components.len() - from,
{
    if from < 0 || from >= e.state.static_components.len() {
        -1
    } else if e.registry.shared[e.state.static_components[from] as int].name == name {
        from
    } else {
        first_static(e, name, from + 1)
    }
}

} // verus!
