use oxidized::bounds::Bounds2D;
use oxidized::component::{
    create_component_wrapper, CharacterController2D, Component, ComponentKind, ComponentState,
    ComponentType, ComponentWrapper, CustomComponent, InputComponent, InputData, Key, Primitives,
    RenderComponent, RenderOutput, TickVariant, Transform,
};
use oxidized::gameobject::{
    add_component, make_base_game_object, reparent, retract, AddComponent, GameObject, HostTick,
    World,
};

fn input(keys: Vec<Key>) -> InputData {
    InputData { keys_pressed: keys, mouse_buttons_pressed: vec![], mouse_position: [0, 0] }
}

fn placement(world: &World, id: i32) -> ([i32; 3], [i32; 3]) {
    match &GameObject::find_by_id(world, id).unwrap().components()[0].component {
        Component::Transform(t) => (t.pos, t.rot),
        _ => panic!("no transform"),
    }
}

#[test]
fn state_starts_as_null() {
    let mut state = ComponentState::new();
    assert_eq!(state.get(), "null");
    state.set("{\"hp\":3}".to_string());
    assert_eq!(state.get(), "{\"hp\":3}");
    assert_eq!(state.duplicate().get(), "{\"hp\":3}");
    assert_eq!(ComponentState::default().get(), "null");
}

#[test]
fn tick_tags_name_their_type() {
    assert_eq!(TickVariant::Input.component_type(), ComponentType::Input);
    assert_eq!(TickVariant::Render.component_type(), ComponentType::Render);
    assert_eq!(TickVariant::Default.component_type(), ComponentType::Default);
}

#[test]
fn components_are_made_with_their_tags() {
    let t = Transform::new();
    assert_eq!(t.ticker, TickVariant::Default);
    assert_eq!(t.component.kind_name(), "Transform");
    match &t.component {
        Component::Transform(t) => {
            assert_eq!(t.pos, [0, 0, 0]);
            assert_eq!(t.rot, [0, 0, 0]);
            assert_eq!(t.state.get(), "null");
        }
        _ => panic!("not a transform"),
    }
    let c = CharacterController2D::new(Some(Bounds2D::new(2700, 2000)));
    assert_eq!(c.ticker, TickVariant::Input);
    assert_eq!(c.component.kind_name(), "CharacterController2D");
    match &c.component {
        Component::CharacterController2D(c) => {
            assert_eq!(c.moveamt, 10);
            assert_eq!(c.rotamt, 2000);
            assert_eq!(c.bounds, Some(Bounds2D::new(2700, 2000)));
        }
        _ => panic!("not a controller"),
    }
    let i = InputComponent::new("name".to_string());
    assert_eq!(i.ticker, TickVariant::Input);
    assert_eq!(i.component.kind_name(), "InputComponent");
    let r = RenderComponent::new(Primitives::Triangle(100, [0, 1000, 0]));
    assert_eq!(r.ticker, TickVariant::Render);
    assert_eq!(r.component.kind_name(), "RenderComponent");
    let u = CustomComponent::new("Shoot".to_string(), TickVariant::Input, "{}".to_string(), vec![]);
    assert_eq!(u.ticker, TickVariant::Input);
    assert_eq!(u.component.kind_name(), "Shoot");
    assert!(u.component.is_kind(&ComponentKind::Custom("Shoot".to_string())));
    assert!(!u.component.is_kind(&ComponentKind::Custom("Other".to_string())));
    assert!(!u.component.is_kind(&ComponentKind::Transform));
    assert!(t.component.is_kind(&ComponentKind::Transform));
    let w = create_component_wrapper(
        Component::Input(oxidized::component::InputComponent {
            name: "x".to_string(),
            state: ComponentState::new(),
        }),
        TickVariant::Default,
    );
    assert_eq!(w.ticker, TickVariant::Default);
    let w2 = ComponentWrapper::new(w.component, TickVariant::Render);
    assert_eq!(w2.ticker, TickVariant::Render);
    assert_eq!(Primitives::default(), Primitives::Cube(0, [0, 0, 0]));
}

#[test]
fn controller_moves_by_its_keys() {
    let c = match CharacterController2D::new(None).component {
        Component::CharacterController2D(c) => c,
        _ => panic!("not a controller"),
    };
    let (pos, rot) = c.moved(&input(vec![Key::W, Key::D, Key::Left]), [0, 0, 7], [1, 2, 3]);
    assert_eq!(pos, [10, 10, 7]);
    assert_eq!(rot, [1, 2, 2003]);
    let (pos, rot) = c.moved(&input(vec![Key::S, Key::A, Key::Right, Key::Space, Key::Other(9)]), [0, 0, 0], [0, 0, 0]);
    assert_eq!(pos, [-10, -10, 0]);
    assert_eq!(rot, [0, 0, -2000]);
    let (pos, _) = c.moved(&input(vec![Key::D, Key::D, Key::D]), [i32::MAX - 15, 0, 0], [0, 0, 0]);
    assert_eq!(pos, [i32::MAX, 0, 0]);
    let (pos, rot) = c.moved(&input(vec![]), [4, 5, 6], [7, 8, 9]);
    assert_eq!(pos, [4, 5, 6]);
    assert_eq!(rot, [7, 8, 9]);
}

#[test]
fn controller_stays_within_its_bounds() {
    let mut world = World::new();
    let ship = make_base_game_object(&mut world, "ship".to_string());
    assert_eq!(
        add_component(&mut world, ship, CharacterController2D::new(Some(Bounds2D::new(2700, 2000)))),
        AddComponent::Added
    );
    let mut queue: Vec<RenderOutput> = Vec::new();
    let right_up = input(vec![Key::D, Key::W]);
    for _ in 0..1000 {
        world.tick_self(ship, &right_up, 16, &mut queue);
        let (pos, _) = placement(&world, ship);
        assert!(pos[0].abs() <= 2700);
        assert!(pos[1].abs() <= 2000);
    }
    assert_eq!(placement(&world, ship).0, [2700, 2000, 0]);
    let left_down = input(vec![Key::A, Key::S, Key::A]);
    for _ in 0..1000 {
        world.tick_self(ship, &left_down, 16, &mut queue);
        let (pos, _) = placement(&world, ship);
        assert!(pos[0].abs() <= 2700);
        assert!(pos[1].abs() <= 2000);
    }
    assert_eq!(placement(&world, ship).0, [-2700, -2000, 0]);
    world.tick_self(ship, &input(vec![Key::D]), 16, &mut queue);
    assert_eq!(placement(&world, ship).0, [-2690, -2000, 0]);
    assert!(queue.is_empty());
}

#[test]
fn render_tick_asks_for_the_shape_where_the_entity_stands() {
    let mut world = World::new();
    let ship = make_base_game_object(&mut world, "ship".to_string());
    world.add_component(ship, CharacterController2D::new(None));
    world.add_component(ship, RenderComponent::new(Primitives::Triangle(100, [0, 1000, 0])));
    world.add_component(
        ship,
        CustomComponent::new("Shoot".to_string(), TickVariant::Input, "{}".to_string(), vec![]),
    );
    let mut queue = vec![RenderOutput { obj: None, pos: None, rot: None }];
    let pending = world.tick_self(ship, &input(vec![Key::D, Key::Left]), 16, &mut queue);
    assert_eq!(pending, vec![3]);
    assert_eq!(queue.len(), 2);
    assert_eq!(
        queue[1],
        RenderOutput {
            obj: Some(Primitives::Triangle(100, [0, 1000, 0])),
            pos: Some([10, 0, 0]),
            rot: Some([0, 0, 2000]),
        }
    );
    assert_eq!(GameObject::find_by_id(&world, ship).unwrap().render_references, vec![1]);
    world.set_active(ship, false);
    let pending = world.tick_self(ship, &input(vec![]), 16, &mut queue);
    assert_eq!(pending, vec![3]);
    assert_eq!(queue, vec![RenderOutput { obj: None, pos: None, rot: None }]);
    assert_eq!(GameObject::find_by_id(&world, ship).unwrap().render_references, Vec::<usize>::new());
}

#[test]
fn requests_are_taken_out_at_their_places() {
    let at = |n: i32| RenderOutput { obj: None, pos: Some([n, 0, 0]), rot: None };
    let mut queue = vec![at(0), at(1), at(2), at(3)];
    retract(&mut queue, &vec![2, 0, 7, 2]);
    assert_eq!(queue, vec![at(1), at(3)]);
    retract(&mut queue, &vec![]);
    assert_eq!(queue, vec![at(1), at(3)]);
    retract(&mut queue, &vec![1, 0]);
    assert_eq!(queue, Vec::new());
}

#[test]
fn render_tick_without_transform_gives_no_place() {
    let mut world = World::new();
    let bare = GameObject::new(
        &mut world,
        "bare".to_string(),
        vec![RenderComponent::new(Primitives::Cube(5, [1, 2, 3])), CharacterController2D::new(None)],
        oxidized::gameobject::GameObjectState::new(true, None, vec![]),
    );
    let mut queue = Vec::new();
    world.tick_self(bare, &input(vec![Key::W]), 0, &mut queue);
    assert_eq!(queue, vec![RenderOutput { obj: Some(Primitives::Cube(5, [1, 2, 3])), pos: None, rot: None }]);
}

#[test]
fn a_parent_ticks_before_what_hangs_below_it() {
    let mut world = World::new();
    let mut ids = Vec::new();
    for (name, size) in [("child", 2), ("root", 1), ("grandchild", 3), ("other", 4), ("second", 5)] {
        let id = make_base_game_object(&mut world, name.to_string());
        world.add_component(id, RenderComponent::new(Primitives::Cube(size, [0, 0, 0])));
        world.add_component(
            id,
            CustomComponent::new("Host".to_string(), TickVariant::Default, "{}".to_string(), vec![]),
        );
        ids.push(id);
    }
    let (child, root, grandchild, other, second) = (ids[0], ids[1], ids[2], ids[3], ids[4]);
    reparent(&mut world, root, child);
    reparent(&mut world, root, second);
    reparent(&mut world, child, grandchild);
    let mut queue = Vec::new();
    let mut host = Vec::new();
    for id in [child, root, grandchild, other, second] {
        let is_root = GameObject::find_by_id(&world, id).unwrap().state.parent_id.is_none();
        if is_root {
            world.tick_all(id, 5, &input(vec![]), 16, &mut queue, &mut host);
        }
    }
    let sizes: Vec<i32> = queue
        .iter()
        .map(|o| match o.obj {
            Some(Primitives::Cube(size, _)) => size,
            _ => 0,
        })
        .collect();
    assert_eq!(sizes, vec![1, 2, 3, 5, 4]);
    assert_eq!(
        host,
        vec![
            HostTick { object: root, component: 2 },
            HostTick { object: child, component: 2 },
            HostTick { object: grandchild, component: 2 },
            HostTick { object: second, component: 2 },
            HostTick { object: other, component: 2 },
        ]
    );
    let mut shallow = Vec::new();
    world.tick_all(root, 2, &input(vec![]), 16, &mut shallow, &mut host);
    assert_eq!(shallow.len(), 3);
    let mut none = Vec::new();
    world.tick_all(root, 0, &input(vec![]), 16, &mut none, &mut host);
    assert!(none.is_empty());
    GameObject::destroy(&mut world, child);
    let mut after = Vec::new();
    world.tick_all(root, 5, &input(vec![]), 16, &mut after, &mut host);
    assert_eq!(after.len(), 2);
    world.tick_all(child, 5, &input(vec![]), 16, &mut after, &mut host);
    assert_eq!(after.len(), 2);
}

#[test]
fn a_tick_is_routed_by_its_tag() {
    let here = Some(([1, 2, 3], [4, 5, 6]));
    let keys = input(vec![Key::W]);
    let controller = CharacterController2D::new(None);
    assert_eq!(
        controller.tick(Some(&keys), here, 16),
        oxidized::component::TickOutcome::Moved([1, 12, 3], [4, 5, 6])
    );
    assert_eq!(controller.tick(None, here, 16), oxidized::component::TickOutcome::Nothing);
    assert_eq!(controller.tick(Some(&keys), None, 16), oxidized::component::TickOutcome::Nothing);
    assert_eq!(
        TickVariant::Default.tick(&controller.component, Some(&keys), here, 16),
        oxidized::component::TickOutcome::Nothing
    );
    let render = RenderComponent::new(Primitives::Cube(5, [1, 2, 3]));
    let request = RenderOutput { obj: Some(Primitives::Cube(5, [1, 2, 3])), pos: Some([1, 2, 3]), rot: Some([4, 5, 6]) };
    assert_eq!(render.tick(None, here, 16), oxidized::component::TickOutcome::Render(request));
    assert_eq!(
        TickVariant::Input.tick(&render.component, Some(&keys), here, 16),
        oxidized::component::TickOutcome::Nothing
    );
    match &render.component {
        Component::Render(r) => {
            assert_eq!(r.render_tick(here, 0), request);
            assert_eq!(
                r.render_tick(None, 0),
                RenderOutput { obj: Some(Primitives::Cube(5, [1, 2, 3])), pos: None, rot: None }
            );
        }
        _ => panic!("not a render component"),
    }
    assert_eq!(Transform::new().tick(Some(&keys), here, 16), oxidized::component::TickOutcome::Nothing);
    assert_eq!(
        InputComponent::new("i".to_string()).tick(Some(&keys), here, 16),
        oxidized::component::TickOutcome::Nothing
    );
    let host = CustomComponent::new("Shoot".to_string(), TickVariant::Render, "{}".to_string(), vec![]);
    assert_eq!(host.tick(None, None, 0), oxidized::component::TickOutcome::Host);
    assert_eq!(
        TickVariant::Default.tick(&host.component, None, None, 0),
        oxidized::component::TickOutcome::Host
    );
    match &controller.component {
        Component::CharacterController2D(c) => {
            assert_eq!(
                c.tick_with_input(&keys, here, 0),
                oxidized::component::TickOutcome::Moved([1, 12, 3], [4, 5, 6])
            );
        }
        _ => panic!("not a controller"),
    }
}
