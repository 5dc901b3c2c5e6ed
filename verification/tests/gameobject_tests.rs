use oxidized::collider::{Point, PointCollider};
use oxidized::component::{ComponentKind, InputComponent};
use oxidized::gameobject::{
    add_collider, add_component, colliding_point, colliding_with, has_component,
    make_base_game_object, reparent, AddComponent, GameObject, GameObjectState, World,
};

#[test]
fn test_game_object_creation() {
    let mut world = World::new();
    let name = "TestObject".to_string();
    let components = vec![];
    let state = GameObjectState::new(true, None, vec![]);
    let game_object = GameObject::new(&mut world, name.clone(), components, state);

    let game_object = GameObject::find_by_id(&world, game_object).unwrap();
    assert_eq!(game_object.name(), name);
    assert_eq!(game_object.state.active(), true);
}

#[test]
fn test_add_component() {
    let mut world = World::new();
    let name = "TestObject".to_string();
    let game_object = make_base_game_object(&mut world, name);

    let transform_component = InputComponent::new(String::from("name"));

    world.add_component(game_object, transform_component.clone());
    assert!(GameObject::find_by_id(&world, game_object)
        .unwrap()
        .has_component(&ComponentKind::InputComponent));

    let mut has = false;

    world.get_component_closure(game_object, &ComponentKind::InputComponent, |input| {
        has = true;
        input
    });
    assert!(has);
}

#[test]
fn test_reparent() {
    let mut world = World::new();
    let parent_name = "ParentObject".to_string();
    let child_name = "ChildObject".to_string();

    let parent_id = make_base_game_object(&mut world, parent_name);
    let child_id = make_base_game_object(&mut world, child_name);

    reparent(&mut world, parent_id, child_id);

    let child_object = GameObject::find_by_id(&world, child_id).unwrap();
    assert_eq!(child_object.state.parent_id, Some(parent_id));

    let parent_object = GameObject::find_by_id(&world, parent_id).unwrap();
    assert!(parent_object.state.child_ids.contains(&child_id));
}

#[test]
fn test_colliding_with() {
    let mut world = World::new();
    let name1 = "Object1".to_string();
    let name2 = "Object2".to_string();

    let id1 = make_base_game_object(&mut world, name1);
    let id2 = make_base_game_object(&mut world, name2);

    let collider1 = PointCollider::new(Point { x: 0, y: 0, z: 0 });
    let collider2 = PointCollider::new(Point { x: 0, y: 0, z: 0 });

    add_collider(&mut world, id1, collider1.clone());
    add_collider(&mut world, id2, collider2.clone());

    assert!(colliding_with(&world, id1, &collider2, Point { x: 0, y: 0, z: 0 }));
}

#[test]
fn test_colliding_point() {
    let mut world = World::new();
    let name = "Object".to_string();
    let id = make_base_game_object(&mut world, name);

    let collider = PointCollider::new(Point { x: 0, y: 0, z: 0 });

    add_collider(&mut world, id, collider.clone());
    assert!(colliding_point(&world, id, Point { x: 0, y: 0, z: 0 }));
}

#[test]
fn test_update_name() {
    let mut world = World::new();
    let name = "TestObject".to_string();
    let new_name = "UpdatedObject".to_string();
    let game_object = make_base_game_object(&mut world, name);

    world.update_name(game_object, new_name.clone());
    assert_eq!(GameObject::find_by_id(&world, game_object).unwrap().name(), &new_name);
}

#[test]
fn identifiers_count_up_from_zero() {
    let mut world = World::new();
    let a = make_base_game_object(&mut world, "a".to_string());
    let b = make_base_game_object(&mut world, "b".to_string());
    assert_eq!(a, 0);
    assert_eq!(b, 1);
    assert_eq!(world.len(), 2);
    assert_eq!(GameObject::find_by_id(&world, b).unwrap().id(), 1);
    assert!(GameObject::find_by_id(&world, 2).is_none());
    assert!(GameObject::find_by_id(&world, -1).is_none());
}

#[test]
fn destroyed_entity_is_not_found_and_its_handle_is_inert() {
    let mut world = World::new();
    let a = make_base_game_object(&mut world, "a".to_string());
    let b = make_base_game_object(&mut world, "b".to_string());
    add_collider(&mut world, a, PointCollider::new(Point { x: 0, y: 0, z: 0 }));
    GameObject::destroy(&mut world, a);
    assert!(world.is_destroyed(a));
    assert!(GameObject::find_by_id(&world, a).is_none());
    assert_eq!(GameObject::find_by_id(&world, b).unwrap().name(), "b");
    assert_eq!(world.len(), 2);
    assert!(!world.update_name(a, "again".to_string()));
    assert!(!add_collider(&mut world, a, PointCollider::new(Point { x: 1, y: 1, z: 1 })));
    assert!(!colliding_point(&world, a, Point { x: 0, y: 0, z: 0 }));
    assert!(!has_component(&world, a, &ComponentKind::Transform));
    assert_eq!(add_component(&mut world, a, InputComponent::new("i".to_string())), AddComponent::NoSuchObject);
}

#[test]
fn second_component_of_a_kind_is_refused() {
    let mut world = World::new();
    let a = make_base_game_object(&mut world, "a".to_string());
    assert!(has_component(&world, a, &ComponentKind::Transform));
    assert_eq!(
        add_component(&mut world, a, oxidized::component::Transform::new()),
        AddComponent::AlreadyPresent
    );
    assert_eq!(GameObject::find_by_id(&world, a).unwrap().components().len(), 1);
    assert_eq!(
        add_component(&mut world, a, InputComponent::new("i".to_string())),
        AddComponent::Added
    );
    assert_eq!(GameObject::find_by_id(&world, a).unwrap().components().len(), 2);
    assert_eq!(add_component(&mut world, 7, InputComponent::new("i".to_string())), AddComponent::NoSuchObject);
}

#[test]
fn reparent_twice_adds_the_child_once() {
    let mut world = World::new();
    let parent = make_base_game_object(&mut world, "p".to_string());
    let child = make_base_game_object(&mut world, "c".to_string());
    reparent(&mut world, parent, child);
    reparent(&mut world, parent, child);
    assert_eq!(GameObject::find_by_id(&world, parent).unwrap().state.child_ids(), vec![child]);
    reparent(&mut world, parent, parent);
    assert_eq!(GameObject::find_by_id(&world, parent).unwrap().state.parent_id, None);
    reparent(&mut world, parent, 9);
    assert_eq!(GameObject::find_by_id(&world, parent).unwrap().state.child_ids(), vec![child]);
    let state = &GameObject::find_by_id(&world, child).unwrap().state;
    assert_eq!(state.parent(&world).unwrap().id(), parent);
    GameObject::destroy(&mut world, child);
    let state = &GameObject::find_by_id(&world, parent).unwrap().state;
    assert_eq!(state.children(&world), Vec::<i32>::new());
    assert_eq!(state.child_ids(), vec![child]);
}

#[test]
fn entity_collides_where_its_transform_stands() {
    let mut world = World::new();
    let a = make_base_game_object(&mut world, "a".to_string());
    add_collider(&mut world, a, oxidized::collider::CubeCollider::new(1000));
    assert!(colliding_point(&world, a, Point { x: 500, y: 0, z: 0 }));
    assert!(!colliding_point(&world, a, Point { x: 5500, y: 0, z: 0 }));
    world.place(a, [5500, 0, 0], [0, 0, 0]);
    assert!(colliding_point(&world, a, Point { x: 5500, y: 0, z: 0 }));
    assert!(!colliding_point(&world, a, Point { x: 500, y: 0, z: 0 }));
    assert_eq!(GameObject::find_by_id(&world, a).unwrap().position(), Point { x: 5500, y: 0, z: 0 });
}

#[test]
fn lookups_by_kind_take_the_first() {
    let mut world = World::new();
    let a = make_base_game_object(&mut world, "a".to_string());
    world.add_component(a, InputComponent::new("first".to_string()));
    world.add_component(a, InputComponent::new("second".to_string()));
    let object = GameObject::find_by_id(&world, a).unwrap();
    assert_eq!(object.find_component(&ComponentKind::InputComponent), Some(1));
    assert_eq!(object.find_component(&ComponentKind::Transform), Some(0));
    assert_eq!(object.find_component(&ComponentKind::RenderComponent), None);
    assert_eq!(object.find_component(&ComponentKind::Custom("Shoot".to_string())), None);
    let mut seen = String::new();
    let r = world.get_component_closure(a, &ComponentKind::InputComponent, |c| {
        if let oxidized::component::Component::Input(i) = &c.component {
            seen = i.name.clone();
        }
        InputComponent::new("changed".to_string())
    });
    assert_eq!(r, Some(()));
    assert_eq!(seen, "first");
    let names: Vec<String> = GameObject::find_by_id(&world, a)
        .unwrap()
        .components()
        .iter()
        .map(|c| match &c.component {
            oxidized::component::Component::Input(i) => i.name.clone(),
            other => other.kind_name(),
        })
        .collect();
    assert_eq!(names, vec!["Transform", "changed", "second"]);
    let mut called = false;
    let r = world.get_component_closure(a, &ComponentKind::RenderComponent, |c| {
        called = true;
        c
    });
    assert_eq!(r, None);
    let r = world.get_component_closure(9, &ComponentKind::Transform, |c| {
        called = true;
        c
    });
    assert_eq!(r, None);
    assert!(!called);
}

#[test]
fn entry_of_a_destroyed_entity_stays_in_the_table() {
    let mut world = World::new();
    let a = make_base_game_object(&mut world, "a".to_string());
    GameObject::destroy(&mut world, a);
    assert_eq!(world._internal_to_object(a, |o| o.name().to_string()), Some("a".to_string()));
    assert_eq!(world._internal_to_object(1, |o| o.id()), None);
    assert_eq!(world._internal_to_object(-1, |o| o.id()), None);
}

#[test]
fn entity_is_made_with_what_it_is_given() {
    let mut world = World::new();
    let id = world.spawn(
        "made".to_string(),
        vec![InputComponent::new("i".to_string())],
        vec![PointCollider::new(Point { x: 1, y: 2, z: 3 })],
        GameObjectState::new(false, Some(4), vec![5, 6]),
    );
    let object = GameObject::find_by_id(&world, id).unwrap();
    assert_eq!(object.name, "made");
    assert_eq!(object.components().len(), 1);
    assert_eq!(object.colliders(), &vec![PointCollider::new(Point { x: 1, y: 2, z: 3 })]);
    assert!(!object.state.active());
    assert_eq!(object.state.parent_id, Some(4));
    assert_eq!(object.state.child_ids(), vec![5, 6]);
    assert!(object.render_references.is_empty());
    assert!(object.state.parent(&world).is_none());
    assert!(world.note_render_reference(id, 3));
    assert!(!world.note_render_reference(9, 3));
    assert_eq!(world.take_render_references(id), vec![3]);
    assert_eq!(world.take_render_references(id), Vec::<usize>::new());
    assert_eq!(world.take_render_references(9), Vec::<usize>::new());
}

#[test]
fn destroying_what_was_never_made_changes_nothing() {
    let mut world = World::new();
    GameObject::destroy(&mut world, 0);
    GameObject::destroy(&mut world, 3);
    GameObject::destroy(&mut world, -1);
    assert!(!world.is_destroyed(0));
    assert!(!world.is_destroyed(3));
    let first = make_base_game_object(&mut world, "first".to_string());
    assert_eq!(first, 0);
    assert_eq!(GameObject::find_by_id(&world, first).unwrap().name(), "first");
    for n in 1..4 {
        let id = make_base_game_object(&mut world, format!("entity {n}"));
        assert_eq!(id, n);
        assert!(GameObject::find_by_id(&world, id).is_some());
    }
    GameObject::destroy(&mut world, 3);
    assert!(world.is_destroyed(3));
    assert!(GameObject::find_by_id(&world, 3).is_none());
    GameObject::destroy(&mut world, 3);
    assert!(GameObject::find_by_id(&world, 2).is_some());
}
