use oxidized::collider::{
    Collider, CubeCollider, OctagonCollider, Point, PointCollider, RectangularPrismCollider,
};
use oxidized::component::{
    CharacterController2D, Component, CustomComponent, InputComponent, Primitives,
    RenderComponent, TickVariant,
};
use oxidized::gameobject::{add_collider, make_base_game_object, reparent, GameObject};
use oxidized::registry::{
    get_link, init, register_component, register_link, register_static_component, Registry,
};
use oxidized::save::{
    renamed, renamed_all, ColliderSaveData, ColliderType, ComponentSaveData, EngineSaveData, Link,
    LinkError, LinkField, StaticComponentSaveData,
};
use oxidized::state::Engine;
use oxidized::static_component::{Container, StaticComponent};

fn tables() -> Registry {
    let mut registry = Registry::new();
    init(&mut registry);
    register_component(&mut registry, "ShootComponent", TickVariant::Input);
    register_component(&mut registry, "BulletRenderer", TickVariant::Render);
    register_static_component(&mut registry, "Score");
    register_static_component(&mut registry, "Spawner");
    registry
}

fn score() -> StaticComponent {
    StaticComponent {
        name: "Score".to_string(),
        fields: "{\"over\":false,\"score\":3}".to_string(),
        links: vec![],
    }
}

fn links_of(c: &Component) -> &Vec<LinkField> {
    match c {
        Component::Custom(c) => &c.links,
        _ => panic!("no links"),
    }
}

#[test]
fn identifier_has_its_text() {
    let link = Link::new_with(0, 0xa1a2a3a4b1b2c1c2d1d2d3d4d5d6d7d8);
    assert_eq!(link.serialize(), "a1a2a3a4-b1b2-c1c2-d1d2-d3d4d5d6d7d8");
    let read = Link::deserialize("1d673e60-450c-4e0e-b928-10a5bdcfbf84", 7).unwrap();
    assert_eq!(read.id, Some(0x1d673e60450c4e0eb92810a5bdcfbf84));
    assert_eq!(read.data, 7);
    assert_eq!(read.references, 1);
    assert_eq!(Link::deserialize("1D673E60450C4E0EB92810A5BDCFBF84", 0).unwrap().id, read.id);
    assert_eq!(Link::deserialize("no identifier", 0), Err(LinkError::BadId));
    assert_eq!(Link::deserialize("", 0), Err(LinkError::BadId));
    assert_eq!(Link::deserialize(&read.serialize(), 7), Ok(read));
}

#[test]
fn links_count_their_holders() {
    let mut link = Link::new_with(3, 9);
    link.inc();
    assert_eq!(link.references, 2);
    let other = link.clone_with_uuid(11);
    assert_eq!(link, Link { id: Some(9), data: 3, references: 3 });
    assert_eq!(other, Link { id: Some(11), data: 3, references: 3 });
    let mut full = Link { id: Some(1), data: 0, references: usize::MAX };
    full.inc();
    assert_eq!(full.references, usize::MAX);
}

#[test]
fn new_links_are_entered_under_new_identifiers() {
    let mut registry = tables();
    let handle = registry.add_shared(score());
    assert_eq!(handle, 0);
    let first_uuid = registry.uuid_of(&"Score".to_string()).unwrap();
    let a = Link::new(&mut registry, handle);
    let b = Link::new(&mut registry, handle);
    assert_ne!(a.id, b.id);
    let id = a.id.unwrap();
    assert_eq!(id & 0x0000_0000_0000_f000_c000_0000_0000_0000, 0x0000_0000_0000_4000_8000_0000_0000_0000);
    assert_ne!(Some(first_uuid), a.id);
    assert_eq!(get_link(&registry, id), Some(Link { id: Some(id), data: 0, references: 1 }));
    assert_eq!(registry.uuid_of(&"Score".to_string()), b.id);
    assert_eq!(get_link(&registry, 5), None);
    let d = Link::default(&mut registry, "Spawner".to_string());
    assert_eq!(d.data, 1);
    assert_eq!(registry.shared(1).unwrap().name, "Spawner");
    assert_eq!(registry.shared(1).unwrap().fields, "null");
    assert_eq!(get_link(&registry, d.id.unwrap()), None);
    assert!(registry.uuid_of(&"Spawner".to_string()).is_some());
}

#[test]
fn links_resolve_by_the_link_table() {
    let mut registry = tables();
    let placeholder = registry.add_shared(StaticComponent::placeholder("Score".to_string()));
    let real = registry.add_shared(score());
    let mut a = Link::new_with(placeholder, 42);
    let mut b = Link::new_with(placeholder, 42);
    assert_eq!(a.get_data(&registry), placeholder);
    register_link(&mut registry, a);
    assert_eq!(registry.uuid_of(&"Score".to_string()), Some(42));
    assert_eq!(get_link(&registry, 42).unwrap().data, placeholder);
    a.set_data(&mut registry, real);
    assert_eq!(a.data, real);
    assert_eq!(b.data, placeholder);
    assert_eq!(b.get_data(&registry), real);
    assert_eq!(b.data, real);
    assert_eq!(get_link(&registry, 42).unwrap().data, real);
    assert!(registry.set_fields(real, "{}".to_string()));
    assert_eq!(registry.shared(real).unwrap().fields, "{}");
    assert!(!registry.set_fields(9, "{}".to_string()));
    assert_eq!(registry.shared_len(), 2);
    assert!(registry.shared(2).is_none());
}

#[test]
fn tables_know_what_was_registered() {
    let registry = tables();
    assert_eq!(registry.component_ticker(&"Transform".to_string()), Some(TickVariant::Default));
    assert_eq!(registry.component_ticker(&"CharacterController2D".to_string()), Some(TickVariant::Input));
    assert_eq!(registry.component_ticker(&"InputComponent".to_string()), Some(TickVariant::Input));
    assert_eq!(registry.component_ticker(&"RenderComponent".to_string()), Some(TickVariant::Render));
    assert_eq!(registry.component_ticker(&"BulletRenderer".to_string()), Some(TickVariant::Render));
    assert_eq!(registry.component_ticker(&"Rigidbody".to_string()), None);
    assert!(registry.knows_static(&"Score".to_string()));
    assert!(!registry.knows_static(&"Transform".to_string()));
}

#[test]
fn a_name_is_tested_before_it_is_registered() {
    let mut registry = tables();
    let taken = "BulletRenderer".to_string();
    assert!(registry.component_ticker(&taken).is_some());
    let free = "Rigidbody".to_string();
    assert!(registry.component_ticker(&free).is_none());
    register_component(&mut registry, "Rigidbody", TickVariant::Default);
    assert_eq!(registry.component_ticker(&free), Some(TickVariant::Default));
    assert_eq!(registry.component_ticker(&taken), Some(TickVariant::Render));
    assert!(registry.knows_static(&"Score".to_string()));
    assert!(!registry.knows_static(&"Board".to_string()));
    register_static_component(&mut registry, "Board");
    assert!(registry.knows_static(&"Board".to_string()));
}

#[test]
fn colliders_are_saved_by_their_variant() {
    let all: Vec<Collider> = vec![
        CubeCollider::new(100),
        RectangularPrismCollider::new(1, 2, 3),
        PointCollider::new(Point { x: 4, y: 5, z: 6 }),
        OctagonCollider::new(7),
    ];
    let saved: Vec<ColliderSaveData> = all.iter().map(ColliderSaveData::from_collider).collect();
    assert_eq!(saved[0].collider, ColliderType::CubeCollider { side_length: 100 });
    assert_eq!(saved[1].collider, ColliderType::RectangularPrismCollider { width: 1, height: 2, depth: 3 });
    assert_eq!(saved[2].collider, ColliderType::PointCollider { point: Point { x: 4, y: 5, z: 6 } });
    assert_eq!(saved[3].collider, ColliderType::OctagonCollider { size: 7 });
    let loaded: Vec<Collider> = saved.iter().map(|s| s.to_collider()).collect();
    assert_eq!(loaded, all);
}

#[test]
fn unknown_types_cannot_be_loaded() {
    let registry = tables();
    let known = ComponentSaveData::from_component(&InputComponent::new("i".to_string()), &registry);
    assert_eq!(known.id, "InputComponent");
    assert!(known.uuid.is_some());
    assert!(known.loadable(&registry));
    let unknown = ComponentSaveData::from_component(
        &CustomComponent::new("Rigidbody".to_string(), TickVariant::Default, "{}".to_string(), vec![]),
        &registry,
    );
    assert!(!unknown.loadable(&registry));
    let mixed = ComponentSaveData { id: "Transform".to_string(), uuid: None, data: known.data };
    assert!(!mixed.loadable(&registry));
    let empty = Registry::new();
    let no_static = StaticComponentSaveData { id: "Score".to_string(), uuid: Some(1), data: score() };
    assert!(no_static.loadable(&registry));
    assert!(!no_static.loadable(&empty));
    let no_uuid = StaticComponentSaveData { id: "Score".to_string(), uuid: None, data: score() };
    assert!(!no_uuid.loadable(&registry));
}

fn game() -> Engine {
    let mut engine = Engine::new(true, tables());
    let scorer = engine.registry.add_shared(score());
    let scorer_link = Link::new(&mut engine.registry, scorer);
    let ship = make_base_game_object(&mut engine.world, "ship".to_string());
    engine.add_object(ship);
    engine.world.add_component(ship, CharacterController2D::new(Some(oxidized::bounds::Bounds2D::new(2700, 2000))));
    engine.world.add_component(ship, RenderComponent::new(Primitives::Triangle(100, [0, 1000, 0])));
    add_collider(&mut engine.world, ship, CubeCollider::new(100));
    engine.world.add_component(
        ship,
        CustomComponent::new(
            "ShootComponent".to_string(),
            TickVariant::Input,
            "{\"cooldown\":500}".to_string(),
            vec![LinkField { name: "scorer".to_string(), target: "Score".to_string(), link: scorer_link }],
        ),
    );
    let enemy = make_base_game_object(&mut engine.world, "enemy 0".to_string());
    engine.add_object(enemy);
    add_collider(&mut engine.world, enemy, OctagonCollider::new(100));
    engine.world.place(enemy, [1500, -300, 0], [0, 0, 45000]);
    engine.world.set_active(enemy, false);
    engine.world.add_component(
        enemy,
        CustomComponent::new(
            "BulletRenderer".to_string(),
            TickVariant::Render,
            "{}".to_string(),
            vec![LinkField { name: "board".to_string(), target: "Score".to_string(), link: scorer_link }],
        ),
    );
    reparent(&mut engine.world, ship, enemy);
    let spawner = engine.registry.add_shared(StaticComponent {
        name: "Spawner".to_string(),
        fields: "{\"player\":0}".to_string(),
        links: vec![LinkField { name: "scorer".to_string(), target: "Score".to_string(), link: scorer_link }],
    });
    engine.add_static(scorer);
    engine.add_static(spawner);
    engine
}

#[test]
fn saved_world_lists_what_the_engine_holds() {
    let engine = game();
    let save = engine.export();
    assert!(save.graphics);
    assert_eq!(save.objects.len(), 2);
    assert_eq!(save.static_components.len(), 2);
    let ship = &save.objects[0];
    assert_eq!(ship.name, "ship");
    assert_eq!(ship.id, 0);
    assert!(ship.active);
    assert_eq!(ship.parent, None);
    assert_eq!(ship.children, vec![1]);
    assert_eq!(ship.colliders, vec![ColliderSaveData { collider: ColliderType::CubeCollider { side_length: 100 } }]);
    let ids: Vec<&str> = ship.components.iter().map(|c| c.id.as_str()).collect();
    assert_eq!(ids, vec!["Transform", "CharacterController2D", "RenderComponent", "ShootComponent"]);
    let enemy = &save.objects[1];
    assert_eq!(enemy.name, "enemy 0");
    assert!(!enemy.active);
    assert_eq!(enemy.parent, Some(0));
    let score_uuid = engine.registry.uuid_of(&"Score".to_string());
    assert!(score_uuid.is_some());
    assert_eq!(save.static_components[0].id, "Score");
    assert_eq!(save.static_components[0].uuid, score_uuid);
    assert_eq!(save.static_components[0].data.fields, "{\"over\":false,\"score\":3}");
    assert_eq!(save.static_components[1].id, "Spawner");
    assert_eq!(save.static_components[1].data.links[0].link.id, score_uuid);
    assert_eq!(links_of(&ship.components[3].data)[0].link.id, score_uuid);
    assert_eq!(links_of(&enemy.components[1].data)[0].link.id, score_uuid);
    let again = engine.export();
    assert_eq!(links_of(&again.objects[0].components[3].data)[0].link.id, score_uuid);
    assert_ne!(again.objects[0].components[0].uuid, save.objects[0].components[0].uuid);
}

#[test]
fn world_that_was_saved_and_loaded_is_the_world_that_it_was() {
    let engine = game();
    let save = engine.export();
    let fresh = tables();
    assert!(save.loadable(&fresh));
    let loaded = save.to_engine(fresh);
    assert!(loaded.graphics);
    assert_eq!(loaded.state.objects(), vec![0, 1]);
    assert_eq!(loaded.world.len(), 2);
    for id in 0..2 {
        let before = GameObject::find_by_id(&engine.world, id).unwrap();
        let after = GameObject::find_by_id(&loaded.world, id).unwrap();
        assert_eq!(after.name(), before.name());
        assert_eq!(after.id(), before.id());
        assert_eq!(after.state.active(), before.state.active());
        assert_eq!(after.state.parent_id, before.state.parent_id);
        assert_eq!(after.state.child_ids(), before.state.child_ids());
        assert_eq!(after.colliders(), before.colliders());
        assert_eq!(after.position(), before.position());
        assert_eq!(after.components().len(), before.components().len());
        for (a, b) in after.components().iter().zip(before.components().iter()) {
            assert_eq!(a.ticker, b.ticker);
            assert_eq!(a.component.kind_name(), b.component.kind_name());
        }
        assert!(after.render_references.is_empty());
    }
    let ship = GameObject::find_by_id(&loaded.world, 0).unwrap();
    match &ship.components()[1].component {
        Component::CharacterController2D(c) => {
            assert_eq!(c.moveamt, 10);
            assert_eq!(c.bounds, Some(oxidized::bounds::Bounds2D::new(2700, 2000)));
        }
        _ => panic!("not a controller"),
    }
    match &ship.components()[3].component {
        Component::Custom(c) => assert_eq!(c.fields, "{\"cooldown\":500}"),
        _ => panic!("not host-defined"),
    }
    let enemy = GameObject::find_by_id(&loaded.world, 1).unwrap();
    assert_eq!(enemy.position(), Point { x: 1500, y: -300, z: 0 });

    // the two components and the spawner share one score
    let score_uuid = engine.registry.uuid_of(&"Score".to_string()).unwrap();
    let mut a = links_of(&ship.components()[3].component)[0].link;
    let mut b = links_of(&enemy.components()[1].component)[0].link;
    assert_eq!(a.id, Some(score_uuid));
    assert_eq!(b.id, Some(score_uuid));
    let statics = loaded.state.static_components();
    assert_eq!(statics.len(), 2);
    let score_handle = statics[0];
    let mut c = loaded.registry.shared(statics[1]).unwrap().links[0].link;
    assert_eq!(c.id, Some(score_uuid));
    assert_eq!(a.get_data(&loaded.registry), score_handle);
    assert_eq!(b.get_data(&loaded.registry), score_handle);
    assert_eq!(c.get_data(&loaded.registry), score_handle);
    assert_eq!(loaded.registry.shared(score_handle).unwrap().name, "Score");
    assert_eq!(loaded.registry.shared(score_handle).unwrap().fields, "{\"over\":false,\"score\":3}");
    assert_eq!(loaded.registry.uuid_of(&"Score".to_string()), Some(score_uuid));
    // what stood in for the score until it was loaded is still there, and no link resolves to it
    assert_eq!(loaded.registry.shared_len(), 3);
    assert_eq!(loaded.registry.shared(0).unwrap().fields, "null");

    // a second round gives the same world under the same identifiers
    let second = loaded.export().to_engine(tables());
    let ship = GameObject::find_by_id(&second.world, 0).unwrap();
    assert_eq!(links_of(&ship.components()[3].component)[0].link.id, Some(score_uuid));
    assert_eq!(second.export().static_components[0].uuid, Some(score_uuid));
}

#[test]
fn destroyed_entities_are_not_saved() {
    let mut engine = game();
    GameObject::destroy(&mut engine.world, 0);
    let save = engine.export();
    assert_eq!(save.objects.len(), 1);
    assert_eq!(save.objects[0].name, "enemy 0");
    assert_eq!(save.objects[0].id, 1);
    let loaded = save.to_engine(tables());
    let enemy = GameObject::find_by_id(&loaded.world, 0).unwrap();
    assert_eq!(enemy.name(), "enemy 0");
    assert_eq!(enemy.state.parent_id, None);
    assert!(GameObject::find_by_id(&loaded.world, 1).is_none());
}

#[test]
fn the_tree_is_loaded_under_the_new_identifiers() {
    let mut engine = Engine::new(false, tables());
    let gone = make_base_game_object(&mut engine.world, "gone".to_string());
    let parent = make_base_game_object(&mut engine.world, "parent".to_string());
    let child = make_base_game_object(&mut engine.world, "child".to_string());
    engine.add_object(gone);
    engine.add_object(parent);
    engine.add_object(child);
    reparent(&mut engine.world, parent, child);
    reparent(&mut engine.world, child, gone);
    GameObject::destroy(&mut engine.world, gone);
    let save = engine.export();
    assert_eq!(save.objects.len(), 2);
    assert_eq!(save.objects[0].id, 1);
    assert_eq!(save.objects[1].id, 2);
    assert_eq!(save.objects[1].parent, Some(1));
    let loaded = save.to_engine(tables());
    let parent = GameObject::find_by_id(&loaded.world, 0).unwrap();
    let child = GameObject::find_by_id(&loaded.world, 1).unwrap();
    assert_eq!(parent.name(), "parent");
    assert_eq!(parent.state.parent_id, None);
    assert_eq!(parent.state.child_ids(), vec![1]);
    assert_eq!(child.name(), "child");
    assert_eq!(child.state.parent_id, Some(0));
    assert_eq!(child.state.child_ids(), Vec::<i32>::new());
    assert_eq!(loaded.state.objects(), vec![0, 1]);
}

#[test]
fn saved_identifiers_are_renamed_by_their_records() {
    let ids = vec![4, 9, 2, 9];
    assert_eq!(renamed(&ids, 0, 4), Some(0));
    assert_eq!(renamed(&ids, 0, 9), Some(1));
    assert_eq!(renamed(&ids, 0, 2), Some(2));
    assert_eq!(renamed(&ids, 0, 0), None);
    assert_eq!(renamed(&ids, 10, 2), Some(12));
    assert_eq!(renamed(&Vec::new(), 0, 0), None);
    assert_eq!(renamed_all(&ids, 0, &vec![2, 7, 4, 9, 2]), vec![2, 0, 1, 2]);
    assert_eq!(renamed_all(&ids, 5, &vec![1, 3]), Vec::<i32>::new());
}

#[test]
fn saved_entity_is_loaded_into_a_world() {
    let engine = game();
    let save = EngineSaveData::from_engine(&engine);
    let mut world = oxidized::gameobject::World::new();
    let mut registry = tables();
    make_base_game_object(&mut world, "there before".to_string());
    assert!(save.objects[1].loadable(&registry));
    let ids = vec![5, 1];
    let id = save.objects[1].to_game_object(&mut world, &mut registry, &ids, 0);
    assert_eq!(id, 1);
    let enemy = GameObject::find_by_id(&world, 1).unwrap();
    assert_eq!(enemy.name(), "enemy 0");
    assert_eq!(save.objects[1].parent, Some(0));
    assert_eq!(enemy.state.parent_id, None);
    let ids = vec![1, 0];
    let id = save.objects[1].to_game_object(&mut world, &mut registry, &ids, 2);
    assert_eq!(id, 2);
    assert_eq!(GameObject::find_by_id(&world, 2).unwrap().state.parent_id, Some(3));
    let c = save.objects[0].components[1].to_component(&mut registry);
    assert_eq!(c.ticker, TickVariant::Input);
    let handle = save.static_components[0].to_static_component(&mut registry);
    assert_eq!(registry.shared(handle).unwrap().name, "Score");
    let again = StaticComponentSaveData::from_static_component(&registry, handle);
    assert_eq!(again.uuid, save.static_components[0].uuid);
    assert_eq!(Container { internal: handle }.internal, handle);
}
