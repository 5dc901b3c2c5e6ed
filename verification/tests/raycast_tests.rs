use oxidized::collider::{CubeCollider, Point};
use oxidized::component::Primitives;
use oxidized::gameobject::{add_collider, make_base_game_object, GameObject, World};
use oxidized::raycast::{Raycast, RaycastResult};

fn cube_at(world: &mut World, name: &str, x: i32) -> i32 {
    let id = make_base_game_object(world, name.to_string());
    add_collider(world, id, CubeCollider::new(1000));
    world.place(id, [x, 0, 0], [0, 0, 0]);
    id
}

#[test]
fn ray_meets_the_entities_on_its_way() {
    let mut world = World::new();
    let origin = Point { x: 0, y: 0, z: 0 };
    let end = Point { x: 10000, y: 0, z: 0 };
    let shooter = make_base_game_object(&mut world, "shooter".to_string());
    assert_eq!(shooter, 0);
    let result = Raycast::send(&world, origin, end, &vec![]).unwrap();
    assert_eq!(result.underlying.len(), 0);

    let first = cube_at(&mut world, "first", 5500);
    let result = Raycast::send(&world, origin, end, &vec![]).unwrap();
    assert_eq!(result.underlying, vec![first]);

    let result = Raycast::send(&world, origin, end, &vec![first]).unwrap();
    assert_eq!(result.underlying.len(), 0);

    let second = cube_at(&mut world, "second", 7500);
    let mut hits = Raycast::send(&world, origin, end, &vec![]).unwrap().underlying;
    hits.sort();
    assert_eq!(hits, vec![first, second]);

    let result = Raycast::send(&world, origin, end, &vec![first]).unwrap();
    assert_eq!(result.underlying, vec![second]);

    let beyond = cube_at(&mut world, "beyond", 12000);
    let aside = cube_at(&mut world, "aside", 5500);
    world.place(aside, [5500, 3000, 0], [0, 0, 0]);
    let result = Raycast::send(&world, origin, end, &vec![]).unwrap();
    assert_eq!(result.underlying, vec![first, second]);
    assert!(beyond > second);

    GameObject::destroy(&mut world, first);
    let result = Raycast::send(&world, origin, end, &vec![]).unwrap();
    assert_eq!(result.underlying, vec![second]);
}

#[test]
fn ray_result_collects_in_order() {
    let mut r = RaycastResult::new();
    assert!(r.underlying.is_empty());
    r.add(4);
    r.add(2);
    assert_eq!(r.underlying, vec![4, 2]);
}

#[test]
fn ray_is_shown_in_red() {
    let p = Point { x: 1, y: 2, z: 3 };
    assert_eq!(
        Raycast::show(p, 90000, 100000, 10),
        Primitives::RaycastLine(p, 90000, 100000, 10, [1000, 0, 0])
    );
}
