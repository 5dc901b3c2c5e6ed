use oxidized::component::{Key, MouseButton, Primitives, RenderComponent, RenderOutput};
use oxidized::gameobject::{make_base_game_object, reparent, GameObject};
use oxidized::physics::PhysicsEngine;
use oxidized::registry::Registry;
use oxidized::state::{AppEvent, Engine, EngineState, FrameData};
use oxidized::color::Colors;
use oxidized::frontend::{EngineBackend, EngineFrontend};
use oxidized::static_component::{Score, StaticComponent};
use oxidized::ui::{Text, TextOrigin, UIElement, UIRenderer};

fn text(content: &str) -> UIElement {
    UIElement::Text(Text {
        content: content.to_string(),
        position: [-335000, -275000],
        color: [0, 1000, 0, 1000],
        origin: TextOrigin::Center,
    })
}

#[test]
fn engine_keeps_the_keys_that_are_held() {
    let mut engine = Engine::new(false, Registry::new());
    engine.handle_event(AppEvent::KeyPressed(Key::W));
    engine.handle_event(AppEvent::KeyPressed(Key::D));
    engine.handle_event(AppEvent::KeyPressed(Key::W));
    assert_eq!(engine.input_data().keys_pressed, vec![Key::W, Key::D]);
    engine.handle_event(AppEvent::KeyReleased(Key::W));
    assert_eq!(engine.input_data().keys_pressed, vec![Key::D]);
    engine.handle_event(AppEvent::KeyReleased(Key::Space));
    assert_eq!(engine.input_data().keys_pressed, vec![Key::D]);
    engine.handle_event(AppEvent::MouseInput(MouseButton::Left));
    engine.handle_event(AppEvent::MouseInput(MouseButton::Left));
    engine.handle_event(AppEvent::MouseInput(MouseButton::Other(4)));
    assert_eq!(engine.input_data().mouse_buttons_pressed, vec![MouseButton::Left, MouseButton::Other(4)]);
    engine.handle_event(AppEvent::MouseRelease(MouseButton::Left));
    assert_eq!(engine.input_data().mouse_buttons_pressed, vec![MouseButton::Other(4)]);
    engine.handle_event(AppEvent::MouseMoved([3, 4]));
    assert_eq!(engine.input_data().mouse_position, [3, 4]);
    engine.handle_event(AppEvent::Closed);
    engine.handle_event(AppEvent::Resized([800, 600]));
    assert_eq!(engine.input_data().keys_pressed, vec![Key::D]);
    engine.frame(FrameData { dt: Some(16) });
    assert_eq!(engine.dt, Some(16));
}

#[test]
fn render_queue_gives_places() {
    let mut engine = Engine::new(true, Registry::new());
    let a = RenderOutput { obj: Some(Primitives::Cube(1, [0, 0, 0])), pos: None, rot: None };
    let b = RenderOutput { obj: Some(Primitives::Cube(2, [0, 0, 0])), pos: None, rot: None };
    let c = RenderOutput { obj: Some(Primitives::Cube(3, [0, 0, 0])), pos: None, rot: None };
    assert_eq!(engine.render(a), 0);
    assert_eq!(engine.render(b), 1);
    assert_eq!(engine.render(c), 2);
    engine.remove_from_render_queue(1);
    assert_eq!(engine.render_queue, vec![a, c]);
}

#[test]
fn tick_empties_and_fills_the_render_queue() {
    let mut engine = Engine::new(true, Registry::new());
    let mut ids = Vec::new();
    for size in [1, 2, 3] {
        let id = make_base_game_object(&mut engine.world, "o".to_string());
        engine.world.add_component(id, RenderComponent::new(Primitives::Cube(size, [0, 0, 0])));
        engine.world.add_component(id, RenderComponent::new(Primitives::Cube(size * 10, [0, 0, 0])));
        ids.push(engine.add_object(id));
    }
    reparent(&mut engine.world, ids[2], ids[0]);
    engine.add_ui_element(text("Score: 0"));
    assert_eq!(engine.ui_handler.elements().len(), 1);
    let host = engine.tick();
    assert!(host.is_empty());
    assert!(engine.ui_handler.elements().is_empty());
    let sizes = |engine: &Engine| -> Vec<i32> {
        engine
            .render_queue
            .iter()
            .map(|o| match o.obj {
                Some(Primitives::Cube(size, _)) => size,
                _ => 0,
            })
            .collect()
    };
    assert_eq!(sizes(&engine), vec![2, 20, 3, 30, 1, 10]);
    assert_eq!(GameObject::find_by_id(&engine.world, ids[0]).unwrap().render_references, vec![4, 5]);
    assert_eq!(GameObject::find_by_id(&engine.world, ids[1]).unwrap().render_references, vec![0, 1]);
    for _ in 0..3 {
        engine.tick();
        assert_eq!(sizes(&engine).len(), 6);
    }
    engine.world.set_active(ids[1], false);
    engine.tick();
    assert_eq!(sizes(&engine).len(), 4);
    assert!(GameObject::find_by_id(&engine.world, ids[1]).unwrap().render_references.is_empty());
    engine.pause();
    engine.add_ui_element(text("Game Over"));
    engine.world.set_active(ids[1], true);
    engine.tick();
    assert_eq!(sizes(&engine).len(), 4);
    assert_eq!(engine.ui_handler.elements().len(), 1);
    engine.unpause();
    engine.tick();
    assert_eq!(sizes(&engine).len(), 6);
    assert_eq!(engine.physics_engine.game_objects, vec![0, 1, 2]);
    assert_eq!(engine.state().objects(), vec![0, 1, 2]);
}

#[test]
fn static_components_are_reached_by_their_name() {
    let mut engine = Engine::new(false, Registry::new());
    let score = engine.registry.add_shared(StaticComponent {
        name: "Score".to_string(),
        fields: "0".to_string(),
        links: vec![],
    });
    engine.add_static(score);
    let mut seen = String::new();
    let r = engine.get_static_closure(&"Score".to_string(), |fields| {
        seen = fields;
        "1".to_string()
    });
    assert_eq!(r, Some(()));
    assert_eq!(seen, "0");
    assert_eq!(engine.registry.shared(score).unwrap().fields, "1");
    let r = engine.get_static_closure(&"Spawner".to_string(), |fields| fields);
    assert_eq!(r, None);
    assert_eq!(engine.state().static_components(), vec![score]);
}

#[test]
fn lists_grow_at_their_end() {
    let mut state = EngineState::new();
    state.add_object(4);
    state.add_object(2);
    state.add_static(1);
    assert_eq!(state.objects(), vec![4, 2]);
    assert_eq!(state.static_components(), vec![1]);
    let mut physics = PhysicsEngine::new(100);
    physics.add_object(3);
    assert_eq!(physics.game_objects, vec![3]);
    assert_eq!(physics.friction, 100);
    let mut ui = UIRenderer::new();
    ui.queue(text("a"));
    ui.queue(text("b"));
    assert_eq!(ui.elements().len(), 2);
    ui.clear();
    assert!(ui.elements().is_empty());
}

#[test]
fn colours_have_their_shares() {
    assert_eq!(Colors::RED.raw(), [1000, 0, 0]);
    assert_eq!(Colors::GREEN.raw(), [0, 1000, 0]);
    assert_eq!(Colors::BLUE.raw(), [0, 0, 1000]);
    assert_eq!(Colors::CUSTOM([1, 2, 3]).raw(), [1, 2, 3]);
}

#[test]
fn editor_window_starts_with_its_greeting() {
    assert_eq!(EngineFrontend::default().label_text, "Hello World!");
    assert_eq!(EngineFrontend::new(None).label_text, "Hello World!");
    let stored = EngineFrontend { label_text: "again".to_string() };
    assert_eq!(EngineFrontend::new(Some(stored)).label_text, "again");
    let _ = EngineBackend {};
}

#[test]
fn score_starts_at_nothing() {
    assert_eq!(Score::new(), Score { over: false, score: 0 });
}

#[test]
fn host_requests_are_noted_and_taken_out_again() {
    let mut engine = Engine::new(true, Registry::new());
    let a = make_base_game_object(&mut engine.world, "a".to_string());
    engine.add_object(a);
    let line = RenderOutput { obj: Some(Primitives::Cube(9, [0, 0, 0])), pos: None, rot: None };
    assert_eq!(engine.render_for(a, line), Some(0));
    assert_eq!(engine.render_for(a, line), Some(1));
    assert_eq!(engine.render_for(7, line), None);
    assert_eq!(GameObject::find_by_id(&engine.world, a).unwrap().render_references, vec![0, 1]);
    engine.tick();
    assert!(engine.render_queue.is_empty());
    engine.world.set_active(a, false);
    assert_eq!(engine.render_for(a, line), None);
    assert!(engine.render_queue.is_empty());
    let outside = engine.render(line);
    assert_eq!(outside, 0);
    engine.tick();
    assert_eq!(engine.render_queue, vec![line]);
    let mut physics = PhysicsEngine::new(100);
    physics.add_object(1);
    physics.tick(16);
    assert_eq!(physics.game_objects, vec![1]);
}

#[test]
fn children_are_ticked_in_their_order() {
    let mut engine = Engine::new(true, Registry::new());
    let mut ids = Vec::new();
    for size in [1, 2, 3] {
        let id = make_base_game_object(&mut engine.world, "o".to_string());
        engine.world.add_component(id, RenderComponent::new(Primitives::Cube(size, [0, 0, 0])));
        ids.push(id);
    }
    reparent(&mut engine.world, ids[0], ids[2]);
    reparent(&mut engine.world, ids[0], ids[1]);
    let input = engine.input_data();
    let mut queue = Vec::new();
    let mut host = Vec::new();
    engine.world.tick_children(ids[0], 3, &input, 0, &mut queue, &mut host);
    let sizes: Vec<i32> = queue
        .iter()
        .map(|o| match o.obj {
            Some(Primitives::Cube(size, _)) => size,
            _ => 0,
        })
        .collect();
    assert_eq!(sizes, vec![3, 2]);
    engine.world.tick_children(9, 3, &input, 0, &mut queue, &mut host);
    assert_eq!(queue.len(), 2);
}
