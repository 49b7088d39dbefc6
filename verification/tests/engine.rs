use gloom::frame::{frame_step, Camera, NodeUpdate, MOVE_SPEED};
use gloom::input::{sat_add, InputState, Key};
use gloom::scene::{DrawCall, GeometryHandle, SceneGraph, SceneNode};
use gloom::session::{handle_event, EventControl, Liveness, WindowEvent};
use gloom::transform::{
    apply_point, compose, fp_mul, local_transform, Angle, Rotation, Transform, Vec3, ENTRY_LIMIT,
    FP_ONE,
};

fn units(n: i64) -> i64 {
    n * FP_ONE
}

fn rot_y_quarter() -> Rotation {
    // sine 1.0, cosine 0.0: a quarter turn about the y axis, exactly
    // representable in fixed point.
    Rotation::new(Angle::zero(), Angle::new(FP_ONE, 0), Angle::zero())
}

#[test]
fn fixed_point_multiply_exact() {
    assert_eq!(fp_mul(units(3), units(5)), units(15));
    assert_eq!(fp_mul(units(1), units(1)), units(1));
    assert_eq!(fp_mul(0, units(7)), 0);
}

#[test]
fn fixed_point_multiply_rounds_toward_negative_infinity() {
    // 1/65536 * 1/65536 rounds down to zero ...
    assert_eq!(fp_mul(1, 1), 0);
    // ... and its negation rounds down to -1/65536, not up to zero.
    assert_eq!(fp_mul(-1, 1), -1);
    assert_eq!(fp_mul(1, -1), -1);
}

#[test]
fn saturating_add_clamps() {
    assert_eq!(sat_add(i64::MAX, 1), i64::MAX);
    assert_eq!(sat_add(i64::MIN, -1), i64::MIN);
    assert_eq!(sat_add(40, 2), 42);
}

#[test]
fn translations_compose_exactly() {
    let a = Transform::translation(Vec3::new(units(1), units(2), units(3)));
    let b = Transform::translation(Vec3::new(units(10), -units(20), 7));
    let ab = compose(&a, &b).unwrap();
    assert_eq!(ab, Transform::translation(Vec3::new(units(11), -units(18), units(3) + 7)));
}

#[test]
fn zero_local_transform_is_identity() {
    let local = local_transform(&Rotation::zero(), Vec3::zero());
    assert_eq!(local, Transform::identity());
}

#[test]
fn quarter_turn_maps_axes_exactly() {
    let local = local_transform(&rot_y_quarter(), Vec3::zero());
    let p = Vec3::new(units(2), 5, units(3));
    // A quarter turn about y maps (x, y, z) to (z, y, -x), exactly.
    let q = apply_point(&local, p).unwrap();
    assert_eq!(q, Vec3::new(units(3), 5, -units(2)));
}

#[test]
fn identity_at_root() {
    // A root with zero position, rotation and reference point, fed the
    // identity incoming transform, caches exactly the identity.
    let mut g = SceneGraph::new();
    let identity = Transform::identity();
    assert!(g.update_node_transformations(0, &identity));
    assert_eq!(g.nodes[0].world_transform, Transform::identity());
}

#[test]
fn pivot_is_fixed_point_of_local_transform() {
    // reference_point = P, rotation = (0, quarter turn, 0), position = 0:
    // P maps exactly to P.
    let p = Vec3::new(units(2), 0, units(3));
    let local = local_transform(&rot_y_quarter(), p);
    assert_eq!(apply_point(&local, p), Some(p));
}

#[test]
fn pivot_offset_maps_to_pivot_plus_rotated_offset() {
    let p = Vec3::new(units(2), 0, units(3));
    let local = local_transform(&rot_y_quarter(), p);
    // Offset one unit along x from the pivot; the quarter turn about y
    // carries (1, 0, 0) to (0, 0, -1).
    let moved = apply_point(&local, Vec3::new(units(3), 0, units(3))).unwrap();
    assert_eq!(moved, Vec3::new(units(2), 0, units(2)));
}

#[test]
fn child_position_is_applied_after_the_parent_composition() {
    // A child placed one unit along x under a parent that is a quarter
    // turn about y: the position translation is applied after the parent
    // composition, so the parent's rotation never touches it. The child's
    // world translation stays (1, 0, 0); the rotation block is inherited.
    let mut g = SceneGraph::new();
    g.set_node_pose(0, Vec3::zero(), rot_y_quarter());
    let mut child_node = SceneNode::new();
    child_node.position = Vec3::new(units(1), 0, 0);
    let child = g.add_child(0, child_node);
    let identity = Transform::identity();
    assert!(g.update_node_transformations(0, &identity));
    let cw = g.nodes[child].world_transform;
    assert_eq!((cw.tx, cw.ty, cw.tz), (units(1), 0, 0));
    assert_eq!((cw.m00, cw.m02, cw.m20, cw.m22), (0, FP_ONE, -FP_ONE, 0));
}

#[test]
fn parent_transform_passes_through_identity_child() {
    // A child with a zero local transform gets exactly its parent's world
    // transform, whatever that is.
    let mut g = SceneGraph::new();
    g.set_node_pose(0, Vec3::new(units(1), units(2), units(3)), rot_y_quarter());
    let child = g.add_child(0, SceneNode::new());
    let identity = Transform::identity();
    assert!(g.update_node_transformations(0, &identity));
    assert_eq!(g.nodes[child].world_transform, g.nodes[0].world_transform);
    assert_ne!(g.nodes[child].world_transform, Transform::identity());
}

#[test]
fn composition_overflow_is_reported_not_wrapped() {
    let mut t = Transform::identity();
    t.m00 = ENTRY_LIMIT;
    t.tx = ENTRY_LIMIT;
    assert!(compose(&t, &t).is_none());
    let id = Transform::identity();
    assert_eq!(compose(&id, &id), Some(Transform::identity()));
}

#[test]
fn grouping_nodes_issue_no_draw_calls() {
    // root (no geometry) -> group (no geometry) -> two leaves sharing one
    // geometry handle: exactly the leaves draw, with their own transforms.
    let mut g = SceneGraph::new();
    let group = g.add_child(0, SceneNode::new());
    let mut leaf_a = SceneNode::from_vao(7, 36);
    leaf_a.position = Vec3::new(units(1), 0, 0);
    let mut leaf_b = SceneNode::from_vao(7, 36);
    leaf_b.position = Vec3::new(-units(1), 0, 0);
    let a = g.add_child(group, leaf_a);
    let b = g.add_child(group, leaf_b);
    let identity = Transform::identity();
    assert!(g.update_node_transformations(0, &identity));
    let mut calls: Vec<DrawCall> = Vec::new();
    g.draw_scene(0, &mut calls);
    assert_eq!(calls.len(), 2);
    assert_eq!(calls[0].geometry, GeometryHandle { vao_id: 7, index_count: 36 });
    assert_eq!(calls[1].geometry, GeometryHandle { vao_id: 7, index_count: 36 });
    assert_eq!(calls[0].world_transform, g.nodes[a].world_transform);
    assert_eq!(calls[1].world_transform, g.nodes[b].world_transform);
    assert_ne!(calls[0].world_transform, calls[1].world_transform);
}

#[test]
fn key_down_is_idempotent() {
    let mut input = InputState::new();
    input.key_down(Key::KeyW);
    input.key_down(Key::Space);
    input.key_down(Key::KeyW);
    assert_eq!(input.pressed_keys.len(), 2);
    assert!(input.is_pressed(Key::KeyW));
    assert!(input.is_pressed(Key::Space));
}

#[test]
fn key_up_for_unpressed_key_is_noop() {
    let mut input = InputState::new();
    input.key_down(Key::KeyW);
    input.key_up(Key::Space);
    assert_eq!(input.pressed_keys.len(), 1);
    assert!(input.is_pressed(Key::KeyW));
    input.key_up(Key::KeyW);
    assert_eq!(input.pressed_keys.len(), 0);
    assert!(!input.is_pressed(Key::KeyW));
}

#[test]
fn mouse_accumulates_and_resets_on_consumption() {
    let mut input = InputState::new();
    input.accumulate_mouse(1, 2);
    input.accumulate_mouse(3, -1);
    assert_eq!(input.consume_mouse(), (4, 1));
    assert_eq!((input.mouse_dx, input.mouse_dy), (0, 0));
    assert_eq!(input.consume_mouse(), (0, 0));
}

#[test]
fn camera_movement_scales_with_delta_time() {
    // One second of Space and KeyA: up by the movement speed, left by the
    // movement speed.
    let mut cam = Camera::new();
    let keys = vec![Key::Space, Key::KeyA];
    cam.apply_pressed_keys(&keys, FP_ONE);
    assert_eq!(cam.position.y, MOVE_SPEED);
    assert_eq!(cam.position.x, -MOVE_SPEED);

    // Two half-second frames move exactly as far as one one-second frame:
    // movement speed is independent of frame rate.
    let mut cam2 = Camera::new();
    cam2.apply_pressed_keys(&keys, FP_ONE / 2);
    cam2.apply_pressed_keys(&keys, FP_ONE / 2);
    assert_eq!(cam2.position, cam.position);
}

#[test]
fn quit_keys_bypass_the_pressed_set() {
    let mut input = InputState::new();
    assert_eq!(
        handle_event(&mut input, true, &WindowEvent::KeyPressed(Key::Escape)),
        EventControl::Exit
    );
    assert_eq!(
        handle_event(&mut input, true, &WindowEvent::KeyPressed(Key::KeyQ)),
        EventControl::Exit
    );
    assert_eq!(input.pressed_keys.len(), 0);
    assert_eq!(
        handle_event(&mut input, true, &WindowEvent::KeyPressed(Key::KeyW)),
        EventControl::Continue
    );
    assert!(input.is_pressed(Key::KeyW));
    assert_eq!(
        handle_event(&mut input, true, &WindowEvent::KeyReleased(Key::KeyW)),
        EventControl::Continue
    );
    assert!(!input.is_pressed(Key::KeyW));
    assert_eq!(
        handle_event(&mut input, true, &WindowEvent::CloseRequested),
        EventControl::Exit
    );
}

#[test]
fn watchdog_termination_stops_the_event_loop() {
    // Simulate the render thread dying: the watchdog lowers the flag, and
    // the next event-loop iteration requests shutdown instead of running on.
    let mut liveness = Liveness::new();
    let mut input = InputState::new();
    assert!(liveness.is_alive());
    assert_eq!(
        handle_event(&mut input, liveness.is_alive(), &WindowEvent::MouseMotion(1, 1)),
        EventControl::Continue
    );
    liveness.render_terminated();
    assert!(!liveness.is_alive());
    assert_eq!(
        handle_event(&mut input, liveness.is_alive(), &WindowEvent::MouseMotion(1, 1)),
        EventControl::Exit
    );
}

#[test]
fn helicopter_rotor_spins_in_place_while_translating() {
    // root -> terrain (geometry, no transform) -> body (animated position
    // and heading) -> door, main rotor (pivot at its own origin, spinning
    // about y), tail rotor (off-origin pivot).
    let mut g = SceneGraph::new();
    let terrain = g.add_child(0, SceneNode::from_vao(1, 300));
    let body = g.add_child(terrain, SceneNode::from_vao(2, 400));
    let _door = g.add_child(body, SceneNode::from_vao(5, 50));
    let mut main_rotor_node = SceneNode::from_vao(3, 100);
    main_rotor_node.reference_point = Vec3::zero();
    let main_rotor = g.add_child(body, main_rotor_node);
    let mut tail_rotor_node = SceneNode::from_vao(4, 120);
    tail_rotor_node.reference_point = Vec3::new(22938, 150733, 681575);
    let tail_rotor = g.add_child(body, tail_rotor_node);

    let mut cam = Camera::new();
    let no_keys: Vec<Key> = Vec::new();

    // First frame: the body sits at (10, 0, -20) with a quarter-turn
    // heading; the rotor has turned a quarter turn.
    let body_pos_1 = Vec3::new(units(10), 0, -units(20));
    let updates_1 = vec![
        NodeUpdate { index: body, position: body_pos_1, rotation: rot_y_quarter() },
        NodeUpdate { index: main_rotor, position: Vec3::zero(), rotation: rot_y_quarter() },
    ];
    let calls = frame_step(&mut g, &mut cam, &no_keys, 0, &updates_1).unwrap();

    // Terrain has no transform: its world transform is the identity.
    assert_eq!(g.nodes[terrain].world_transform, Transform::identity());
    // The body's world translation is exactly its animated position.
    let bw = g.nodes[body].world_transform;
    assert_eq!((bw.tx, bw.ty, bw.tz), (units(10), 0, -units(20)));
    // The main rotor spins in place: it translates with the body, not
    // about the world origin.
    let rw = g.nodes[main_rotor].world_transform;
    assert_eq!((rw.tx, rw.ty, rw.tz), (units(10), 0, -units(20)));
    // Two quarter turns about y compose to a half turn, exactly.
    assert_eq!((rw.m00, rw.m02, rw.m20, rw.m22), (-FP_ONE, 0, 0, -FP_ONE));
    assert_eq!((rw.m11, rw.m01, rw.m10), (FP_ONE, 0, 0));

    // Draw order is the deterministic depth-first traversal: terrain,
    // body, door, main rotor, tail rotor.
    let vaos: Vec<u32> = calls.iter().map(|c| c.geometry.vao_id).collect();
    assert_eq!(vaos, vec![1, 2, 5, 3, 4]);
    assert_eq!(calls[3].world_transform, rw);
    assert_eq!(calls[4].world_transform, g.nodes[tail_rotor].world_transform);

    // Second frame: the body has moved on; the rotor keeps tracking it.
    let body_pos_2 = Vec3::new(units(12), units(1), -units(18));
    let updates_2 = vec![
        NodeUpdate { index: body, position: body_pos_2, rotation: rot_y_quarter() },
        NodeUpdate {
            index: main_rotor,
            position: Vec3::zero(),
            rotation: Rotation::new(Angle::zero(), Angle::new(0, -FP_ONE), Angle::zero()),
        },
    ];
    let _ = frame_step(&mut g, &mut cam, &no_keys, 0, &updates_2).unwrap();
    let rw2 = g.nodes[main_rotor].world_transform;
    assert_eq!((rw2.tx, rw2.ty, rw2.tz), (units(12), units(1), -units(18)));
    // A quarter-turn heading followed by a half-turn rotor: three quarter
    // turns about y in total, exactly.
    assert_eq!((rw2.m00, rw2.m02, rw2.m20, rw2.m22), (0, -FP_ONE, FP_ONE, 0));
}
