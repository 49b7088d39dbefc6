//! Per-frame orchestration of the render loop.
//!
//! Every frame runs three phases in a fixed order: consume the input
//! snapshot (continuous key effects scaled by the delta time since the
//! previous frame), apply the time-driven animation updates to the scene,
//! and recompute the world transforms from the root before collecting the
//! frame's draw calls. Later phases read state written by earlier ones, so
//! the order is part of the contract.

use vstd::prelude::*;
use crate::input::{sat_add, sat_add_model, Key};
use crate::scene::{
    draw_calls, node_params_wf, propagated, same_structure, subtree_fits, wf_nodes, DrawCall,
    SceneGraph, SceneNode,
};
use crate::transform::{
    fdiv, fp_mul, identity_model, rotation_wf, vec3_in_range, Rotation, Transform, Vec3,
    Vec3Model,
};

verus! {

/// Movement speed of the camera: fixed-point world units per second.
pub const MOVE_SPEED: i64 = 2621440;

/// Rotation speed of the camera: fixed-point radians per second.
pub const ROT_SPEED: i64 = 32768;

/// Largest delta time accepted for one frame, in fixed-point seconds.
pub const DELTA_TIME_LIMIT: i64 = 65536000;

/// How far one frame moves the camera: the delta time scaled by the
/// movement speed.
pub open spec fn move_step(delta_time: int) -> int {
    fdiv(delta_time * 2621440)
}

/// How far one frame turns the camera: the delta time scaled by the
/// rotation speed.
pub open spec fn rot_step(delta_time: int) -> int {
    fdiv(delta_time * 32768)
}

/// Mathematical model of the camera state.
pub ghost struct CameraModel {
    pub position: Vec3Model,
    pub pitch: int,
    pub yaw: int,
}

/// Free-fly camera state, driven by the held keys: a position and two
/// view angles, all in fixed point.
#[derive(Clone, Copy, PartialEq, Eq, Structural, Debug)]
pub struct Camera {
    pub position: Vec3,
    pub pitch: i64,
    pub yaw: i64,
}

impl View for Camera {
    type V = CameraModel;

    open spec fn view(&self) -> CameraModel {
        CameraModel {
            position: self.position@,
            pitch: self.pitch as int,
            yaw: self.yaw as int,
        }
    }
}

/// The continuous effect of one held key over one frame. Movement and
/// rotation accumulate with saturation; the quit keys have no continuous
/// effect.
pub open spec fn spec_apply_key(c: CameraModel, k: Key, delta_time: int) -> CameraModel {
    let m = move_step(delta_time);
    let r = rot_step(delta_time);
    match k {
        Key::Space => CameraModel {
            position: Vec3Model { y: sat_add_model(c.position.y, m), ..c.position },
            ..c
        },
        Key::LShift => CameraModel {
            position: Vec3Model { y: sat_add_model(c.position.y, -m), ..c.position },
            ..c
        },
        Key::KeyD => CameraModel {
            position: Vec3Model { x: sat_add_model(c.position.x, m), ..c.position },
            ..c
        },
        Key::KeyA => CameraModel {
            position: Vec3Model { x: sat_add_model(c.position.x, -m), ..c.position },
            ..c
        },
        Key::KeyS => CameraModel {
            position: Vec3Model { z: sat_add_model(c.position.z, m), ..c.position },
            ..c
        },
        Key::KeyW => CameraModel {
            position: Vec3Model { z: sat_add_model(c.position.z, -m), ..c.position },
            ..c
        },
        Key::ArrowUp => CameraModel { pitch: sat_add_model(c.pitch, r), ..c },
        Key::ArrowDown => CameraModel { pitch: sat_add_model(c.pitch, -r), ..c },
        Key::ArrowLeft => CameraModel { yaw: sat_add_model(c.yaw, r), ..c },
        Key::ArrowRight => CameraModel { yaw: sat_add_model(c.yaw, -r), ..c },
        Key::Escape => c,
        Key::KeyQ => c,
    }
}

/// The camera state after the effects of the first `n` snapshot keys, in
/// snapshot order.
pub open spec fn spec_apply_keys_upto(
    c: CameraModel,
    keys: Seq<Key>,
    n: int,
    delta_time: int,
) -> CameraModel
    decreases n,
{
    if n <= 0 {
        c
    } else {
        spec_apply_key(spec_apply_keys_upto(c, keys, n - 1, delta_time), keys[n - 1], delta_time)
    }
}

/// The camera state after one frame's input consumption: the effect of
/// every held key in the snapshot, applied in snapshot order.
pub open spec fn camera_after_keys(c: CameraModel, keys: Seq<Key>, delta_time: int) -> CameraModel {
    spec_apply_keys_upto(c, keys, keys.len() as int, delta_time)
}

impl Camera {
    /// A camera at the origin, looking down the default axis.
    pub fn new() -> (c: Camera)
        ensures
            c@.position == (Vec3Model { x: 0int, y: 0int, z: 0int }),
            c@.pitch == 0,
            c@.yaw == 0,
    {
        Camera { position: Vec3::zero(), pitch: 0, yaw: 0 }
    }

    /// Apply the continuous effect of one held key for this frame.
    pub fn apply_key(&mut self, k: Key, delta_time: i64)
        requires
            0 <= delta_time <= DELTA_TIME_LIMIT,
        ensures
            final(self)@ == spec_apply_key(old(self)@, k, delta_time as int),
    {
        let m = fp_mul(delta_time, MOVE_SPEED);
        let r = fp_mul(delta_time, ROT_SPEED);
        match k {
            Key::Space => {
                self.position.y = sat_add(self.position.y, m);
            },
            Key::LShift => {
                self.position.y = sat_add(self.position.y, -m);
            },
            Key::KeyD => {
                self.position.x = sat_add(self.position.x, m);
            },
            Key::KeyA => {
                self.position.x = sat_add(self.position.x, -m);
            },
            Key::KeyS => {
                self.position.z = sat_add(self.position.z, m);
            },
            Key::KeyW => {
                self.position.z = sat_add(self.position.z, -m);
            },
            Key::ArrowUp => {
                self.pitch = sat_add(self.pitch, r);
            },
            Key::ArrowDown => {
                self.pitch = sat_add(self.pitch, -r);
            },
            Key::ArrowLeft => {
                self.yaw = sat_add(self.yaw, r);
            },
            Key::ArrowRight => {
                self.yaw = sat_add(self.yaw, -r);
            },
            Key::Escape => {},
            Key::KeyQ => {},
        }
    }

    /// Apply the continuous effects of every key in this frame's snapshot,
    /// in snapshot order, scaled by the frame's delta time so that
    /// movement speed is independent of frame rate.
    pub fn apply_pressed_keys(&mut self, keys: &Vec<Key>, delta_time: i64)
        requires
            0 <= delta_time <= DELTA_TIME_LIMIT,
        ensures
            final(self)@ == camera_after_keys(old(self)@, keys@, delta_time as int),
    {
        let mut n: usize = 0;
        while n < keys.len()
            invariant
                0 <= delta_time <= DELTA_TIME_LIMIT,
                0 <= n <= keys@.len(),
                self@ == spec_apply_keys_upto(old(self)@, keys@, n as int, delta_time as int),
            decreases keys@.len() - n,
        {
            self.apply_key(keys[n], delta_time);
            n = n + 1;
        }
    }
}

/// One per-frame animation update: the new position and rotation of one
/// node, computed by the procedural animation outside the engine.
#[derive(Clone, Copy, Debug)]
pub struct NodeUpdate {
    pub index: usize,
    pub position: Vec3,
    pub rotation: Rotation,
}

/// An update addresses a node of the arena and carries parameters the
/// transform engine accepts.
pub open spec fn update_valid(ns: Seq<SceneNode>, u: NodeUpdate) -> bool {
    &&& (u.index as int) < ns.len()
    &&& vec3_in_range(u.position@)
    &&& rotation_wf(u.rotation@)
}

/// The arena after one update: the addressed node with its new pose.
pub open spec fn apply_update_model(ns: Seq<SceneNode>, u: NodeUpdate) -> Seq<SceneNode> {
    ns.update(
        u.index as int,
        SceneNode { position: u.position, rotation: u.rotation, ..ns[u.index as int] },
    )
}

/// The arena after the first `n` updates, applied in order.
pub open spec fn apply_updates_upto(ns: Seq<SceneNode>, us: Seq<NodeUpdate>, n: int) -> Seq<
    SceneNode,
>
    decreases n,
{
    if n <= 0 {
        ns
    } else {
        apply_update_model(apply_updates_upto(ns, us, n - 1), us[n - 1])
    }
}

/// The arena after one frame's scene update: every animation update
/// applied, in order.
pub open spec fn scene_after_updates(ns: Seq<SceneNode>, us: Seq<NodeUpdate>) -> Seq<SceneNode> {
    apply_updates_upto(ns, us, us.len() as int)
}

impl SceneGraph {
    /// Set a node's animated pose: its position and rotation, leaving the
    /// pivot, geometry, world cache and children untouched.
    pub fn set_node_pose(&mut self, i: usize, position: Vec3, rotation: Rotation)
        requires
            wf_nodes(old(self).nodes@),
            i < old(self).nodes@.len(),
            vec3_in_range(position@),
            rotation_wf(rotation@),
        ensures
            final(self).nodes@ == old(self).nodes@.update(
                i as int,
                SceneNode { position, rotation, ..old(self).nodes@[i as int] },
            ),
            wf_nodes(final(self).nodes@),
    {
        self.nodes[i].position = position;
        self.nodes[i].rotation = rotation;
        proof {
            let ns0 = old(self).nodes@;
            let ns = self.nodes@;
            assert(ns =~= ns0.update(
                i as int,
                SceneNode { position, rotation, ..ns0[i as int] },
            ));
            assert forall|j: int| 0 <= j < ns.len() implies node_params_wf(#[trigger] ns[j]) by {
                assert(node_params_wf(ns0[j]));
            }
            assert forall|j: int, k: int|
                0 <= j < ns.len() && 0 <= k < ns[j].children@.len() implies j
                < #[trigger] ns[j].children@[k] < ns.len() by {
                assert(ns[j].children == ns0[j].children);
                assert(ns0[j].children@[k] == ns[j].children@[k]);
            }
            assert forall|j1: int, k1: int, j2: int, k2: int|
                #![trigger ns[j1].children@[k1], ns[j2].children@[k2]]
                0 <= j1 < ns.len() && 0 <= k1 < ns[j1].children@.len() && 0 <= j2 < ns.len() && 0
                    <= k2 < ns[j2].children@.len() && ns[j1].children@[k1] == ns[j2].children@[k2]
                implies j1 == j2 && k1 == k2 by {
                assert(ns[j1].children == ns0[j1].children);
                assert(ns[j2].children == ns0[j2].children);
                assert(ns0[j1].children@[k1] == ns0[j2].children@[k2]);
            }
        }
    }
}

/// One iteration of the render loop, GPU work aside: consume this frame's
/// input snapshot into the camera, apply the animation updates, propagate
/// the world transforms from the root with the identity incoming
/// transform, and collect the frame's draw calls in traversal order. Each
/// phase reads state the previous one wrote, so they run in exactly this
/// order. Returns `None`, abandoning the frame, exactly when a transform
/// composition leaves the representable range.
pub fn frame_step(
    g: &mut SceneGraph,
    camera: &mut Camera,
    pressed: &Vec<Key>,
    delta_time: i64,
    updates: &Vec<NodeUpdate>,
) -> (r: Option<Vec<DrawCall>>)
    requires
        wf_nodes(old(g).nodes@),
        old(g).nodes@.len() > 0,
        0 <= delta_time <= DELTA_TIME_LIMIT,
        forall|n: int|
            0 <= n < updates@.len() ==> update_valid(old(g).nodes@, #[trigger] updates@[n]),
    ensures
        final(camera)@ == camera_after_keys(old(camera)@, pressed@, delta_time as int),
        same_structure(scene_after_updates(old(g).nodes@, updates@), final(g).nodes@),
        r is Some <==> subtree_fits(
            scene_after_updates(old(g).nodes@, updates@),
            0,
            identity_model(),
        ),
        r is Some ==> propagated(
            scene_after_updates(old(g).nodes@, updates@),
            final(g).nodes@,
            0,
            identity_model(),
        ),
        r is Some ==> r->Some_0@ == draw_calls(final(g).nodes@, 0),
{
    camera.apply_pressed_keys(pressed, delta_time);
    let ghost ns0 = g.nodes@;
    let num = updates.len();
    let mut n: usize = 0;
    while n < num
        invariant
            wf_nodes(ns0),
            ns0.len() > 0,
            num == updates@.len(),
            0 <= n <= num,
            forall|m: int| 0 <= m < num ==> update_valid(ns0, #[trigger] updates@[m]),
            g.nodes@ == apply_updates_upto(ns0, updates@, n as int),
            g.nodes@.len() == ns0.len(),
            wf_nodes(g.nodes@),
        decreases num - n,
    {
        let u = updates[n];
        g.set_node_pose(u.index, u.position, u.rotation);
        proof {
            assert(updates@[n as int] == u);
            assert(g.nodes@ == apply_update_model(
                apply_updates_upto(ns0, updates@, n as int),
                u,
            ));
        }
        n = n + 1;
    }
    let ghost ns1 = g.nodes@;
    let identity = Transform::identity();
    let ok = g.update_node_transformations(0, &identity);
    if !ok {
        return None;
    }
    let mut calls: Vec<DrawCall> = Vec::new();
    g.draw_scene(0, &mut calls);
    proof {
        assert(calls@ =~= draw_calls(g.nodes@, 0));
    }
    Some(calls)
}

} // verus!
