//! A scene-graph engine for a real-time renderer: fixed-point affine
//! transforms, an arena-based scene tree with transform propagation and draw
//! traversal, shared input state for a render loop, and the liveness
//! bookkeeping that coordinates the render, input and watchdog threads.

pub mod frame;
pub mod input;
pub mod scene;
pub mod session;
pub mod transform;
