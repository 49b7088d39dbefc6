//! Coordination of the three threads: the event thread, the render thread
//! and the liveness watchdog.
//!
//! The watchdog blocks until the render thread terminates; under correct
//! operation that never happens, and if it does, the watchdog lowers the
//! liveness flag exactly once. The event thread polls the flag on every
//! iteration and translates raw window events into input-state updates,
//! deciding after each event whether the process should keep running. The
//! decision logic lives here; the blocking, the window system and the
//! process exit stay outside the engine.

use vstd::prelude::*;
use crate::input::{is_quit_key, spec_key_down, spec_key_up, InputState, Key};

verus! {

/// The render thread's liveness flag: initialized true, lowered at most
/// once by the watchdog, and never raised again — the transition is
/// monotonic, which is what lets the event thread poll it without a
/// handshake.
pub struct Liveness {
    pub render_thread_alive: bool,
}

impl Liveness {
    /// A healthy renderer.
    pub fn new() -> (l: Liveness)
        ensures
            l.render_thread_alive,
    {
        Liveness { render_thread_alive: true }
    }

    /// The watchdog observed the render thread terminating abnormally:
    /// lower the flag. This is the only writer, and no operation of this
    /// type ever sets the flag back to true.
    pub fn render_terminated(&mut self)
        ensures
            !final(self).render_thread_alive,
    {
        self.render_thread_alive = false;
    }

    /// Read the flag, as the event thread does once per iteration.
    pub fn is_alive(&self) -> (b: bool)
        ensures
            b == self.render_thread_alive,
    {
        self.render_thread_alive
    }
}

/// A raw window or device event, already mapped to the engine's key set;
/// events that carry no key of interest are dropped before this point.
#[derive(Clone, Copy, PartialEq, Eq, Structural, Debug)]
pub enum WindowEvent {
    /// The window system asked to close the window.
    CloseRequested,
    /// A key went down.
    KeyPressed(Key),
    /// A key went up.
    KeyReleased(Key),
    /// Relative mouse motion, in fixed-point pixels.
    MouseMotion(i64, i64),
}

/// What the event thread decides after one event: keep running, or request
/// process shutdown.
#[derive(Clone, Copy, PartialEq, Eq, Structural, Debug)]
pub enum EventControl {
    Continue,
    Exit,
}

/// One iteration of the event thread: translate the event into an
/// input-state update and decide whether to keep running. Shutdown is
/// requested exactly when the render thread is no longer alive, the window
/// was asked to close, or a quit key went down. Quit keys bypass the
/// pressed-key set entirely; a key-up for a key that is not down is a
/// no-op; mouse motion accumulates and never overwrites.
pub fn handle_event(input: &mut InputState, render_alive: bool, event: &WindowEvent) -> (c:
    EventControl)
    requires
        old(input).wf(),
    ensures
        final(input).wf(),
        (c == EventControl::Exit) <==> (!render_alive || *event is CloseRequested || (*event
            matches WindowEvent::KeyPressed(k) && is_quit_key(k))),
        *event is CloseRequested ==> *final(input) == *old(input),
        *event matches WindowEvent::KeyPressed(k) ==> if is_quit_key(k) {
            *final(input) == *old(input)
        } else {
            final(input).pressed_keys@ == spec_key_down(old(input).pressed_keys@, k)
                && final(input).mouse_dx == old(input).mouse_dx && final(input).mouse_dy == old(
                input,
            ).mouse_dy
        },
        *event matches WindowEvent::KeyReleased(k) ==> final(input).pressed_keys@ == spec_key_up(
            old(input).pressed_keys@,
            k,
        ) && final(input).mouse_dx == old(input).mouse_dx && final(input).mouse_dy == old(
            input,
        ).mouse_dy,
        *event matches WindowEvent::MouseMotion(dx, dy) ==> final(input).pressed_keys == old(
            input,
        ).pressed_keys && final(input).mouse_dx as int == crate::input::sat_add_model(
            old(input).mouse_dx as int,
            dx as int,
        ) && final(input).mouse_dy as int == crate::input::sat_add_model(
            old(input).mouse_dy as int,
            dy as int,
        ),
{
    let mut exit = !render_alive;
    match event {
        WindowEvent::CloseRequested => {
            exit = true;
        },
        WindowEvent::KeyPressed(k) => {
            if is_quit_key_exec(*k) {
                exit = true;
            } else {
                input.key_down(*k);
            }
        },
        WindowEvent::KeyReleased(k) => {
            input.key_up(*k);
        },
        WindowEvent::MouseMotion(dx, dy) => {
            input.accumulate_mouse(*dx, *dy);
        },
    }
    if exit {
        EventControl::Exit
    } else {
        EventControl::Continue
    }
}

/// Whether `k` requests immediate shutdown.
pub fn is_quit_key_exec(k: Key) -> (b: bool)
    ensures
        b == is_quit_key(k),
{
    match k {
        Key::Escape => true,
        Key::KeyQ => true,
        _ => false,
    }
}

} // verus!
