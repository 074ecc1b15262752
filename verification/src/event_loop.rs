//! What the event loop decides on each event: whether to go on waiting for
//! events or to end, and how the shared input state changes.
//!
//! The event loop is the only place that ends the program. It never looks at
//! the render thread itself: a fault there reaches it as the health flag,
//! which a watchdog clears when the render thread ends abnormally.

use vstd::prelude::*;
use crate::input::{spec_press, spec_release, Key, PressedKeys};

verus! {

/// Whether a key went down or up.
#[derive(Clone, Copy, Debug, PartialEq, Eq, Structural)]
pub enum KeyState {
    Pressed,
    Released,
}

/// An event of the window system, as far as the event loop acts on it.
#[derive(Clone, Copy, Debug, PartialEq, Eq, Structural)]
pub enum Event {
    /// The user asked to close the window.
    CloseRequested,
    /// A key went down or up.
    Keyboard { state: KeyState, key: Key },
    /// The window has a new size.
    Resized { width: u32, height: u32 },
    /// Anything else.
    Other,
}

/// What the event loop does after an event.
#[derive(Clone, Copy, Debug, PartialEq, Eq, Structural)]
pub enum ControlFlow {
    /// Wait for the next event.
    Wait,
    /// Stop dispatching events and end the program.
    Exit,
}

/// The size of the window, and whether it has changed since the window was
/// opened.
#[derive(Clone, Copy, Debug, PartialEq, Eq, Structural)]
pub struct WindowSize {
    pub width: u32,
    pub height: u32,
    pub resized: bool,
}

/// Whether `event` asks the program to end: a request to close the window, or
/// the escape key going down or up.
pub open spec fn spec_asks_to_exit(event: Event) -> bool {
    match event {
        Event::CloseRequested => true,
        Event::Keyboard { state, key } => key == Key::Escape,
        _ => false,
    }
}

/// What the event loop does after `event`: it ends if the render thread is
/// no longer healthy or the event asks for it, and else goes on waiting.
pub open spec fn spec_control_flow(healthy: bool, event: Event) -> ControlFlow {
    if !healthy || spec_asks_to_exit(event) {
        ControlFlow::Exit
    } else {
        ControlFlow::Wait
    }
}

/// The held keys after `event`.
pub open spec fn spec_keys_after(keys: Seq<Key>, event: Event) -> Seq<Key> {
    match event {
        Event::Keyboard { state: KeyState::Pressed, key } => spec_press(keys, key),
        Event::Keyboard { state: KeyState::Released, key } => spec_release(keys, key),
        _ => keys,
    }
}

/// The window size after `event`.
pub open spec fn spec_window_after(window: WindowSize, event: Event) -> WindowSize {
    match event {
        Event::Resized { width, height } => WindowSize { width, height, resized: true },
        _ => window,
    }
}

/// What the event loop does after `event`, given the health flag of the
/// render thread.
pub fn control_flow(healthy: bool, event: Event) -> (flow: ControlFlow)
    ensures
        flow == spec_control_flow(healthy, event),
        !healthy ==> flow == ControlFlow::Exit,
{
    if !healthy {
        return ControlFlow::Exit;
    }
    match event {
        Event::CloseRequested => ControlFlow::Exit,
        Event::Keyboard { state, key } => {
            if key == Key::Escape {
                ControlFlow::Exit
            } else {
                ControlFlow::Wait
            }
        },
        _ => ControlFlow::Wait,
    }
}

/// Records in `keys` what `event` says about the keyboard. Events that are
/// not about a key leave `keys` as they are.
pub fn track_keys(keys: &mut PressedKeys, event: Event)
    ensures
        final(keys)@ == spec_keys_after(old(keys)@, event),
{
    match event {
        Event::Keyboard { state, key } => {
            match state {
                KeyState::Pressed => keys.press(key),
                KeyState::Released => keys.release(key),
            }
        },
        _ => {},
    }
}

/// Records in `window` what `event` says about the size of the window.
pub fn track_window(window: &mut WindowSize, event: Event)
    ensures
        *final(window) == spec_window_after(*old(window), event),
{
    match event {
        Event::Resized { width, height } => {
            *window = WindowSize { width, height, resized: true };
        },
        _ => {},
    }
}

/// The health flag after the render thread has ended: a render thread that
/// ended abnormally clears the flag, and nothing sets it again.
pub open spec fn spec_health_after_render(healthy: bool, ended_normally: bool) -> bool {
    healthy && ended_normally
}

/// The health flag after the render thread has ended.
pub fn health_after_render(healthy: bool, ended_normally: bool) -> (after: bool)
    ensures
        after == spec_health_after_render(healthy, ended_normally),
{
    healthy && ended_normally
}

/// Once the render thread has ended abnormally, the event loop ends on the
/// next event, whatever the event is and whatever the flag was before.
pub proof fn lemma_render_fault_ends_event_loop(healthy: bool, event: Event)
    ensures
        spec_control_flow(spec_health_after_render(healthy, false), event) == ControlFlow::Exit,
{
}

} // verus!
