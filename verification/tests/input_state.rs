use scene_graph::camera::{camera_rates, CameraRates};
use scene_graph::event_loop::{
    control_flow, health_after_render, track_keys, track_window, ControlFlow, Event, KeyState,
    WindowSize,
};
use scene_graph::input::{Key, PressedKeys};

fn held(keys: &PressedKeys) -> Vec<Key> {
    (0..keys.len()).map(|i| keys.get(i)).collect()
}

fn rates_of(pressed: &[Key]) -> CameraRates {
    let mut keys = PressedKeys::new();
    for key in pressed {
        keys.press(*key);
    }
    camera_rates(&keys)
}

const STILL: CameraRates = CameraRates { trans_x: 0, trans_y: 0, trans_z: 0, rot_x: 0, rot_y: 0 };

#[test]
fn no_key_is_held_at_first() {
    let keys = PressedKeys::new();
    assert_eq!(keys.len(), 0);
    assert!(!keys.contains(Key::A));
}

#[test]
fn pressing_a_key_twice_records_it_once() {
    let mut keys = PressedKeys::new();
    keys.press(Key::W);
    assert_eq!(keys.len(), 1);
    keys.press(Key::W);
    assert_eq!(keys.len(), 1);
    assert_eq!(held(&keys), vec![Key::W]);
}

#[test]
fn releasing_a_key_that_is_not_held_changes_nothing() {
    let mut keys = PressedKeys::new();
    keys.press(Key::A);
    keys.press(Key::Other(17));
    keys.release(Key::D);
    keys.release(Key::Other(18));
    assert_eq!(held(&keys), vec![Key::A, Key::Other(17)]);
    let mut none = PressedKeys::new();
    none.release(Key::A);
    assert_eq!(none.len(), 0);
}

#[test]
fn releasing_a_held_key_keeps_the_others_in_order() {
    let mut keys = PressedKeys::new();
    keys.press(Key::A);
    keys.press(Key::Space);
    keys.press(Key::Left);
    keys.release(Key::Space);
    assert_eq!(held(&keys), vec![Key::A, Key::Left]);
    assert!(!keys.contains(Key::Space));
    assert_eq!(keys.position(Key::Left), Some(1));
    assert_eq!(keys.position(Key::Space), None);
}

#[test]
fn keys_with_different_codes_are_different_keys() {
    let mut keys = PressedKeys::new();
    keys.press(Key::Other(1));
    keys.press(Key::Other(2));
    keys.press(Key::Other(1));
    assert_eq!(held(&keys), vec![Key::Other(1), Key::Other(2)]);
}

#[test]
fn no_key_gives_no_motion() {
    assert_eq!(rates_of(&[]), STILL);
    assert_eq!(rates_of(&[Key::Escape, Key::Other(3)]), STILL);
}

#[test]
fn each_steering_key_has_its_rate() {
    assert_eq!(rates_of(&[Key::A]), CameraRates { trans_x: 30, ..STILL });
    assert_eq!(rates_of(&[Key::D]), CameraRates { trans_x: -30, ..STILL });
    assert_eq!(rates_of(&[Key::S]), CameraRates { trans_y: 30, ..STILL });
    assert_eq!(rates_of(&[Key::W]), CameraRates { trans_y: -30, ..STILL });
    assert_eq!(rates_of(&[Key::LShift]), CameraRates { trans_z: 10, ..STILL });
    assert_eq!(rates_of(&[Key::Space]), CameraRates { trans_z: -10, ..STILL });
    assert_eq!(rates_of(&[Key::Down]), CameraRates { rot_x: 60, ..STILL });
    assert_eq!(rates_of(&[Key::Up]), CameraRates { rot_x: -60, ..STILL });
    assert_eq!(rates_of(&[Key::Right]), CameraRates { rot_y: 60, ..STILL });
    assert_eq!(rates_of(&[Key::Left]), CameraRates { rot_y: -60, ..STILL });
}

#[test]
fn keys_held_together_add_up() {
    assert_eq!(
        rates_of(&[Key::A, Key::W, Key::Space, Key::Up, Key::Right]),
        CameraRates { trans_x: 30, trans_y: -30, trans_z: -10, rot_x: -60, rot_y: 60 }
    );
}

#[test]
fn opposed_keys_cancel() {
    assert_eq!(rates_of(&[Key::A, Key::D]), STILL);
    assert_eq!(rates_of(&[Key::Left, Key::S, Key::Right]), CameraRates { trans_y: 30, ..STILL });
}

#[test]
fn close_request_ends_the_loop() {
    assert_eq!(control_flow(true, Event::CloseRequested), ControlFlow::Exit);
}

#[test]
fn escape_ends_the_loop_whether_it_goes_down_or_up() {
    let down = Event::Keyboard { state: KeyState::Pressed, key: Key::Escape };
    let up = Event::Keyboard { state: KeyState::Released, key: Key::Escape };
    assert_eq!(control_flow(true, down), ControlFlow::Exit);
    assert_eq!(control_flow(true, up), ControlFlow::Exit);
}

#[test]
fn other_events_keep_the_loop_waiting() {
    let key = Event::Keyboard { state: KeyState::Pressed, key: Key::A };
    assert_eq!(control_flow(true, key), ControlFlow::Wait);
    assert_eq!(control_flow(true, Event::Other), ControlFlow::Wait);
    assert_eq!(control_flow(true, Event::Resized { width: 3, height: 4 }), ControlFlow::Wait);
}

#[test]
fn unhealthy_render_thread_ends_the_loop_on_any_event() {
    let key = Event::Keyboard { state: KeyState::Pressed, key: Key::A };
    assert_eq!(control_flow(false, key), ControlFlow::Exit);
    assert_eq!(control_flow(false, Event::Other), ControlFlow::Exit);
    assert_eq!(control_flow(false, Event::CloseRequested), ControlFlow::Exit);
}

#[test]
fn render_fault_clears_the_health_flag_for_good() {
    assert!(health_after_render(true, true));
    assert!(!health_after_render(true, false));
    assert!(!health_after_render(false, true));
    assert!(!health_after_render(false, false));
    let after = health_after_render(true, false);
    assert_eq!(control_flow(after, Event::Other), ControlFlow::Exit);
}

#[test]
fn keyboard_events_are_recorded() {
    let mut keys = PressedKeys::new();
    track_keys(&mut keys, Event::Keyboard { state: KeyState::Pressed, key: Key::A });
    track_keys(&mut keys, Event::Keyboard { state: KeyState::Pressed, key: Key::Escape });
    track_keys(&mut keys, Event::Keyboard { state: KeyState::Pressed, key: Key::A });
    assert_eq!(held(&keys), vec![Key::A, Key::Escape]);
    track_keys(&mut keys, Event::Keyboard { state: KeyState::Released, key: Key::A });
    track_keys(&mut keys, Event::Keyboard { state: KeyState::Released, key: Key::W });
    assert_eq!(held(&keys), vec![Key::Escape]);
}

#[test]
fn events_that_are_not_about_keys_leave_the_keys_alone() {
    let mut keys = PressedKeys::new();
    keys.press(Key::S);
    track_keys(&mut keys, Event::CloseRequested);
    track_keys(&mut keys, Event::Other);
    track_keys(&mut keys, Event::Resized { width: 1, height: 2 });
    assert_eq!(held(&keys), vec![Key::S]);
}

#[test]
fn resize_sets_the_size_and_the_flag() {
    let mut window = WindowSize { width: 800, height: 600, resized: false };
    track_window(&mut window, Event::Other);
    assert_eq!(window, WindowSize { width: 800, height: 600, resized: false });
    track_window(&mut window, Event::Resized { width: 1024, height: 768 });
    assert_eq!(window, WindowSize { width: 1024, height: 768, resized: true });
    track_window(&mut window, Event::CloseRequested);
    assert_eq!(window, WindowSize { width: 1024, height: 768, resized: true });
}
