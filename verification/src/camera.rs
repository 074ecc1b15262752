//! How the held keys steer the free-fly camera.
//!
//! Each steering key moves or turns the camera along one axis at a fixed
//! rate. The rates here are in units for each second; the frame loop scales
//! them by the time that the last frame took.

use vstd::prelude::*;
use crate::input::{Key, PressedKeys};

verus! {

/// Units for each second that `A` and `D` move the camera along x.
pub const TRANSLATION_RATE_X: i32 = 30;

/// Units for each second that `S` and `W` move the camera along y.
pub const TRANSLATION_RATE_Y: i32 = 30;

/// Units for each second that `LShift` and `Space` move the camera along z.
pub const TRANSLATION_RATE_Z: i32 = 10;

/// Degrees for each second that `Down` and `Up` turn the camera about x.
pub const ROTATION_RATE_X: i32 = 60;

/// Degrees for each second that `Right` and `Left` turn the camera about y.
pub const ROTATION_RATE_Y: i32 = 60;

/// The rates at which the camera moves along and turns about its axes.
#[derive(Clone, Copy, Debug, PartialEq, Eq, Structural)]
pub struct CameraRates {
    pub trans_x: i32,
    pub trans_y: i32,
    pub trans_z: i32,
    pub rot_x: i32,
    pub rot_y: i32,
}

/// 1 if `key` is among `keys`, else 0.
pub open spec fn spec_held(keys: Seq<Key>, key: Key) -> int {
    if keys.contains(key) {
        1
    } else {
        0
    }
}

/// The rates that one held key contributes.
pub open spec fn spec_key_rates(key: Key) -> CameraRates {
    let still = CameraRates { trans_x: 0, trans_y: 0, trans_z: 0, rot_x: 0, rot_y: 0 };
    match key {
        Key::A => CameraRates { trans_x: 30, ..still },
        Key::D => CameraRates { trans_x: -30i32, ..still },
        Key::S => CameraRates { trans_y: 30, ..still },
        Key::W => CameraRates { trans_y: -30i32, ..still },
        Key::LShift => CameraRates { trans_z: 10, ..still },
        Key::Space => CameraRates { trans_z: -10i32, ..still },
        Key::Down => CameraRates { rot_x: 60, ..still },
        Key::Up => CameraRates { rot_x: -60i32, ..still },
        Key::Right => CameraRates { rot_y: 60, ..still },
        Key::Left => CameraRates { rot_y: -60i32, ..still },
        _ => still,
    }
}

/// The rates of the camera while `keys` are held: on each axis, the rate
/// of the key that pushes one way less the rate of the key that pushes the
/// other way, so that two opposed keys cancel.
pub open spec fn spec_camera_rates(keys: Seq<Key>) -> CameraRates {
    CameraRates {
        trans_x: (30 * (spec_held(keys, Key::A) - spec_held(keys, Key::D))) as i32,
        trans_y: (30 * (spec_held(keys, Key::S) - spec_held(keys, Key::W))) as i32,
        trans_z: (10 * (spec_held(keys, Key::LShift) - spec_held(keys, Key::Space))) as i32,
        rot_x: (60 * (spec_held(keys, Key::Down) - spec_held(keys, Key::Up))) as i32,
        rot_y: (60 * (spec_held(keys, Key::Right) - spec_held(keys, Key::Left))) as i32,
    }
}

/// Keys that are held together add up: one more held key changes each rate
/// by what that key contributes, whatever else is held.
pub proof fn lemma_keys_compose_additively(keys: Seq<Key>, key: Key)
    requires
        !keys.contains(key),
    ensures
        spec_camera_rates(keys.push(key)).trans_x == spec_camera_rates(keys).trans_x
            + spec_key_rates(key).trans_x,
        spec_camera_rates(keys.push(key)).trans_y == spec_camera_rates(keys).trans_y
            + spec_key_rates(key).trans_y,
        spec_camera_rates(keys.push(key)).trans_z == spec_camera_rates(keys).trans_z
            + spec_key_rates(key).trans_z,
        spec_camera_rates(keys.push(key)).rot_x == spec_camera_rates(keys).rot_x
            + spec_key_rates(key).rot_x,
        spec_camera_rates(keys.push(key)).rot_y == spec_camera_rates(keys).rot_y
            + spec_key_rates(key).rot_y,
{
    let more = keys.push(key);
    assert(more[keys.len() as int] == key);
    assert forall|other: Key| more.contains(other) == (keys.contains(other) || other == key) by {
        if keys.contains(other) {
            let i = choose|i: int| 0 <= i < keys.len() && keys[i] == other;
            assert(more[i] == other);
        }
        if more.contains(other) {
            let i = choose|i: int| 0 <= i < more.len() && more[i] == other;
            if i < keys.len() {
                assert(keys[i] == other);
            }
        }
    }
}

/// The rates of the camera while `keys` are held.
pub fn camera_rates(keys: &PressedKeys) -> (rates: CameraRates)
    ensures
        rates == spec_camera_rates(keys@),
{
    let mut rates = CameraRates { trans_x: 0, trans_y: 0, trans_z: 0, rot_x: 0, rot_y: 0 };
    let count = keys.len();
    let mut i: usize = 0;
    assert(keys@.take(0).len() == 0);
    while i < count
        invariant
            i <= count,
            count == keys@.len(),
            keys@.no_duplicates(),
            rates == spec_camera_rates(keys@.take(i as int)),
        decreases count - i,
    {
        let key = keys.get(i);
        proof {
            let held = keys@.take(i as int);
            assert(keys@.take(i + 1) == held.push(key));
            assert(!held.contains(key)) by {
                if held.contains(key) {
                    let j = choose|j: int| 0 <= j < held.len() && held[j] == key;
                    assert(keys@[j] == keys@[i as int]);
                }
            }
            lemma_keys_compose_additively(held, key);
        }
        match key {
            Key::A => {
                rates.trans_x += TRANSLATION_RATE_X;
            },
            Key::D => {
                rates.trans_x -= TRANSLATION_RATE_X;
            },
            Key::S => {
                rates.trans_y += TRANSLATION_RATE_Y;
            },
            Key::W => {
                rates.trans_y -= TRANSLATION_RATE_Y;
            },
            Key::LShift => {
                rates.trans_z += TRANSLATION_RATE_Z;
            },
            Key::Space => {
                rates.trans_z -= TRANSLATION_RATE_Z;
            },
            Key::Down => {
                rates.rot_x += ROTATION_RATE_X;
            },
            Key::Up => {
                rates.rot_x -= ROTATION_RATE_X;
            },
            Key::Right => {
                rates.rot_y += ROTATION_RATE_Y;
            },
            Key::Left => {
                rates.rot_y -= ROTATION_RATE_Y;
            },
            _ => {},
        }
        i += 1;
    }
    assert(keys@.take(count as int) == keys@);
    rates
}

} // verus!
