//! Input encoding: one fixed-width bitfield per player per frame.
//!
//! A local tick samples the control state once, packs it into a `u8`, and
//! hands it to the session. Absence of input is the zero value.

use vstd::prelude::*;

verus! {

/// Bit for rotating the avatar upward.
pub const ROTATE_UP: u8 = 1;
/// Bit for rotating the avatar downward.
pub const ROTATE_DOWN: u8 = 2;
/// Bit for rotating the avatar to the left.
pub const ROTATE_LEFT: u8 = 4;
/// Bit for rotating the avatar to the right.
pub const ROTATE_RIGHT: u8 = 8;
/// Bit for firing a projectile.
pub const FIRE: u8 = 16;

/// The bitfield an input encodes to, as a spec-level function of the five
/// sampled controls. The five bits are disjoint, so the sum sets exactly the
/// chosen bits.
pub open spec fn spec_encode(
    up: bool,
    down: bool,
    left: bool,
    right: bool,
    fire_pressed: bool,
) -> u8 {
    ((if up { ROTATE_UP } else { 0 }) + (if down { ROTATE_DOWN } else { 0 }) + (if left {
        ROTATE_LEFT
    } else {
        0
    }) + (if right { ROTATE_RIGHT } else { 0 }) + (if fire_pressed { FIRE } else { 0 })) as u8
}

/// Packs one tick's sampled control state into the input bitfield.
///
/// Pure: the result depends on the five flags alone, and no control pressed
/// yields the zero input.
pub fn encode_input(up: bool, down: bool, left: bool, right: bool, fire_pressed: bool) -> (r: u8)
    ensures
        r == spec_encode(up, down, left, right, fire_pressed),
        !up && !down && !left && !right && !fire_pressed ==> r == 0,
{
    let mut r: u8 = 0;
    if up {
        r = r + ROTATE_UP;
    }
    if down {
        r = r + ROTATE_DOWN;
    }
    if left {
        r = r + ROTATE_LEFT;
    }
    if right {
        r = r + ROTATE_RIGHT;
    }
    if fire_pressed {
        r = r + FIRE;
    }
    r
}

/// Whether the fire bit is set in an input.
pub open spec fn spec_fire(input: u8) -> bool {
    (input / 16) % 2 == 1
}

/// Reads the fire bit of an input bitfield.
pub fn fire(input: u8) -> (r: bool)
    ensures
        r == spec_fire(input),
{
    proof {
        assert((input & 16 != 0) == ((input / 16) % 2 == 1)) by (bit_vector);
    }
    input & FIRE != 0
}

/// The yaw delta an input asks for, in rotation steps per tick: left turns
/// positive, right negative, both cancel.
pub open spec fn spec_yaw_delta(input: u8) -> int {
    (input / 4) % 2 - (input / 8) % 2
}

/// The pitch delta an input asks for, in rotation steps per tick: up turns
/// positive, down negative, both cancel.
pub open spec fn spec_pitch_delta(input: u8) -> int {
    input % 2 - (input / 2) % 2
}

/// Decodes an input bitfield into per-axis rotation deltas, in whole rotation
/// steps per tick: `(yaw, pitch)`, each in `-1 ..= 1`.
pub fn rotation(input: u8) -> (r: (i8, i8))
    ensures
        r.0 as int == spec_yaw_delta(input),
        r.1 as int == spec_pitch_delta(input),
{
    proof {
        assert((input & 1 != 0) == (input % 2 == 1) && (input & 2 != 0) == ((input / 2) % 2 == 1)
            && (input & 4 != 0) == ((input / 4) % 2 == 1) && (input & 8 != 0) == ((input / 8) % 2
            == 1)) by (bit_vector);
    }
    let mut yaw: i8 = 0;
    let mut pitch: i8 = 0;
    if input & ROTATE_UP != 0 {
        pitch = pitch + 1;
    }
    if input & ROTATE_DOWN != 0 {
        pitch = pitch - 1;
    }
    if input & ROTATE_RIGHT != 0 {
        yaw = yaw - 1;
    }
    if input & ROTATE_LEFT != 0 {
        yaw = yaw + 1;
    }
    (yaw, pitch)
}

/// Law: decoding recovers what was encoded. An input packed from the five
/// control flags reports exactly the requested fire state and rotation
/// deltas.
pub proof fn lemma_encode_decode(up: bool, down: bool, left: bool, right: bool, fire_pressed: bool)
    ensures
        spec_fire(spec_encode(up, down, left, right, fire_pressed)) == fire_pressed,
        spec_yaw_delta(spec_encode(up, down, left, right, fire_pressed)) == (if left {
            1int
        } else {
            0int
        }) - (if right {
            1int
        } else {
            0int
        }),
        spec_pitch_delta(spec_encode(up, down, left, right, fire_pressed)) == (if up {
            1int
        } else {
            0int
        }) - (if down {
            1int
        } else {
            0int
        }),
{
    let x = spec_encode(up, down, left, right, fire_pressed);
    assert(((x & 16) != 0) == fire_pressed && ((x & 4) != 0) == left && ((x & 8) != 0) == right
        && ((x & 1) != 0) == up && ((x & 2) != 0) == down) by (bit_vector)
        requires
            x == ((if up { 1u8 } else { 0u8 }) + (if down { 2u8 } else { 0u8 }) + (if left {
                4u8
            } else {
                0u8
            }) + (if right { 8u8 } else { 0u8 }) + (if fire_pressed { 16u8 } else { 0u8 })) as u8,
    ;
}

} // verus!
