//! The keys that a player holds, packed into the bits of one number.

use vstd::prelude::*;

verus! {

/// Which of the nine keys are held.
#[derive(Debug, Clone, Copy, PartialEq, Eq, Structural)]
pub struct KeyState {
    pub w: bool,
    pub a: bool,
    pub s: bool,
    pub d: bool,
    pub arrow_left: bool,
    pub arrow_right: bool,
    pub arrow_up: bool,
    pub arrow_down: bool,
    pub space: bool,
}

/// The value of a bit that stands for a key.
pub open spec fn bit(held: bool, value: int) -> int {
    if held {
        value
    } else {
        0
    }
}

/// The keys as bits, from `KeyW` as the lowest to `Space` as the ninth.
pub open spec fn key_bits(keys: KeyState) -> u16 {
    (bit(keys.w, 1) + bit(keys.a, 2) + bit(keys.s, 4) + bit(keys.d, 8) + bit(keys.arrow_left, 16)
        + bit(keys.arrow_right, 32) + bit(keys.arrow_up, 64) + bit(keys.arrow_down, 128) + bit(
        keys.space,
        256,
    )) as u16
}

/// Whether the bit of the given value is set in a number.
pub open spec fn has_bit(bits: u16, value: int) -> bool {
    (bits as int / value) % 2 == 1
}

/// The keys that the bits of a number stand for. Bits above the ninth stand
/// for nothing.
pub open spec fn keys_of(bits: u16) -> KeyState {
    KeyState {
        w: has_bit(bits, 1),
        a: has_bit(bits, 2),
        s: has_bit(bits, 4),
        d: has_bit(bits, 8),
        arrow_left: has_bit(bits, 16),
        arrow_right: has_bit(bits, 32),
        arrow_up: has_bit(bits, 64),
        arrow_down: has_bit(bits, 128),
        space: has_bit(bits, 256),
    }
}

/// Whether a key is held according to a list of key names with their
/// states: the last entry under the name decides, and a key that is not
/// listed is not held.
pub open spec fn held(keys: Seq<(&str, bool)>, name: Seq<char>) -> bool
    decreases keys.len(),
{
    if keys.len() == 0 {
        false
    } else if keys.last().0@ == name {
        keys.last().1
    } else {
        held(keys.drop_last(), name)
    }
}

/// The state of the nine keys according to a list of key names.
pub open spec fn listed_keys(keys: Seq<(&str, bool)>) -> KeyState {
    KeyState {
        w: held(keys, "KeyW"@),
        a: held(keys, "KeyA"@),
        s: held(keys, "KeyS"@),
        d: held(keys, "KeyD"@),
        arrow_left: held(keys, "ArrowLeft"@),
        arrow_right: held(keys, "ArrowRight"@),
        arrow_up: held(keys, "ArrowUp"@),
        arrow_down: held(keys, "ArrowDown"@),
        space: held(keys, "Space"@),
    }
}

fn same_text(a: &str, b: &str) -> (same: bool)
    ensures
        same == (a@ == b@),
{
    let n = a.unicode_len();
    if n != b.unicode_len() {
        return false;
    }
    let mut i: usize = 0;
    while i < n
        invariant
            i <= n,
            n == a@.len(),
            n == b@.len(),
            forall|j: int| 0 <= j < i ==> a@[j] == b@[j],
        decreases n - i,
    {
        if a.get_char(i) != b.get_char(i) {
            return false;
        }
        i += 1;
    }
    assert(a@ =~= b@);
    true
}

fn is_held(keys: &Vec<(&str, bool)>, name: &str) -> (r: bool)
    ensures
        r == held(keys@, name@),
{
    let mut i: usize = keys.len();
    assert(keys@.take(i as int) =~= keys@);
    while i > 0
        invariant
            i <= keys.len(),
            held(keys@, name@) == held(keys@.take(i as int), name@),
        decreases i,
    {
        i -= 1;
        proof {
            let prefix = keys@.take(i + 1);
            assert(prefix.last() == keys[i as int]);
            assert(prefix.drop_last() =~= keys@.take(i as int));
        }
        if same_text(keys[i].0, name) {
            return keys[i].1;
        }
    }
    false
}

fn bit_of(held: bool, value: u16) -> (b: u16)
    ensures
        b == bit(held, value as int),
{
    if held {
        value
    } else {
        0
    }
}

fn pack(keys: &KeyState) -> (bits: u16)
    ensures
        bits == key_bits(*keys),
{
    let low: u16 = bit_of(keys.w, 1) + bit_of(keys.a, 2) + bit_of(keys.s, 4) + bit_of(keys.d, 8);
    let high: u16 = bit_of(keys.arrow_left, 16) + bit_of(keys.arrow_right, 32) + bit_of(
        keys.arrow_up,
        64,
    ) + bit_of(keys.arrow_down, 128) + bit_of(keys.space, 256);
    low + high
}

/// Packs a state of the keys into bits.
pub fn encode_state(keys: &KeyState) -> (bits: u16)
    ensures
        bits == key_bits(*keys),
        keys_of(bits) == *keys,
{
    proof {
        lemma_round_trip(*keys);
    }
    pack(keys)
}

/// Packs the keys that a list of key names gives as held into bits.
pub fn encode_keys(keys: &Vec<(&str, bool)>) -> (bits: u16)
    ensures
        bits == key_bits(listed_keys(keys@)),
        keys_of(bits) == listed_keys(keys@),
{
    let state = KeyState {
        w: is_held(keys, "KeyW"),
        a: is_held(keys, "KeyA"),
        s: is_held(keys, "KeyS"),
        d: is_held(keys, "KeyD"),
        arrow_left: is_held(keys, "ArrowLeft"),
        arrow_right: is_held(keys, "ArrowRight"),
        arrow_up: is_held(keys, "ArrowUp"),
        arrow_down: is_held(keys, "ArrowDown"),
        space: is_held(keys, "Space"),
    };
    encode_state(&state)
}

/// Unpacks the keys from bits.
pub fn decode_input(input: u16) -> (keys: KeyState)
    ensures
        keys == keys_of(input),
{
    assert(((input & 1) != 0) == ((input / 1) % 2 == 1)) by (bit_vector);
    assert(((input & 2) != 0) == ((input / 2) % 2 == 1)) by (bit_vector);
    assert(((input & 4) != 0) == ((input / 4) % 2 == 1)) by (bit_vector);
    assert(((input & 8) != 0) == ((input / 8) % 2 == 1)) by (bit_vector);
    assert(((input & 16) != 0) == ((input / 16) % 2 == 1)) by (bit_vector);
    assert(((input & 32) != 0) == ((input / 32) % 2 == 1)) by (bit_vector);
    assert(((input & 64) != 0) == ((input / 64) % 2 == 1)) by (bit_vector);
    assert(((input & 128) != 0) == ((input / 128) % 2 == 1)) by (bit_vector);
    assert(((input & 256) != 0) == ((input / 256) % 2 == 1)) by (bit_vector);
    KeyState {
        w: (input & 1) != 0,
        a: (input & 2) != 0,
        s: (input & 4) != 0,
        d: (input & 8) != 0,
        arrow_left: (input & 16) != 0,
        arrow_right: (input & 32) != 0,
        arrow_up: (input & 64) != 0,
        arrow_down: (input & 128) != 0,
        space: (input & 256) != 0,
    }
}

/// Packing the keys and unpacking the bits gives the keys back.
pub proof fn lemma_round_trip(keys: KeyState)
    ensures
        keys_of(key_bits(keys)) == keys,
{
    let bits = key_bits(keys);
    assert(has_bit(bits, 1) == keys.w);
    assert(has_bit(bits, 2) == keys.a);
    assert(has_bit(bits, 4) == keys.s);
    assert(has_bit(bits, 8) == keys.d);
    assert(has_bit(bits, 16) == keys.arrow_left);
    assert(has_bit(bits, 32) == keys.arrow_right);
    assert(has_bit(bits, 64) == keys.arrow_up);
    assert(has_bit(bits, 128) == keys.arrow_down);
    assert(has_bit(bits, 256) == keys.space);
}

} // verus!
