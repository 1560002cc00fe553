use battletanks::keys::{decode_input, encode_keys, encode_state, KeyState};

fn none() -> KeyState {
    KeyState {
        w: false,
        a: false,
        s: false,
        d: false,
        arrow_left: false,
        arrow_right: false,
        arrow_up: false,
        arrow_down: false,
        space: false,
    }
}

#[test]
fn keys_pack_into_their_bits() {
    assert_eq!(encode_keys(&vec![]), 0);
    assert_eq!(encode_keys(&vec![("KeyW", true)]), 1);
    assert_eq!(encode_keys(&vec![("KeyA", true)]), 2);
    assert_eq!(encode_keys(&vec![("KeyS", true)]), 4);
    assert_eq!(encode_keys(&vec![("KeyD", true)]), 8);
    assert_eq!(encode_keys(&vec![("ArrowLeft", true)]), 16);
    assert_eq!(encode_keys(&vec![("ArrowRight", true)]), 32);
    assert_eq!(encode_keys(&vec![("ArrowUp", true)]), 64);
    assert_eq!(encode_keys(&vec![("ArrowDown", true)]), 128);
    assert_eq!(encode_keys(&vec![("Space", true)]), 256);
    assert_eq!(encode_keys(&vec![("KeyW", true), ("Space", true), ("KeyQ", true)]), 257);
    assert_eq!(encode_keys(&vec![("KeyW", true), ("KeyW", false)]), 0);
    assert_eq!(encode_keys(&vec![("KeyW", false), ("KeyW", true)]), 1);
}

#[test]
fn bits_unpack_into_their_keys() {
    assert_eq!(decode_input(0), none());
    assert_eq!(decode_input(1), KeyState { w: true, ..none() });
    assert_eq!(decode_input(0b1_0000_0100), KeyState { s: true, space: true, ..none() });
    assert_eq!(decode_input(0xfe00), none());
    for bits in 0..512u16 {
        assert_eq!(encode_state(&decode_input(bits)), bits);
        assert_eq!(decode_input(bits | 0x8000), decode_input(bits));
    }
}
