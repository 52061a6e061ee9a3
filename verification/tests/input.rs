use xash3d::client::input::{key_code, KeyButton, KEY_DOWN, KEY_IMPULSE_DOWN, KEY_IMPULSE_UP};

#[test]
fn key_codes() {
    assert_eq!(key_code(b""), -1);
    assert_eq!(key_code(b"65"), 65);
    assert_eq!(key_code(b"-3"), -3);
    assert_eq!(key_code(b"+7"), 7);
    assert_eq!(key_code(b"abc"), 0);
    assert_eq!(key_code(b" 5"), 0);
    assert_eq!(key_code(b"99999999999"), 0);
    assert_eq!(key_code(b"\xff"), 0);
}

#[test]
fn press_and_hold() {
    let mut b = KeyButton::new();
    assert!(b.is_up());
    b.key_down(65);
    assert!(b.is_down());
    assert!(b.is_impulse_down());
    assert!(!b.is_impulse_up());
    assert_eq!(b.down, [65, 0]);
    assert_eq!(b.key_state(), 2);
    assert_eq!(b.state(), KEY_DOWN);
    assert_eq!(b.key_state(), 4);
}

#[test]
fn tap_within_frame() {
    let mut b = KeyButton::new();
    b.key_down(65);
    b.key_up(Some(65));
    assert!(b.is_up());
    assert_eq!(b.state(), KEY_IMPULSE_DOWN | KEY_IMPULSE_UP);
    assert_eq!(b.key_state(), 1);
    assert_eq!(b.key_state(), 0);
}

#[test]
fn release_and_press_again() {
    let mut b = KeyButton::new();
    b.key_down(65);
    b.key_state();
    b.key_up(Some(65));
    b.key_down(66);
    assert_eq!(b.key_state(), 3);
}

#[test]
fn released_this_frame() {
    let mut b = KeyButton::new();
    b.key_down(65);
    b.key_state();
    b.key_up(Some(65));
    assert_eq!(b.key_state(), 0);
    assert!(b.is_up());
}

#[test]
fn two_keys_hold_one_button() {
    let mut b = KeyButton::new();
    b.key_down(1);
    b.key_down(2);
    assert_eq!(b.down, [1, 2]);
    // a third key finds no free slot
    b.key_down(3);
    assert_eq!(b.down, [1, 2]);
    b.key_up(Some(1));
    assert!(b.is_down());
    b.key_up(Some(2));
    assert!(b.is_up());
    assert!(b.is_impulse_up());
    // a key that does not hold the button changes nothing
    let before = b.state();
    b.key_up(Some(9));
    assert_eq!(b.state(), before);
}

#[test]
fn console_release_unsticks() {
    let mut b = KeyButton::new();
    b.key_down(-1);
    b.key_up(None);
    assert_eq!(b.down, [0, 0]);
    assert!(b.is_impulse_up());
    // the console release does not clear the down bit itself
    assert!(b.is_down());
    b.clear();
    assert_eq!(b.down, [0, 0]);
    b.set_state(0);
    assert_eq!(b.state(), 0);
}
