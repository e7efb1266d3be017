use kuma::keymap::classify;
use kuma::keymap::KeyMap;
use kuma::keymap::KEY_A;
use kuma::keymap::KEY_D;
use kuma::keymap::KEY_DOWN;
use kuma::keymap::KEY_J;
use kuma::keymap::KEY_LEFT;
use kuma::keymap::KEY_NUMPAD1;
use kuma::keymap::KEY_RIGHT;
use kuma::keymap::KEY_S;
use kuma::keymap::KEY_UP;
use kuma::keymap::KEY_W;

#[test]
fn player_one_table() {
    assert_eq!(classify(KEY_A, true), KeyMap::Left);
    assert_eq!(classify(KEY_D, true), KeyMap::Right);
    assert_eq!(classify(KEY_W, true), KeyMap::Up);
    assert_eq!(classify(KEY_S, true), KeyMap::Down);
    assert_eq!(classify(KEY_J, true), KeyMap::Att);
    // a letter without a binding is admitted but unknown
    assert_eq!(classify(11, true), KeyMap::Unknown);
}

#[test]
fn player_two_table() {
    assert_eq!(classify(KEY_LEFT, false), KeyMap::Left);
    assert_eq!(classify(KEY_RIGHT, false), KeyMap::Right);
    assert_eq!(classify(KEY_UP, false), KeyMap::Up);
    assert_eq!(classify(KEY_DOWN, false), KeyMap::Down);
    // digits are admitted but unbound
    assert_eq!(classify(0, false), KeyMap::Unknown);
    assert_eq!(classify(9, false), KeyMap::Unknown);
}

#[test]
fn layouts_are_disjoint() {
    // player one's keys mean nothing to player two, and the other way round
    assert_eq!(classify(KEY_A, false), KeyMap::Unknown);
    assert_eq!(classify(KEY_D, false), KeyMap::Unknown);
    assert_eq!(classify(KEY_LEFT, true), KeyMap::Unknown);
    assert_eq!(classify(KEY_RIGHT, true), KeyMap::Unknown);
    // the second attack key sits outside both layouts
    assert_eq!(classify(KEY_NUMPAD1, true), KeyMap::Unknown);
    assert_eq!(classify(KEY_NUMPAD1, false), KeyMap::Unknown);
}

#[test]
fn from_key_list_maps_every_code() {
    let codes: Vec<u32> = vec![KEY_W, KEY_LEFT, KEY_NUMPAD1, 7, 99];
    let actions = KeyMap::from_key_list(&codes);
    assert_eq!(
        actions,
        vec![KeyMap::Up, KeyMap::Left, KeyMap::Att, KeyMap::Unknown, KeyMap::Unknown]
    );
}
