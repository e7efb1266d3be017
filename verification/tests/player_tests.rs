use kuma::history::KeyCount;
use kuma::keymap::KeyMap;
use kuma::keymap::KEY_A;
use kuma::keymap::KEY_D;
use kuma::keymap::KEY_Q;
use kuma::keymap::KEY_RIGHT;
use kuma::sprite::Dire;
use kuma::sprite::Movement;
use kuma::sprite::Player;
use kuma::sprite::Speed;
use kuma::sprite::TIMEOUT_TICKS;
use kuma::sprite::TRACK_WIDTH;

#[test]
fn new_player_defaults() {
    let p = Player::new(Dire::Right, true);
    assert_eq!(p.movement, Movement::Stop);
    assert_eq!(p.dire, Dire::Right);
    assert_eq!(p.hp, 1000);
    assert_eq!(p.ep, 100);
    assert_eq!(p.timer, 0);
    assert_eq!(p.x_offset, 0);
    assert_eq!(p.frame_timer, 6);
    assert_eq!(p.key_list.len(), 1);
    assert_eq!(*p.key_list.last(), KeyCount::null());
}

#[test]
fn stop_to_walk_on_left_press() {
    // Stop with history [{Unknown,0},{Left,0}] transitions to Walk(Left)
    // with the animation rewound
    let mut p = Player::new(Dire::Right, true);
    p.ptr_frame = 3;
    let quit = p.check_keys(&vec![KEY_A]);
    assert!(!quit);
    assert_eq!(p.movement, Movement::Walk);
    assert_eq!(p.dire, Dire::Left);
    assert_eq!(p.ptr_frame, 0);
    assert_eq!(p.timer, 1);
}

#[test]
fn walk_to_run_on_double_tap() {
    // Walk(Right) with history [_, {Right,0}, {Unknown,0}, {Right,0}]
    // transitions to Run(Right)
    let mut p = Player::new(Dire::Right, true);
    p.movement = Movement::Walk;
    p.key_list.record(KeyMap::Right, false);
    p.key_list.record(KeyMap::Unknown, false);
    p.key_list.record(KeyMap::Right, false);
    assert_eq!(p.key_list.len(), 4);
    let quit = p.check_keys(&vec![KEY_D]);
    assert!(!quit);
    assert_eq!(p.movement, Movement::Run);
    assert_eq!(p.dire, Dire::Right);
    assert_eq!(p.ptr_frame, 0);
}

#[test]
fn no_run_without_the_middle_miss() {
    // a held key coalesces instead of producing the miss the matcher needs
    let mut p = Player::new(Dire::Right, true);
    p.movement = Movement::Walk;
    p.dire = Dire::Right;
    p.key_list.record(KeyMap::Right, false);
    p.key_list.record(KeyMap::Right, false);
    p.key_list.record(KeyMap::Right, false);
    assert_eq!(p.key_list.len(), 2);
    let _ = p.check_keys(&vec![KEY_D]);
    assert_eq!(p.movement, Movement::Walk);
}

#[test]
fn timeout_resets_to_stop() {
    // Run(Left) at the threshold with no held keys decays to Stop with the
    // timer and the history reset
    let mut p = Player::new(Dire::Left, true);
    p.movement = Movement::Run;
    p.timer = TIMEOUT_TICKS;
    p.key_list.record(KeyMap::Left, false);
    let quit = p.check_keys(&vec![]);
    assert!(!quit);
    assert_eq!(p.movement, Movement::Stop);
    assert_eq!(p.timer, 0);
    assert_eq!(p.key_list.len(), 1);
    assert_eq!(*p.key_list.last(), KeyCount::null());
    assert_eq!(p.ptr_frame, 0);
}

#[test]
fn no_timeout_while_facing_key_held() {
    let mut p = Player::new(Dire::Right, true);
    p.movement = Movement::Run;
    p.timer = TIMEOUT_TICKS;
    let _ = p.check_keys(&vec![KEY_D]);
    assert_eq!(p.movement, Movement::Run);
    assert_eq!(p.timer, TIMEOUT_TICKS + 1);
}

#[test]
fn quit_check_is_idempotent_on_other_keys() {
    let p = Player::new(Dire::Right, true);
    assert!(!p.check_keys_misc(&vec![KEY_A]));
    assert!(!p.check_keys_misc(&vec![]));
    assert!(!p.check_keys_misc(&vec![KEY_Q, KEY_A]));
    assert!(p.check_keys_misc(&vec![KEY_Q]));
}

#[test]
fn quit_gesture_changes_nothing() {
    let mut p = Player::new(Dire::Right, true);
    p.timer = 7;
    let quit = p.check_keys(&vec![KEY_Q]);
    assert!(quit);
    assert_eq!(p.timer, 7);
    assert_eq!(p.movement, Movement::Stop);
    assert_eq!(p.key_list.len(), 1);
}

#[test]
fn position_stays_on_the_track() {
    // however many Run ticks land, the offset never leaves [0, TRACK_WIDTH]
    let mut p = Player::new(Dire::Right, true);
    p.movement = Movement::Run;
    for _ in 0..100 {
        let _ = p.check_keys(&vec![KEY_D]);
        assert!(p.x_offset <= TRACK_WIDTH);
    }
    // the last whole step before the bound
    assert_eq!(p.x_offset, 384);
}

#[test]
fn walk_and_run_steps_are_exact() {
    let mut p = Player::new(Dire::Right, true);
    p.movement = Movement::Walk;
    p.move_to();
    assert_eq!(p.x_offset, 4);
    p.movement = Movement::Run;
    p.move_to();
    assert_eq!(p.x_offset, 20);
    p.dire = Dire::Left;
    p.movement = Movement::Walk;
    p.move_to();
    assert_eq!(p.x_offset, 16);
    // at the left edge a short step is refused, not clamped
    p.x_offset = 2;
    p.move_walk();
    assert_eq!(p.x_offset, 2);
    // at the right edge the step is refused once it would pass the bound
    p.dire = Dire::Right;
    p.x_offset = TRACK_WIDTH - 4;
    p.move_walk();
    assert_eq!(p.x_offset, TRACK_WIDTH - 4);
    p.x_offset = TRACK_WIDTH - 5;
    p.move_walk();
    assert_eq!(p.x_offset, TRACK_WIDTH - 1);
}

#[test]
fn stop_never_moves() {
    let mut p = Player::new(Dire::Right, true);
    p.x_offset = 50;
    p.move_to();
    assert_eq!(p.x_offset, 50);
}

#[test]
fn timeout_threshold_is_exact() {
    let mut p = Player::new(Dire::Right, true);
    p.timer = TIMEOUT_TICKS - 1;
    assert!(!p.timeout());
    p.timer = TIMEOUT_TICKS;
    assert!(p.timeout());
}

#[test]
fn switch_to_rewinds_animation() {
    let mut p = Player::new(Dire::Right, true);
    p.ptr_frame = 5;
    p.switch_to(Movement::Run);
    assert_eq!(p.movement, Movement::Run);
    assert_eq!(p.ptr_frame, 0);
}

#[test]
fn movement_names_and_indices() {
    assert_eq!(Movement::from_name("stop"), Movement::Stop);
    assert_eq!(Movement::from_name("walk"), Movement::Walk);
    assert_eq!(Movement::from_name("run"), Movement::Run);
    assert_eq!(Movement::Stop.index(), 0);
    assert_eq!(Movement::Walk.index(), 1);
    assert_eq!(Movement::Run.index(), 2);
    assert_eq!(Movement::default(), Movement::Stop);
}

#[test]
fn speed_tick_constants() {
    assert_eq!(Speed::Stop.ticks(), 0);
    assert_eq!(Speed::VeryFast.ticks(), 1);
    assert_eq!(Speed::Fast.ticks(), 3);
    assert_eq!(Speed::Norminal.ticks(), 6);
    assert_eq!(Speed::Slow.ticks(), 12);
    assert_eq!(Speed::VerySlow.ticks(), 24);
}

#[test]
fn second_player_layout_drives_the_machine() {
    let mut p = Player::new(Dire::Left, false);
    let _ = p.check_keys(&vec![KEY_RIGHT]);
    assert_eq!(p.movement, Movement::Walk);
    assert_eq!(p.dire, Dire::Right);
    // player one's key does nothing for player two
    let mut q = Player::new(Dire::Left, false);
    let _ = q.check_keys(&vec![KEY_D]);
    assert_eq!(q.movement, Movement::Stop);
}
