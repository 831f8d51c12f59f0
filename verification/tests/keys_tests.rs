use noize::keys::{DigitEntry, KeyAction};

fn press(e: &mut DigitEntry, key: u8, max: i32) -> (KeyAction, bool) {
    e.press(key, max)
}

#[test]
fn letters_map_to_actions() {
    let mut e = DigitEntry::new();
    assert_eq!(press(&mut e, b'q', 10), (KeyAction::Quit, false));
    assert_eq!(press(&mut e, b'j', 10), (KeyAction::ScrollDown, false));
    assert_eq!(press(&mut e, b'k', 10), (KeyAction::ScrollUp, false));
    assert_eq!(press(&mut e, b'h', 10), (KeyAction::VolumeDown, false));
    assert_eq!(press(&mut e, b'l', 10), (KeyAction::VolumeUp, false));
    assert_eq!(press(&mut e, b'm', 10), (KeyAction::ToggleMute, false));
    assert_eq!(press(&mut e, b' ', 10), (KeyAction::ToggleGlobalMute, false));
    assert_eq!(press(&mut e, b'x', 10), (KeyAction::Nothing, false));
    assert!(e.is_empty());
}

#[test]
fn zero_alone_silences() {
    let mut e = DigitEntry::new();
    assert_eq!(press(&mut e, b'0', 10), (KeyAction::SetVolume(0), false));
    assert!(e.is_empty());
}

#[test]
fn two_digits_set_the_volume_they_spell() {
    let mut e = DigitEntry::new();
    assert_eq!(press(&mut e, b'1', 20), (KeyAction::Nothing, true));
    assert!(!e.is_empty());
    assert_eq!(press(&mut e, b'5', 20), (KeyAction::SetVolume(15), true));
    assert!(e.is_empty());
}

#[test]
fn two_digits_beyond_the_scale_do_nothing() {
    let mut e = DigitEntry::new();
    press(&mut e, b'4', 10);
    assert_eq!(press(&mut e, b'2', 10), (KeyAction::Nothing, true));
    assert!(e.is_empty());
}

#[test]
fn one_then_zero_always_sets_ten() {
    let mut e = DigitEntry::new();
    press(&mut e, b'1', 5);
    assert_eq!(press(&mut e, b'0', 5), (KeyAction::SetVolume(10), true));
}

#[test]
fn a_letter_drops_a_waiting_digit_but_q_keeps_it() {
    let mut e = DigitEntry::new();
    press(&mut e, b'3', 10);
    assert_eq!(press(&mut e, b'q', 10), (KeyAction::Quit, false));
    assert!(!e.is_empty());
    assert_eq!(press(&mut e, b'j', 10), (KeyAction::ScrollDown, false));
    assert!(e.is_empty());
}

#[test]
fn a_lone_digit_sets_its_volume_when_time_runs_out() {
    let mut e = DigitEntry::new();
    press(&mut e, b'7', 10);
    assert_eq!(e.expire(10), Some(7));
    assert!(e.is_empty());
    press(&mut e, b'7', 5);
    assert_eq!(e.expire(5), None);
    assert!(e.is_empty());
    assert_eq!(e.expire(5), None);
}

#[test]
fn tick_expires_a_lone_digit_only_after_the_timeout() {
    let mut e = DigitEntry::new();
    assert_eq!(e.tick(400_000_000, 10), None);
    press(&mut e, b'6', 10);
    assert_eq!(e.tick(300_000_000, 10), None);
    assert!(!e.is_empty());
    assert_eq!(e.tick(300_000_001, 10), Some(6));
    assert!(e.is_empty());
    press(&mut e, b'6', 5);
    assert_eq!(e.tick(900_000_000, 5), None);
    assert!(e.is_empty());
}
