use trex_runner::input::Key;
use trex_runner::input::Keys;
use trex_runner::motion::Parabola;

#[test]
fn parabola_endpoints_and_peak() {
    let mut p = Parabola::new(25, 22);
    assert_eq!(p.value(), 0);
    assert!(!p.finished());

    for _ in 0..11 {
        p.step();
    }
    // 4 * 25 * 11 * (22 - 11) / (22 * 22) = 12100 / 484
    assert_eq!(p.value(), 25);

    for _ in 0..11 {
        p.step();
    }
    assert!(p.finished());
    assert_eq!(p.value(), 0);

    p.step();
    assert!(p.finished());
    assert_eq!(p.value(), 0);
}

#[test]
fn parabola_stays_in_range() {
    let mut p = Parabola::new(6, 8);
    for _ in 0..=8 {
        assert!(p.value() <= 6);
        p.step();
    }
    assert!(p.finished());
    assert_eq!(p.value(), 0);
}

#[test]
fn parabola_exact_early_value() {
    let mut p = Parabola::new(25, 22);
    p.step();
    // 4 * 25 * 1 * 21 / 484 = 2100 / 484, floored
    assert_eq!(p.value(), 4);
}

#[test]
fn press_then_pressing() {
    let mut k = Keys::new();
    assert!(!k.any_pressed());
    k.press(Key::Up);
    assert!(k.pressing(Key::Up));
    assert!(k.just_pressed(Key::Up));
    assert!(k.any_pressed());
    assert!(!k.pressing(Key::Down));
}

#[test]
fn release_keeps_just_pressed_until_update() {
    let mut k = Keys::new();
    k.press(Key::Space);
    k.release(Key::Space);
    // Still freshly pressed this tick, so it counts as pressing.
    assert!(k.pressing(Key::Space));

    k.update();
    assert!(!k.just_pressed(Key::Space));
    assert!(!k.pressing(Key::Space));

    // A key that was never freshly pressed this tick stops on release.
    let mut h = Keys::new();
    h.press(Key::Left);
    h.update();
    assert!(h.pressing(Key::Left));
    h.release(Key::Left);
    assert!(!h.pressing(Key::Left));
}

#[test]
fn update_clears_all_just_pressed() {
    let mut k = Keys::new();
    k.press(Key::Up);
    k.press(Key::Down);
    k.press(Key::Space);
    k.update();
    assert!(!k.just_pressed(Key::Up));
    assert!(!k.just_pressed(Key::Down));
    assert!(!k.just_pressed(Key::Left));
    assert!(!k.just_pressed(Key::Right));
    assert!(!k.just_pressed(Key::Space));
    // Held state survives the tick boundary.
    assert!(k.pressing(Key::Up));
}

#[test]
fn key_from_u8_order() {
    assert!(matches!(Key::from_u8(0), Key::Up));
    assert!(matches!(Key::from_u8(1), Key::Down));
    assert!(matches!(Key::from_u8(2), Key::Left));
    assert!(matches!(Key::from_u8(3), Key::Right));
    assert!(matches!(Key::from_u8(4), Key::Space));
}
