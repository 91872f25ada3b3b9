use trex_runner::input::Key;
use trex_runner::input::Keys;
use trex_runner::solution::SOLUTION_SIZE;
use trex_runner::solution::Solution;

#[test]
fn keys_defined_on_whole_window() {
    let sol = Solution::new();
    for t in 0..SOLUTION_SIZE {
        let _ = sol.keys(t);
    }
}

#[test]
fn keys_checked_rejects_out_of_range() {
    let sol = Solution::new();
    assert!(sol.keys_checked(SOLUTION_SIZE - 1).is_some());
    assert!(sol.keys_checked(SOLUTION_SIZE).is_none());
    assert!(sol.keys_checked(SOLUTION_SIZE + 7).is_none());
    assert_eq!(sol.keys_checked(0), Some(sol.keys(0)));
}

#[test]
fn update_shifts_offsets_down_by_one() {
    let mut sol = Solution::new();
    let before: Vec<Keys> = (0..SOLUTION_SIZE).map(|t| sol.keys(t)).collect();
    sol.update();
    for t in 0..SOLUTION_SIZE - 1 {
        assert_eq!(sol.keys(t), before[t + 1]);
    }
}

#[test]
fn same_seed_same_sequence() {
    let a = Solution::new();
    let b = Solution::new();
    for t in 0..SOLUTION_SIZE {
        assert_eq!(a.keys(t), b.keys(t));
    }

    let mut a = a;
    let mut b = b;
    for _ in 0..300 {
        a.update();
        b.update();
        for t in (0..SOLUTION_SIZE).step_by(97) {
            assert_eq!(a.keys(t), b.keys(t));
        }
    }
}

fn packed_masks(keys: &Keys) -> (u8, u8) {
    let all = [Key::Up, Key::Down, Key::Left, Key::Right, Key::Space];
    let mut just: u8 = 0;
    let mut held: u8 = 0;
    for (bit, key) in all.into_iter().enumerate() {
        if keys.just_pressed(key) {
            just |= 1 << bit;
        }
        if keys.pressing(key) {
            held |= 1 << bit;
        }
    }
    (just, held)
}

#[test]
fn generator_golden_prefix() {
    // Golden regression values for the fixed seed: the packed
    // (just-pressed, pressing) masks of the first window slots. A change in
    // the synthesis rules or their roll probabilities shows up here.
    let sol = Solution::new();
    let observed: Vec<(u8, u8)> = (0..24).map(|t| packed_masks(&sol.keys(t))).collect();
    // The seed opens with a burst that presses the action key on the first
    // tick — fresh and held — keeps it held three more ticks, then lets go.
    let expected: Vec<(u8, u8)> = vec![
        (16, 16),
        (0, 16),
        (0, 16),
        (0, 16),
        (0, 0),
        (0, 0),
        (0, 0),
        (0, 0),
        (0, 0),
        (0, 0),
        (0, 0),
        (0, 0),
        (0, 0),
        (0, 0),
        (0, 0),
        (0, 0),
        (0, 0),
        (0, 0),
        (0, 0),
        (0, 0),
        (0, 0),
        (0, 0),
        (0, 0),
        (0, 0),
    ];
    assert_eq!(observed, expected);
}

#[test]
fn generator_produces_activity() {
    // Regression pin on the chosen synthesis behavior: with its fixed seed
    // the stream both presses keys and lets go of them — the bursty phase's
    // press and release rolls are live, not dead branches — while plenty of
    // quiet ticks remain.
    let sol = Solution::new();
    let mut pressed_slots = 0usize;
    let mut idle_slots = 0usize;
    for t in 0..SOLUTION_SIZE {
        if sol.keys(t).any_pressed() {
            pressed_slots += 1;
        } else {
            idle_slots += 1;
        }
    }
    assert!(pressed_slots > 0);
    assert!(idle_slots > 0);
}
