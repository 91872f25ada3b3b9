use trex_runner::input::Keys;
use trex_runner::math::Pos;
use trex_runner::math::Size;
use trex_runner::solution::Solution;
use trex_runner::trex::EnemyModel;
use trex_runner::trex::GameContext;
use trex_runner::trex::TRexGame;

#[test]
fn same_seed_same_game() {
    let sol_a = Solution::new();
    let sol_b = Solution::new();
    let mut a = TRexGame::new();
    let mut b = TRexGame::new();

    for _ in 0..200 {
        let over_a = a.update(&GameContext {
            size: Size::new(120, 40),
            keys: Keys::new(),
            solution: &sol_a,
        });
        let over_b = b.update(&GameContext {
            size: Size::new(120, 40),
            keys: Keys::new(),
            solution: &sol_b,
        });
        assert_eq!(over_a, over_b);
        assert_eq!(a.frame_count(), b.frame_count());
        assert_eq!(a.enemy_cooldown(), b.enemy_cooldown());
        assert_eq!(a.enemies(), b.enemies());
    }
}

#[test]
fn first_spawn_is_a_cactus_at_the_edge() {
    let sol = Solution::new();
    let mut game = TRexGame::new();
    let ctx = GameContext { size: Size::new(30, 40), keys: Keys::new(), solution: &sol };

    // The countdown starts at 10 and spawns when it hits zero, so the
    // first obstacle appears on the eleventh tick, already moved once.
    for _ in 0..10 {
        game.update(&ctx);
        assert!(game.enemies().is_empty());
    }
    game.update(&ctx);
    assert_eq!(game.enemies().len(), 1);
    let e = game.enemies()[0];
    assert_eq!(e.position.x, 30 - 3);
    assert_eq!(e.position.y, 0);
    assert_eq!(e.velocity, 3);
    assert!(matches!(e.model, EnemyModel::Cactus { model: 0 }));

    // The countdown was redrawn from 10..50 and then decremented once.
    assert!(9 <= game.enemy_cooldown() && game.enemy_cooldown() <= 48);
}

#[test]
fn obstacle_lifecycle_exact_removal_tick() {
    // Width 31 makes the travel distance 31 + 32 = 63 an exact multiple of
    // the cactus speed 3, pinning the removal tick at the threshold itself:
    // removal comes exactly ceil(63 / 3) = 21 ticks after the spawn tick.
    let sol = Solution::new();
    let mut game = TRexGame::new();
    let ctx = GameContext { size: Size::new(31, 40), keys: Keys::new(), solution: &sol };

    for _ in 0..11 {
        game.update(&ctx);
    }
    // Spawned on the eleventh tick and already moved once: x = 28.
    assert_eq!(game.enemies()[0].position.x, 28);
    // It survives every despawn check while its coordinate is above -32 —
    // 20 more ticks — and leaves on the tick that sees it at -32 exactly.
    for j in 1..=20i32 {
        game.update(&ctx);
        let front = game.enemies()[0];
        assert!(matches!(front.model, EnemyModel::Cactus { model: 0 }));
        assert_eq!(front.position.x, 28 - 3 * j);
    }
    assert_eq!(game.enemies()[0].position.x, -32);
    game.update(&ctx);
    // Removed now, on the 21st tick after spawning: nothing that far left
    // remains in the queue.
    assert!(game.enemies().iter().all(|e| e.position.x > -32));
}

#[test]
fn no_bird_spawns_in_first_hundred_ticks() {
    let sol = Solution::new();
    let mut game = TRexGame::new();
    let ctx = GameContext { size: Size::new(200, 40), keys: Keys::new(), solution: &sol };
    for _ in 0..100 {
        game.update(&ctx);
        for e in game.enemies() {
            assert!(matches!(e.model, EnemyModel::Cactus { .. }));
            assert_eq!(e.velocity, 3);
        }
    }
}

#[test]
fn draw_commands_are_well_formed() {
    let sol = Solution::new();
    let mut game = TRexGame::new();
    let ctx = GameContext { size: Size::new(120, 40), keys: Keys::new(), solution: &sol };
    for _ in 0..40 {
        game.update(&ctx);
    }
    let commands = game.draw(Pos::new(20, 39), Size::new(120, 40));
    // Player and ghost are always on canvas here.
    assert!(commands.len() >= 2);
    for command in &commands {
        assert!(command.wf_check());
        for p in command.set_pixels() {
            assert!(0 <= p.x && p.x < 120);
            assert!(0 <= p.y && p.y < 40);
        }
    }
}

#[test]
fn jump_arc_follows_parabola() {
    let mut t = trex_runner::trex::TRex::new();
    let mut keys = Keys::new();
    keys.press(trex_runner::input::Key::Space);
    t.update(keys); // grounded + action key: the jump arc starts at time 0
    assert_eq!(t.pos().1, 0);

    let mut p = trex_runner::motion::Parabola::new(25, 22);
    let calm = Keys::new();
    for _ in 0..21 {
        t.update(calm);
        p.step();
        assert_eq!(t.pos().1, p.value() as i32);
    }
    t.update(calm); // the arc completes and the character lands
    assert_eq!(t.pos().1, 0);
}

#[test]
fn crouched_jump_is_lower_and_shorter() {
    let mut t = trex_runner::trex::TRex::new();
    let mut keys = Keys::new();
    keys.press(trex_runner::input::Key::Down);
    keys.press(trex_runner::input::Key::Space);
    t.update(keys);

    let calm = Keys::new();
    let mut peak: i32 = 0;
    for _ in 0..8 {
        t.update(calm);
        peak = peak.max(t.pos().1);
    }
    assert_eq!(peak, 6);
    assert_eq!(t.pos().1, 0); // already back on the ground after 8 ticks
}

#[test]
fn ghost_replay_is_deterministic() {
    let sol = Solution::new();
    let game = TRexGame::new();
    let a = game.trex_solution(&sol, 500);
    let b = game.trex_solution(&sol, 500);
    assert_eq!(a.pos(), b.pos());
    // Replaying step by step through the same window agrees with the
    // direct recomputation.
    let mut stepped = game.trex_solution(&sol, 0);
    for t in 1..=500usize {
        stepped.update(sol.keys(t));
        let direct = game.trex_solution(&sol, t);
        assert_eq!(stepped.pos(), direct.pos());
    }
}
