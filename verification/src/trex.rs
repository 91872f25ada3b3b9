use vstd::prelude::*;
use crate::assets::bird;
use crate::assets::cactuses;
use crate::assets::spec_animation_shape;
use crate::assets::trex_crouching;
use crate::assets::trex_running;
use crate::image::Image;
use crate::image::ImageAnimation;
use crate::image::Origin;
use crate::image::OriginPair;
use crate::image::Sprite;
use crate::image::SpriteRect;
use crate::image::SpriteV;
use crate::input::Key;
use crate::input::Keys;
use crate::math::Pos;
use crate::math::Size;
use crate::motion::Parabola;
use crate::motion::parabola_value_at;
use crate::rng::rng_from_seed;
use crate::rng::rng_next_u32;
use crate::rng::rng_range_incl_u32;
use crate::rng::rng_range_u32;
use crate::image::spec_is_rect_of;
use crate::image::spec_overlap;
use crate::image::spec_rect_visible;
use crate::solution::Solution;
use rand::rngs::SmallRng;

verus! {

/// Height of a normal jump's peak.
pub const JUMP_HEIGHT: usize = 25;

/// Duration of a normal jump, in ticks.
pub const JUMP_DURATION: usize = 22;

/// Height of a crouched jump's peak: lower than a normal jump.
pub const CROUCH_JUMP_HEIGHT: usize = 6;

/// Duration of a crouched jump, in ticks: shorter than a normal jump.
pub const CROUCH_JUMP_DURATION: usize = 8;

/// The screen row of the player character's anchor.
pub const TREX_Y: i32 = 4;

/// The jump arc in mathematical form: peak, total duration, elapsed time.
pub struct JumpView {
    pub max: int,
    pub duration: int,
    pub time: int,
}

/// The player character's state in mathematical form: the active jump arc,
/// if airborne, and the crouching flag.
pub struct TRexView {
    pub jump: Option<JumpView>,
    pub crouching: bool,
}

/// The player character (and, in a second instance, its autopilot ghost):
/// an optional active jump arc — `None` means grounded — plus a crouching
/// flag.
#[derive(Copy, Clone)]
pub struct TRex {
    jump: Option<Parabola>,
    crouching: bool,
}

impl View for TRex {
    type V = TRexView;

    closed spec fn view(&self) -> TRexView {
        TRexView {
            jump: match self.jump {
                Some(p) => Some(
                    JumpView {
                        max: p.spec_max(),
                        duration: p.spec_duration(),
                        time: p.spec_time(),
                    },
                ),
                None => None,
            },
            crouching: self.crouching,
        }
    }
}

/// The jump arc after one tick of the jump logic: an active arc advances
/// and is dropped once finished; then, if no arc is active and the action
/// key is pressed, a fresh arc starts, lower and shorter when crouched.
pub open spec fn spec_handle_jump(j: Option<JumpView>, space: bool, crouching: bool) -> Option<
    JumpView,
> {
    let advanced = match j {
        Some(p) => {
            if p.time + 1 >= p.duration {
                None
            } else {
                Some(JumpView { max: p.max, duration: p.duration, time: p.time + 1 })
            }
        },
        None => None,
    };
    if advanced is None && space {
        if crouching {
            Some(
                JumpView {
                    max: CROUCH_JUMP_HEIGHT as int,
                    duration: CROUCH_JUMP_DURATION as int,
                    time: 0,
                },
            )
        } else {
            Some(JumpView { max: JUMP_HEIGHT as int, duration: JUMP_DURATION as int, time: 0 })
        }
    } else {
        advanced
    }
}

/// One tick of player physics from a key state: crouching tracks the Down
/// key, then the jump logic runs with the new crouch state.
pub open spec fn spec_trex_step(t: TRexView, keys: Keys) -> TRexView {
    let crouching = keys.spec_pressing(Key::Down);
    TRexView {
        crouching,
        jump: spec_handle_jump(t.jump, keys.spec_pressing(Key::Space), crouching),
    }
}

/// The character's current height above the ground.
pub open spec fn spec_trex_y(t: TRexView) -> int {
    match t.jump {
        Some(j) => parabola_value_at(j.max, j.duration, j.time),
        None => 0,
    }
}

impl TRex {
    /// Well-formedness: an active jump arc is one of the two jump
    /// configurations and has not run past its duration.
    pub closed spec fn wf(self) -> bool {
        match self.jump {
            Some(p) => {
                &&& p.wf()
                &&& 0 <= p.spec_time() <= p.spec_duration()
                &&& ((p.spec_max() == CROUCH_JUMP_HEIGHT && p.spec_duration()
                    == CROUCH_JUMP_DURATION) || (p.spec_max() == JUMP_HEIGHT
                    && p.spec_duration() == JUMP_DURATION))
            },
            None => true,
        }
    }

    /// A grounded, upright character.
    pub fn new() -> (r: TRex)
        ensures
            r.wf(),
            r@.jump is None,
            !r@.crouching,
    {
        TRex { jump: None, crouching: false }
    }

    /// Ground row and current height of the character.
    pub fn pos(&self) -> (r: (i32, i32))
        requires
            self.wf(),
        ensures
            r.0 == 4,
            r.1 == spec_trex_y(self@),
    {
        proof {
            if let Some(p) = self.jump {
                crate::motion::lemma_parabola_value_nonneg(
                    p.spec_max(),
                    p.spec_duration(),
                    p.spec_time(),
                );
                crate::motion::lemma_parabola_value_le_max(
                    p.spec_max(),
                    p.spec_duration(),
                    p.spec_time(),
                );
            }
        }
        let height: i32 = match &self.jump {
            Some(p) => p.value() as i32,
            None => 0,
        };
        (TREX_Y, height)
    }

    /// One tick of player physics from the given key state.
    pub fn update(&mut self, keys: Keys)
        requires
            old(self).wf(),
        ensures
            final(self).wf(),
            final(self)@ == spec_trex_step(old(self)@, keys),
    {
        self.crouching = keys.pressing(Key::Down);
        self.handle_jump(keys);
    }

    /// Advances an active jump arc (dropping it once finished), then starts
    /// a new one if grounded and the action key is pressed.
    pub fn handle_jump(&mut self, keys: Keys)
        requires
            old(self).wf(),
        ensures
            final(self).wf(),
            final(self)@.crouching == old(self)@.crouching,
            final(self)@.jump == spec_handle_jump(
                old(self)@.jump,
                keys.spec_pressing(Key::Space),
                old(self)@.crouching,
            ),
    {
        // Update Jump
        if let Some(parabola) = &mut self.jump {
            parabola.step();

            if parabola.finished() {
                self.jump = None;
            }
        }

        // Start Jump
        if self.jump.is_none() && keys.pressing(Key::Space) {
            let jump_height: usize = if self.crouching {
                CROUCH_JUMP_HEIGHT
            } else {
                JUMP_HEIGHT
            };
            let jump_duration: usize = if self.crouching {
                CROUCH_JUMP_DURATION
            } else {
                JUMP_DURATION
            };
            self.jump = Some(Parabola::new(jump_height, jump_duration));
        }
    }
}

/// The compiled-in sprite artwork the game draws and collides with.
pub struct Assets {
    pub trex_running: ImageAnimation,
    pub trex_crouching: ImageAnimation,
    pub bird: ImageAnimation,
    pub cactuses: Vec<Image>,
}

impl Assets {
    /// The frame counts and pixel widths the game logic relies on.
    pub open spec fn wf(self) -> bool {
        &&& spec_animation_shape(self.trex_running, 2, 14)
        &&& spec_animation_shape(self.trex_crouching, 2, 18)
        &&& spec_animation_shape(self.bird, 4, 17)
        &&& self.cactuses@.len() == 3
        &&& forall|i: int|
            0 <= i < self.cactuses@.len() ==> (#[trigger] self.cactuses@[i]).wf()
                && self.cactuses@[i].width == 11 && self.cactuses@[i].pixels@.len() > 0
    }

    pub fn new() -> (r: Assets)
        ensures
            r.wf(),
    {
        Assets {
            trex_running: trex_running(),
            trex_crouching: trex_crouching(),
            bird: bird(),
            cactuses: cactuses(),
        }
    }
}

/// The sprite the character shows at a given frame: the crouching or
/// running animation, cycled at a quarter of the frame rate on the ground
/// and half in the air, with a one-pixel gait shuffle while grounded and
/// the jump height as the anchor's y.
pub open spec fn spec_trex_sprite(t: TRexView, frame: int, assets: Assets) -> SpriteV {
    let divisor: int = if t.jump is Some {
        2
    } else {
        4
    };
    let skin = if t.crouching {
        assets.trex_crouching
    } else {
        assets.trex_running
    };
    let x: int = if t.jump is Some {
        0
    } else {
        (frame / divisor) % 2
    };
    SpriteV {
        image: skin.0@[(frame / divisor) % skin.0@.len() as int],
        position: Pos { x: x as i32, y: spec_trex_y(t) as i32 },
        origin: OriginPair { x: Origin::Min, y: Origin::Max },
    }
}

impl TRex {
    /// The character's sprite for the given frame.
    pub fn sprite<'a>(&self, frame_count: usize, assets: &'a Assets) -> (r: Sprite<'a>)
        requires
            self.wf(),
            assets.wf(),
        ensures
            r@ == spec_trex_sprite(self@, frame_count as int, *assets),
            r@.wf(),
    {
        proof {
            if let Some(p) = self.jump {
                crate::motion::lemma_parabola_value_nonneg(
                    p.spec_max(),
                    p.spec_duration(),
                    p.spec_time(),
                );
                crate::motion::lemma_parabola_value_le_max(
                    p.spec_max(),
                    p.spec_duration(),
                    p.spec_time(),
                );
            }
        }
        let skin_frame_divisor: usize = if self.jump.is_some() {
            2
        } else {
            4
        };
        let skin: &ImageAnimation = if self.crouching {
            &assets.trex_crouching
        } else {
            &assets.trex_running
        };

        let x: i32 = if self.jump.is_some() {
            0
        } else {
            ((frame_count / skin_frame_divisor) % 2) as i32
        };

        Sprite {
            image: skin.image(frame_count / skin_frame_divisor),
            position: Pos::new(x, self.pos().1),
            origin: OriginPair::new(Origin::Min, Origin::Max),
        }
    }
}

/// The obstacle kind: a cactus variant, or the bird with its own
/// animation.
#[derive(Copy, Clone, Debug, PartialEq, Eq, Structural)]
pub enum EnemyModel {
    Cactus { model: u8 },
    Bird,
}

/// An obstacle: a position, a leftward speed in pixels per tick fixed at
/// spawn time, and its model.
#[derive(Copy, Clone, Debug, PartialEq, Eq, Structural)]
pub struct Enemy {
    pub position: Pos,
    pub velocity: u8,
    pub model: EnemyModel,
}

/// What holds of every live obstacle when the tick counter reads `frame`:
/// it has not scrolled further left than its age allows, it sits inside
/// the spawn range, and its speed and model tag are from the spawn rules.
pub open spec fn spec_enemy_wf(e: Enemy, frame: int) -> bool {
    &&& -7 * frame <= e.position.x <= u16::MAX
    &&& 0 <= e.position.y <= 20
    &&& 3 <= e.velocity <= 7
    &&& match e.model {
        EnemyModel::Cactus { model } => model < 3,
        EnemyModel::Bird => true,
    }
}

/// The loose bounds every obstacle handed to the sprite engine satisfies:
/// weaker than `spec_enemy_wf`, and wide enough to also cover obstacles
/// extrapolated a short time ahead.
pub open spec fn spec_enemy_bounded(e: Enemy) -> bool {
    &&& -400_000_000 <= e.position.x <= 100_000
    &&& 0 <= e.position.y <= 20
    &&& e.velocity <= 7
    &&& match e.model {
        EnemyModel::Cactus { model } => model < 3,
        EnemyModel::Bird => true,
    }
}

/// The image an obstacle shows at a given frame: its cactus variant, or
/// the bird animation cycled in proportion to its speed.
pub open spec fn spec_enemy_skin(e: Enemy, frame: int, assets: Assets) -> Image {
    match e.model {
        EnemyModel::Cactus { model } => assets.cactuses@[model as int],
        EnemyModel::Bird => assets.bird.0@[((e.velocity * frame) / 16) % assets.bird.0@.len() as int],
    }
}

/// The sprite an obstacle shows at a given frame, anchored at its position
/// with `Max` y-origin so its feet stay on its row.
pub open spec fn spec_enemy_sprite(e: Enemy, frame: int, assets: Assets) -> SpriteV {
    SpriteV {
        image: spec_enemy_skin(e, frame, assets),
        position: e.position,
        origin: OriginPair { x: Origin::Min, y: Origin::Max },
    }
}

impl Enemy {
    fn skin<'a>(&self, frame_count: usize, assets: &'a Assets) -> (r: &'a Image)
        requires
            assets.wf(),
            spec_enemy_bounded(*self),
            frame_count <= FRAME_LIMIT,
        ensures
            *r == spec_enemy_skin(*self, frame_count as int, *assets),
            r.wf(),
            r.pixels@.len() > 0,
            r.width > 0,
    {
        match self.model {
            EnemyModel::Cactus { model } => &assets.cactuses[model as usize],
            EnemyModel::Bird => {
                proof {
                    assert((self.velocity as int) * (frame_count as int) <= 7 * 50_000_000)
                        by (nonlinear_arith)
                        requires
                            self.velocity <= 7,
                            0 <= frame_count <= 50_000_000,
                    ;
                }
                assets.bird.image(self.velocity as usize * frame_count / 16)
            },
        }
    }

    fn sprite<'a>(&self, frame_count: usize, assets: &'a Assets) -> (r: Sprite<'a>)
        requires
            assets.wf(),
            spec_enemy_bounded(*self),
            frame_count <= FRAME_LIMIT,
        ensures
            r@ == spec_enemy_sprite(*self, frame_count as int, *assets),
            r@.wf(),
    {
        Sprite {
            image: self.skin(frame_count, assets),
            position: self.position,
            origin: OriginPair::new(Origin::Min, Origin::Max),
        }
    }
}

/// Ticks beyond this would let obstacle coordinates creep toward the `i32`
/// rim; the surrounding application checks it before each tick.
pub const FRAME_LIMIT: usize = 50_000_000;

/// Once the front obstacle's position has scrolled to or past this
/// threshold it is fully off-screen and leaves the queue.
pub const DESPAWN_Y_BARRIER: i32 = -32;

/// What holds of every obstacle in the queue at tick `frame`.
pub open spec fn spec_enemies_wf(q: Seq<Enemy>, frame: int) -> bool {
    forall|i: int| 0 <= i < q.len() ==> spec_enemy_wf(#[trigger] q[i], frame)
}

/// The obstacle queue after the despawn step: the front (oldest) obstacle
/// leaves once at or past the off-screen threshold; only the front is ever
/// checked.
pub open spec fn spec_despawn(q: Seq<Enemy>) -> Seq<Enemy> {
    if q.len() > 0 && q[0].position.x <= DESPAWN_Y_BARRIER {
        q.subrange(1, q.len() as int)
    } else {
        q
    }
}

/// An obstacle one tick later: moved left by its own speed.
pub open spec fn spec_moved_enemy(e: Enemy) -> Enemy {
    Enemy {
        position: Pos { x: (e.position.x - e.velocity) as i32, y: e.position.y },
        velocity: e.velocity,
        model: e.model,
    }
}

/// The whole queue one tick later: every obstacle moved by its own speed.
pub open spec fn spec_move_all(q: Seq<Enemy>) -> Seq<Enemy> {
    Seq::new(q.len(), |i: int| spec_moved_enemy(q[i]))
}

/// An obstacle displaced by `time` ticks' worth of its own speed, as the
/// collision probe repositions it.
pub open spec fn spec_enemy_probed(e: Enemy, time: int) -> Enemy {
    Enemy {
        position: Pos { x: (e.position.x + e.velocity * time) as i32, y: e.position.y },
        velocity: e.velocity,
        model: e.model,
    }
}

/// What holds of a freshly spawned obstacle: it enters at the trailing
/// viewport edge, as a ground cactus at speed 3, or — never during the
/// first 100 ticks — as a bird at a drawn height and speed.
pub open spec fn spec_spawn_ok(e: Enemy, width: u16, frame: int) -> bool {
    &&& e.position.x == width
    &&& match e.model {
        EnemyModel::Cactus { model } => model == 0 && e.position.y == 0 && e.velocity == 3,
        EnemyModel::Bird => frame >= 100 && 1 <= e.position.y <= 20 && 4 <= e.velocity <= 7,
    }
}

/// Whether the character collides with any live obstacle, each displaced
/// by `time` ticks' worth of its speed, with sprites taken at frame
/// `frame`: exact pixel-mask overlap, not box overlap.
pub open spec fn spec_collision(
    enemies: Seq<Enemy>,
    t: TRexView,
    time: int,
    frame: int,
    assets: Assets,
) -> bool {
    exists|i: int|
        0 <= i < enemies.len() && spec_overlap(
            spec_enemy_sprite(spec_enemy_probed(enemies[i], time), frame, assets),
            spec_trex_sprite(t, frame, assets),
        )
}

/// What the surrounding application hands the game each tick: the viewport
/// size, the live key state, and the autopilot input window.
pub struct GameContext<'a> {
    pub size: Size,
    pub keys: Keys,
    pub solution: &'a Solution,
}

/// The game state in mathematical form; the random generator is left out,
/// as nothing is assumed of it.
pub struct GameView {
    pub trex: TRexView,
    pub trex_solution: TRexView,
    pub enemies: Seq<Enemy>,
    pub enemy_cooldown: int,
    pub frame_count: int,
    pub assets: Assets,
}

/// The endless-runner simulation: the player, its autopilot ghost, the
/// obstacle queue, the spawn countdown, the spawn randomness, the tick
/// counter, and the sprite artwork.
pub struct TRexGame {
    trex: TRex,
    trex_solution: TRex,
    enemies: Vec<Enemy>,
    enemy_cooldown: u16,
    random: SmallRng,
    frame_count: usize,
    assets: Assets,
}

impl View for TRexGame {
    type V = GameView;

    closed spec fn view(&self) -> GameView {
        GameView {
            trex: self.trex@,
            trex_solution: self.trex_solution@,
            enemies: self.enemies@,
            enemy_cooldown: self.enemy_cooldown as int,
            frame_count: self.frame_count as int,
            assets: self.assets,
        }
    }
}

impl TRexGame {
    /// Well-formedness: both characters, the artwork, a tick counter below
    /// the limit, and a queue of in-range obstacles.
    pub closed spec fn wf(self) -> bool {
        &&& self.trex.wf()
        &&& self.trex_solution.wf()
        &&& self.assets.wf()
        &&& self.frame_count <= FRAME_LIMIT
        &&& spec_enemies_wf(self.enemies@, self.frame_count as int)
    }

    pub fn new() -> (r: TRexGame)
        ensures
            r.wf(),
            r@.trex.jump is None,
            !r@.trex.crouching,
            r@.trex_solution == r@.trex,
            r@.enemies == Seq::<Enemy>::empty(),
            r@.enemy_cooldown == 10,
            r@.frame_count == 0,
    {
        let initial_trex = TRex::new();
        TRexGame {
            trex: initial_trex,
            trex_solution: initial_trex,
            frame_count: 0,
            enemies: Vec::new(),
            enemy_cooldown: 10,
            // The bytes of "Seed chosen by a fair dice roll.".
            random: rng_from_seed(
                [
                    83, 101, 101, 100, 32, 99, 104, 111, 115, 101, 110, 32, 98, 121, 32, 97,
                    32, 102, 97, 105, 114, 32, 100, 105, 99, 101, 32, 114, 111, 108, 108,
                    46,
                ],
            ),
            assets: Assets::new(),
        }
    }

    pub fn frame_count(&self) -> (r: usize)
        ensures
            r == self@.frame_count,
    {
        self.frame_count
    }

    pub fn enemy_cooldown(&self) -> (r: u16)
        ensures
            r == self@.enemy_cooldown,
    {
        self.enemy_cooldown
    }

    pub fn enemies(&self) -> (r: &Vec<Enemy>)
        ensures
            r@ == self@.enemies,
    {
        &self.enemies
    }

    /// One tick of the whole simulation, in despawn-before-spawn,
    /// physics-before-collision order: player physics from the live keys,
    /// ghost physics from the solution window, despawn, spawn, obstacle
    /// motion, then the pixel-exact collision check whose outcome — the
    /// game-over signal — is returned for the caller to act on.
    pub fn update(&mut self, game: &GameContext) -> (game_over: bool)
        requires
            old(self).wf(),
            old(self)@.frame_count < FRAME_LIMIT,
            game.solution.wf(),
        ensures
            final(self).wf(),
            final(self)@.frame_count == old(self)@.frame_count + 1,
            final(self)@.assets == old(self)@.assets,
            final(self)@.trex == spec_trex_step(old(self)@.trex, game.keys),
            final(self)@.trex_solution == spec_trex_step(
                old(self)@.trex_solution,
                game.solution.spec_keys_at(0),
            ),
            ({
                let base = spec_move_all(spec_despawn(old(self)@.enemies));
                if old(self)@.enemy_cooldown == 0 {
                    &&& exists|e: Enemy|
                        spec_spawn_ok(e, game.size.width, old(self)@.frame_count)
                            && final(self)@.enemies == base.push(spec_moved_enemy(e))
                    &&& 9 <= final(self)@.enemy_cooldown <= 48
                } else {
                    &&& final(self)@.enemies == base
                    &&& final(self)@.enemy_cooldown == old(self)@.enemy_cooldown - 1
                }
            }),
            game_over == spec_collision(
                final(self)@.enemies,
                final(self)@.trex,
                0,
                old(self)@.frame_count,
                old(self)@.assets,
            ),
    {
        self.trex.update(game.keys);
        self.trex_solution.update(game.solution.keys(0));

        self.despawn_enemies();
        let ghost frame0 = old(self).frame_count as int;
        let ghost despawned = self.enemies@;
        proof {
            assert forall|i: int| 0 <= i < despawned.len() implies spec_enemy_wf(
                #[trigger] despawned[i],
                frame0,
            ) by {
                if old(self).enemies@.len() > 0 && old(self).enemies@[0].position.x
                    <= DESPAWN_Y_BARRIER {
                    assert(despawned[i] == old(self).enemies@[i + 1]);
                }
            }
        }

        self.spawn_enemies(game);
        let ghost mid = self.enemies@;
        proof {
            assert forall|i: int| 0 <= i < mid.len() implies spec_enemy_wf(
                #[trigger] mid[i],
                frame0,
            ) && mid[i].position.x >= i32::MIN + 255 by {
                if i < despawned.len() {
                    assert(mid[i] == despawned[i]);
                }
            }
        }

        self.update_enemies();
        proof {
            let base = spec_move_all(despawned);
            if old(self).enemy_cooldown == 0 {
                let e = choose|e: Enemy|
                    spec_spawn_ok(e, game.size.width, frame0) && mid == despawned.push(e);
                assert(spec_move_all(despawned.push(e)) =~= base.push(spec_moved_enemy(e)));
                assert(self.enemies@ == base.push(spec_moved_enemy(e)));
            } else {
                assert(self.enemies@ =~= base);
            }
            assert forall|i: int| 0 <= i < self.enemies@.len() implies spec_enemy_wf(
                #[trigger] self.enemies@[i],
                frame0 + 1,
            ) && spec_enemy_bounded(self.enemies@[i]) && self.enemies@[i].position.x
                <= u16::MAX by {
                assert(self.enemies@[i] == spec_moved_enemy(mid[i]));
                assert(spec_enemy_wf(mid[i], frame0));
            }
        }

        let trex_now = self.trex;
        let game_over = self.collide(&trex_now, 0);

        self.frame_count = self.frame_count + 1;
        game_over
    }

    /// Whether the character would overlap any obstacle displaced by
    /// `time` ticks' worth of its speed, at the matching animation frame.
    fn collide(&self, trex: &TRex, time: usize) -> (r: bool)
        requires
            trex.wf(),
            self.assets.wf(),
            time <= 1024,
            self.frame_count + time <= FRAME_LIMIT,
            forall|i: int|
                0 <= i < self.enemies@.len() ==> spec_enemy_bounded(#[trigger] self.enemies@[i])
                    && self.enemies@[i].position.x <= u16::MAX,
        ensures
            r == spec_collision(
                self.enemies@,
                trex@,
                time as int,
                self.frame_count + time,
                self.assets,
            ),
    {
        let frame_count: usize = self.frame_count + time;
        let trex_sprite = trex.sprite(frame_count, &self.assets);

        let mut i: usize = 0;
        while i < self.enemies.len()
            invariant
                trex.wf(),
                self.assets.wf(),
                time <= 1024,
                self.frame_count + time <= FRAME_LIMIT,
                frame_count == self.frame_count + time,
                trex_sprite@ == spec_trex_sprite(trex@, frame_count as int, self.assets),
                trex_sprite@.wf(),
                forall|j: int|
                    0 <= j < self.enemies@.len() ==> spec_enemy_bounded(
                        #[trigger] self.enemies@[j],
                    ) && self.enemies@[j].position.x <= u16::MAX,
                i <= self.enemies@.len(),
                forall|j: int|
                    0 <= j < i ==> !spec_overlap(
                        spec_enemy_sprite(
                            spec_enemy_probed(#[trigger] self.enemies@[j], time as int),
                            frame_count as int,
                            self.assets,
                        ),
                        spec_trex_sprite(trex@, frame_count as int, self.assets),
                    ),
            decreases self.enemies@.len() - i,
        {
            let e = self.enemies[i];
            proof {
                assert((e.velocity as int) * (time as int) <= 7 * 1024) by (nonlinear_arith)
                    requires
                        e.velocity <= 7,
                        0 <= time <= 1024,
                ;
            }
            let probed = Enemy {
                position: Pos::new(
                    e.position.x + e.velocity as i32 * time as i32,
                    e.position.y,
                ),
                velocity: e.velocity,
                model: e.model,
            };
            let enemy_sprite = probed.sprite(frame_count, &self.assets);
            if enemy_sprite.collide(&trex_sprite) {
                return true;
            }
            i = i + 1;
        }
        false
    }

    fn spawn_cactus(&mut self, game: &GameContext)
        ensures
            final(self).enemies@ == old(self).enemies@.push(
                Enemy {
                    position: Pos { x: game.size.width as i32, y: 0 },
                    velocity: 3,
                    model: EnemyModel::Cactus { model: 0 },
                },
            ),
            final(self).trex == old(self).trex,
            final(self).trex_solution == old(self).trex_solution,
            final(self).enemy_cooldown == old(self).enemy_cooldown,
            final(self).frame_count == old(self).frame_count,
            final(self).assets == old(self).assets,
    {
        self.enemies.push(
            Enemy {
                position: Pos::new(game.size.width as i32, 0),
                velocity: 3,
                model: EnemyModel::Cactus { model: 0 },
            },
        );
    }

    fn spawn_bird(&mut self, game: &GameContext)
        requires
            old(self).frame_count >= 100,
        ensures
            exists|e: Enemy|
                spec_spawn_ok(e, game.size.width, old(self).frame_count as int) && final(self).enemies@ == old(self).enemies@.push(e),
            final(self).trex == old(self).trex,
            final(self).trex_solution == old(self).trex_solution,
            final(self).enemy_cooldown == old(self).enemy_cooldown,
            final(self).frame_count == old(self).frame_count,
            final(self).assets == old(self).assets,
    {
        let x: i32 = game.size.width as i32;
        let y: i32 = rng_range_incl_u32(&mut self.random, 1, 20) as i32;
        let velocity: u8 = rng_range_incl_u32(&mut self.random, 4, 7) as u8;

        let e = Enemy { position: Pos::new(x, y), velocity, model: EnemyModel::Bird };
        self.enemies.push(e);
        proof {
            assert(spec_spawn_ok(e, game.size.width, old(self).frame_count as int));
        }
    }

    /// Weighted obstacle choice: a 3-in-4 coin favors the ground cactus,
    /// and the first 100 ticks force it, so no bird spawns unfairly early.
    fn spawn_enemy(&mut self, game: &GameContext)
        ensures
            exists|e: Enemy|
                spec_spawn_ok(e, game.size.width, old(self).frame_count as int) && final(self).enemies@ == old(self).enemies@.push(e),
            final(self).trex == old(self).trex,
            final(self).trex_solution == old(self).trex_solution,
            final(self).enemy_cooldown == old(self).enemy_cooldown,
            final(self).frame_count == old(self).frame_count,
            final(self).assets == old(self).assets,
    {
        let roll: u32 = rng_next_u32(&mut self.random);
        let spawn_cactus = roll & 3 != 0 || self.frame_count < 100;

        if spawn_cactus {
            self.spawn_cactus(game);
        } else {
            self.spawn_bird(game);
        }
    }

    /// Decrements the spawn countdown; at zero, redraws it from 10..50 and
    /// spawns one obstacle.
    fn spawn_enemies(&mut self, game: &GameContext)
        ensures
            old(self).enemy_cooldown == 0 ==> (exists|e: Enemy|
                spec_spawn_ok(e, game.size.width, old(self).frame_count as int) && final(self).enemies@ == old(self).enemies@.push(e)) && 9 <= final(self).enemy_cooldown
                <= 48,
            old(self).enemy_cooldown != 0 ==> final(self).enemies@ == old(self).enemies@
                && final(self).enemy_cooldown == old(self).enemy_cooldown - 1,
            final(self).trex == old(self).trex,
            final(self).trex_solution == old(self).trex_solution,
            final(self).frame_count == old(self).frame_count,
            final(self).assets == old(self).assets,
    {
        if self.enemy_cooldown == 0 {
            self.enemy_cooldown = rng_range_u32(&mut self.random, 10, 50) as u16;

            self.spawn_enemy(game);
        }

        self.enemy_cooldown = self.enemy_cooldown - 1;
    }

    /// Advances every live obstacle by its own speed, leftward.
    fn update_enemies(&mut self)
        requires
            forall|i: int|
                0 <= i < old(self).enemies@.len() ==> (#[trigger] old(self).enemies@[i]).position.x >= i32::MIN + 255,
        ensures
            final(self).enemies@ == spec_move_all(old(self).enemies@),
            final(self).trex == old(self).trex,
            final(self).trex_solution == old(self).trex_solution,
            final(self).enemy_cooldown == old(self).enemy_cooldown,
            final(self).frame_count == old(self).frame_count,
            final(self).assets == old(self).assets,
    {
        let mut i: usize = 0;
        while i < self.enemies.len()
            invariant
                self.enemies@.len() == old(self).enemies@.len(),
                i <= self.enemies@.len(),
                forall|j: int|
                    0 <= j < old(self).enemies@.len() ==> (#[trigger] old(self).enemies@[j]).position.x >= i32::MIN + 255,
                forall|j: int|
                    0 <= j < i ==> self.enemies@[j] == spec_moved_enemy(
                        #[trigger] old(self).enemies@[j],
                    ),
                forall|j: int|
                    i <= j < self.enemies@.len() ==> self.enemies@[j] == #[trigger] old(self).enemies@[j],
                self.trex == old(self).trex,
                self.trex_solution == old(self).trex_solution,
                self.enemy_cooldown == old(self).enemy_cooldown,
                self.frame_count == old(self).frame_count,
                self.assets == old(self).assets,
            decreases self.enemies@.len() - i,
        {
            let e = self.enemies[i];
            proof {
                assert(e == old(self).enemies@[i as int]);
            }
            self.enemies[i] = Enemy {
                position: Pos::new(e.position.x - e.velocity as i32, e.position.y),
                velocity: e.velocity,
                model: e.model,
            };
            i = i + 1;
        }
        proof {
            assert(self.enemies@ =~= spec_move_all(old(self).enemies@));
        }
    }

    /// Removes the front (oldest) obstacle once it has scrolled to or past
    /// the off-screen threshold; only the front is ever checked, since
    /// obstacles leave in spawn order.
    fn despawn_enemies(&mut self)
        ensures
            final(self).enemies@ == spec_despawn(old(self).enemies@),
            final(self).trex == old(self).trex,
            final(self).trex_solution == old(self).trex_solution,
            final(self).enemy_cooldown == old(self).enemy_cooldown,
            final(self).frame_count == old(self).frame_count,
            final(self).assets == old(self).assets,
    {
        if self.enemies.len() > 0 {
            let front = self.enemies[0];
            if front.position.x <= DESPAWN_Y_BARRIER {
                self.enemies.remove(0);
                proof {
                    assert(self.enemies@ =~= spec_despawn(old(self).enemies@));
                }
            }
        }
    }

    /// The ghost's state `time` ticks from now, recomputed by replaying the
    /// solution window forward from the current ghost state — a pure
    /// function of the window contents, with no cached trajectory.
    pub fn trex_solution(&self, solution: &Solution, time: usize) -> (r: TRex)
        requires
            self.wf(),
            solution.wf(),
            time < crate::solution::SOLUTION_SIZE,
        ensures
            r.wf(),
            r@ == spec_ghost_replay(self@.trex_solution, *solution, time as int),
    {
        let mut trex = self.trex_solution;
        let mut t: usize = 1;
        while t <= time
            invariant
                solution.wf(),
                trex.wf(),
                1 <= t <= time + 1,
                time < crate::solution::SOLUTION_SIZE,
                trex@ == spec_ghost_replay(self@.trex_solution, *solution, t - 1),
            decreases time - t + 1,
        {
            let keys = solution.keys(t);
            trex.update(keys);
            t = t + 1;
        }
        trex
    }

    /// The clipped draw commands for this frame: exactly the on-canvas
    /// projections of the player, the ghost, and every live obstacle, in
    /// that order; sprites that lie entirely off-canvas contribute none.
    pub fn draw<'a>(&'a self, origin: Pos, canvas_size: Size) -> (r: Vec<SpriteRect<'a>>)
        requires
            self.wf(),
            crate::image::spec_coord_bounded(origin.x as int),
            crate::image::spec_coord_bounded(origin.y as int),
        ensures
            ({
                let cmds = spec_draw_list(self@, origin, canvas_size);
                &&& r@.len() == cmds.len()
                &&& forall|j: int|
                    0 <= j < r@.len() ==> (#[trigger] r@[j]).wf() && spec_is_rect_of(
                        r@[j],
                        cmds[j],
                        origin,
                        canvas_size,
                    )
            }),
    {
        let mut out: Vec<SpriteRect<'a>> = Vec::new();
        let ghost character_cmds = spec_character_sprites(self@, origin, canvas_size);

        let player = self.trex.sprite(self.frame_count, &self.assets);
        if let Some(rect) = player.rect(origin, canvas_size) {
            out.push(rect);
        }
        let ghost_player = self.trex_solution.sprite(self.frame_count, &self.assets);
        if let Some(rect) = ghost_player.rect(origin, canvas_size) {
            out.push(rect);
        }
        proof {
            let ps = spec_trex_sprite(self@.trex, self@.frame_count, self@.assets);
            let gs = spec_trex_sprite(self@.trex_solution, self@.frame_count, self@.assets);
            let vp = spec_rect_visible(ps, origin, canvas_size);
            let vg = spec_rect_visible(gs, origin, canvas_size);
            if vp && vg {
                assert(character_cmds =~= seq![ps, gs]);
            } else if vp {
                assert(character_cmds =~= seq![ps]);
            } else if vg {
                assert(character_cmds =~= seq![gs]);
            } else {
                assert(character_cmds =~= Seq::<SpriteV>::empty());
            }
        }

        let mut i: usize = 0;
        while i < self.enemies.len()
            invariant
                self.wf(),
                crate::image::spec_coord_bounded(origin.x as int),
                crate::image::spec_coord_bounded(origin.y as int),
                i <= self.enemies@.len(),
                character_cmds == spec_character_sprites(self@, origin, canvas_size),
                ({
                    let prefix = character_cmds + spec_visible_enemy_sprites(
                        self@.enemies.take(i as int),
                        self@.frame_count,
                        self@.assets,
                        origin,
                        canvas_size,
                    );
                    &&& out@.len() == prefix.len()
                    &&& forall|j: int|
                        0 <= j < out@.len() ==> (#[trigger] out@[j]).wf() && spec_is_rect_of(
                            out@[j],
                            prefix[j],
                            origin,
                            canvas_size,
                        )
                }),
            decreases self.enemies@.len() - i,
        {
            let enemy_sprite = self.enemies[i].sprite(self.frame_count, &self.assets);
            proof {
                let taken = self@.enemies.take(i as int + 1);
                assert(taken.drop_last() =~= self@.enemies.take(i as int));
                assert(taken.last() == self@.enemies[i as int]);
            }
            if let Some(rect) = enemy_sprite.rect(origin, canvas_size) {
                out.push(rect);
            }
            i = i + 1;
        }
        proof {
            assert(self@.enemies.take(self@.enemies.len() as int) =~= self@.enemies);
        }
        out
    }
}

/// The sprites the player and the ghost show this frame, in that order,
/// keeping only those whose projection reaches the canvas.
pub open spec fn spec_character_sprites(g: GameView, origin: Pos, canvas_size: Size) -> Seq<
    SpriteV,
> {
    let player = spec_trex_sprite(g.trex, g.frame_count, g.assets);
    let ghost_player = spec_trex_sprite(g.trex_solution, g.frame_count, g.assets);
    (if spec_rect_visible(player, origin, canvas_size) {
        seq![player]
    } else {
        Seq::<SpriteV>::empty()
    }) + (if spec_rect_visible(ghost_player, origin, canvas_size) {
        seq![ghost_player]
    } else {
        Seq::<SpriteV>::empty()
    })
}

/// The sprites of the obstacles whose projection reaches the canvas, in
/// queue order.
pub open spec fn spec_visible_enemy_sprites(
    enemies: Seq<Enemy>,
    frame: int,
    assets: Assets,
    origin: Pos,
    canvas_size: Size,
) -> Seq<SpriteV>
    decreases enemies.len(),
{
    if enemies.len() <= 0 {
        Seq::<SpriteV>::empty()
    } else {
        let rest = spec_visible_enemy_sprites(
            enemies.drop_last(),
            frame,
            assets,
            origin,
            canvas_size,
        );
        let s = spec_enemy_sprite(enemies.last(), frame, assets);
        if spec_rect_visible(s, origin, canvas_size) {
            rest.push(s)
        } else {
            rest
        }
    }
}

/// Everything a frame shows, in draw order: the player, the ghost, then
/// each obstacle — exactly those whose projection reaches the canvas.
pub open spec fn spec_draw_list(g: GameView, origin: Pos, canvas_size: Size) -> Seq<SpriteV> {
    spec_character_sprites(g, origin, canvas_size) + spec_visible_enemy_sprites(
        g.enemies,
        g.frame_count,
        g.assets,
        origin,
        canvas_size,
    )
}

/// The ghost's state after `time` replayed ticks: tick `t` applies the
/// key state at solution offset `t`.
pub open spec fn spec_ghost_replay(t0: TRexView, sol: Solution, time: int) -> TRexView
    decreases time,
{
    if time <= 0 {
        t0
    } else {
        spec_trex_step(spec_ghost_replay(t0, sol, time - 1), sol.spec_keys_at(time))
    }
}

/// One tick of the obstacle pipeline alone — despawn, an arbitrary spawn
/// choice, then motion — exactly the queue transformation that one call of
/// `update` performs.
pub open spec fn spec_tick_queue(q: Seq<Enemy>, spawned: Option<Enemy>) -> Seq<Enemy> {
    match spawned {
        Some(e) => spec_move_all(spec_despawn(q).push(e)),
        None => spec_move_all(spec_despawn(q)),
    }
}

/// The obstacle queue after a run of ticks, one spawn choice per tick.
pub open spec fn spec_run_queue(q: Seq<Enemy>, spawns: Seq<Option<Enemy>>) -> Seq<Enemy>
    decreases spawns.len(),
{
    if spawns.len() <= 0 {
        q
    } else {
        spec_run_queue(spec_tick_queue(q, spawns[0]), spawns.drop_first())
    }
}

/// The number of ticks until a front obstacle at coordinate `x`, moving
/// `v` pixels per tick, is removed: the first tick whose despawn check
/// sees it at or past the threshold.
pub open spec fn spec_ticks_to_despawn(x: int, v: int) -> int
    decreases (if x > DESPAWN_Y_BARRIER && v >= 1 {
        x + 32
    } else {
        0
    }),
{
    if v < 1 {
        1
    } else if x <= DESPAWN_Y_BARRIER {
        1
    } else {
        1 + spec_ticks_to_despawn(x - v, v)
    }
}

/// An enemy after `n` ticks of its own motion.
pub open spec fn spec_moved_times(e: Enemy, n: int) -> Enemy
    decreases n,
{
    if n <= 0 {
        e
    } else {
        spec_moved_enemy(spec_moved_times(e, n - 1))
    }
}

/// Running one more tick at the end of a run is one tick applied to the
/// run's result.
proof fn lemma_run_queue_push(q: Seq<Enemy>, spawns: Seq<Option<Enemy>>, s: Option<Enemy>)
    ensures
        spec_run_queue(q, spawns.push(s)) == spec_tick_queue(spec_run_queue(q, spawns), s),
    decreases spawns.len(),
{
    if spawns.len() == 0 {
        assert(spawns.push(s)[0] == s);
        assert(spawns.push(s).drop_first() =~= Seq::<Option<Enemy>>::empty());
        assert(spec_run_queue(spec_tick_queue(q, s), Seq::<Option<Enemy>>::empty())
            == spec_tick_queue(q, s));
    } else {
        assert(spawns.push(s)[0] == spawns[0]);
        assert(spawns.push(s).drop_first() =~= spawns.drop_first().push(s));
        lemma_run_queue_push(spec_tick_queue(q, spawns[0]), spawns.drop_first(), s);
    }
}

/// While an obstacle's despawn tick has not come, its coordinate has not
/// yet reached the threshold.
proof fn lemma_ticks_to_despawn_survives(x: int, v: int, i: int)
    requires
        v >= 1,
        0 <= i,
        i < spec_ticks_to_despawn(x, v) - 1,
    ensures
        x - i * v > DESPAWN_Y_BARRIER,
    decreases i,
{
    if x <= DESPAWN_Y_BARRIER {
        // then the count is 1 and no i qualifies
    } else if i == 0 {
        assert(x - 0 * v == x) by (nonlinear_arith);
    } else {
        lemma_ticks_to_despawn_survives(x - v, v, i - 1);
        assert((x - v) - (i - 1) * v == x - i * v) by (nonlinear_arith);
    }
}

/// The despawn tick count is exact: at the tick it names, the obstacle's
/// coordinate has reached the threshold, and for a coordinate still
/// on-screen it equals one more than the ceiling of the distance to the
/// threshold over the speed, `1 + ceil((x + 32) / v)`.
pub proof fn lemma_ticks_to_despawn_exact(x: int, v: int)
    requires
        v >= 1,
    ensures
        spec_ticks_to_despawn(x, v) >= 1,
        x - (spec_ticks_to_despawn(x, v) - 1) * v <= DESPAWN_Y_BARRIER,
        x > DESPAWN_Y_BARRIER ==> spec_ticks_to_despawn(x, v) == 1 + (x + 31 + v) / v,
    decreases (if x > DESPAWN_Y_BARRIER {
        x + 32
    } else {
        0
    }),
{
    if x <= DESPAWN_Y_BARRIER {
        assert(x - 0 * v <= DESPAWN_Y_BARRIER) by (nonlinear_arith)
            requires
                x <= DESPAWN_Y_BARRIER,
        ;
    } else {
        lemma_ticks_to_despawn_exact(x - v, v);
        let k2 = spec_ticks_to_despawn(x - v, v);
        assert((x - v) - (k2 - 1) * v == x - k2 * v) by (nonlinear_arith);
        if x - v <= DESPAWN_Y_BARRIER {
            // one more tick past the first: the remaining distance is below v
            vstd::arithmetic::div_mod::lemma_basic_div(x + 31, v);
            vstd::arithmetic::div_mod::lemma_div_plus_one(x + 31, v);
        } else {
            vstd::arithmetic::div_mod::lemma_div_plus_one(x + 31, v);
        }
    }
}

/// Obstacle lifecycle at the front of the queue: an obstacle observed at
/// the front survives — and keeps sliding left by exactly its own speed —
/// through every tick before its despawn tick, whatever is spawned behind
/// it. Together with `lemma_ticks_to_despawn_exact` this pins the removal
/// tick exactly: no earlier, no later.
pub proof fn lemma_obstacle_lifecycle(q: Seq<Enemy>, spawns: Seq<Option<Enemy>>, j: int)
    requires
        q.len() > 0,
        q[0].position.x >= DESPAWN_Y_BARRIER,
        q[0].position.x <= u16::MAX,
        1 <= q[0].velocity,
        0 <= j <= spawns.len(),
        j < spec_ticks_to_despawn(q[0].position.x as int, q[0].velocity as int),
    ensures
        ({
            let r = spec_run_queue(q, spawns.take(j));
            &&& r.len() > 0
            &&& r[0].velocity == q[0].velocity
            &&& r[0].model == q[0].model
            &&& r[0].position.y == q[0].position.y
            &&& r[0].position.x == q[0].position.x - j * q[0].velocity
        }),
    decreases j,
{
    let e = q[0];
    let x0 = e.position.x as int;
    let v = e.velocity as int;
    if j == 0 {
        assert(spawns.take(0) =~= Seq::<Option<Enemy>>::empty());
        assert(x0 - 0 * v == x0) by (nonlinear_arith);
    } else {
        lemma_obstacle_lifecycle(q, spawns, j - 1);
        let prev = spec_run_queue(q, spawns.take(j - 1));
        lemma_ticks_to_despawn_survives(x0, v, j - 1);
        assert(spawns.take(j) =~= spawns.take(j - 1).push(spawns[j - 1]));
        lemma_run_queue_push(q, spawns.take(j - 1), spawns[j - 1]);
        assert(spec_despawn(prev) == prev);
        let mid = match spawns[j - 1] {
            Some(s) => spec_despawn(prev).push(s),
            None => spec_despawn(prev),
        };
        assert(mid[0] == prev[0]);
        assert(spec_run_queue(q, spawns.take(j))[0] == spec_moved_enemy(prev[0]));
        assert((x0 - (j - 1) * v) - v == x0 - j * v) by (nonlinear_arith);
    }
}

} // verus!
