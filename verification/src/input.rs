use vstd::prelude::*;

verus! {

/// The fixed set of five logical keys the game reads.
#[derive(Copy, Clone, Debug, PartialEq, Eq, Structural)]
pub enum Key {
    Up,
    Down,
    Left,
    Right,
    Space,
}

impl Key {
    /// The single-bit mask of this key inside a `Keys` bitmask.
    pub open spec fn spec_mask(self) -> u8 {
        match self {
            Key::Up => 1,
            Key::Down => 2,
            Key::Left => 4,
            Key::Right => 8,
            Key::Space => 16,
        }
    }

    /// The key denoted by an index below 5, in declaration order.
    pub open spec fn spec_from_u8(n: u8) -> Key {
        if n == 0 {
            Key::Up
        } else if n == 1 {
            Key::Down
        } else if n == 2 {
            Key::Left
        } else if n == 3 {
            Key::Right
        } else {
            Key::Space
        }
    }

    fn mask(self) -> (r: u8)
        ensures
            r == self.spec_mask(),
    {
        match self {
            Key::Up => 1,
            Key::Down => 2,
            Key::Left => 4,
            Key::Right => 8,
            Key::Space => 16,
        }
    }

    /// Decodes an index below 5 into a key; other indices denote no key and
    /// are a caller error.
    pub fn from_u8(n: u8) -> (r: Key)
        requires
            n < 5,
        ensures
            r == Key::spec_from_u8(n),
    {
        match n {
            0 => Key::Up,
            1 => Key::Down,
            2 => Key::Left,
            3 => Key::Right,
            _ => Key::Space,
        }
    }
}

/// Which keys are currently held and which were freshly pressed this tick,
/// as two bitmasks over the five logical keys.
#[derive(Copy, Clone, Debug, PartialEq, Eq, Structural)]
pub struct Keys {
    just_pressed: u8,
    pressing: u8,
}

impl Keys {
    /// The "freshly pressed this tick" bitmask.
    pub closed spec fn spec_just_pressed_mask(self) -> u8 {
        self.just_pressed
    }

    /// The "currently held" bitmask.
    pub closed spec fn spec_pressing_mask(self) -> u8 {
        self.pressing
    }

    /// Whether `key` was freshly pressed this tick.
    pub open spec fn spec_just_pressed(self, key: Key) -> bool {
        self.spec_just_pressed_mask() & key.spec_mask() != 0
    }

    /// Whether `key` counts as pressed: held, or freshly pressed this tick
    /// (guarding against held/pressed ordering races at tick boundaries).
    pub open spec fn spec_pressing(self, key: Key) -> bool {
        self.spec_just_pressed(key) || self.spec_pressing_mask() & key.spec_mask() != 0
    }

    /// Whether any bit of either mask is set.
    pub open spec fn spec_any_pressed(self) -> bool {
        self.spec_just_pressed_mask() != 0 || self.spec_pressing_mask() != 0
    }

    /// The state after a tick boundary: all "freshly pressed" bits cleared.
    pub closed spec fn spec_updated(self) -> Keys {
        Keys { just_pressed: 0, pressing: self.pressing }
    }

    /// The state after pressing `key`.
    pub closed spec fn spec_pressed(self, key: Key) -> Keys {
        Keys {
            just_pressed: self.just_pressed | key.spec_mask(),
            pressing: self.pressing | key.spec_mask(),
        }
    }

    /// The state after releasing `key`.
    pub closed spec fn spec_released(self, key: Key) -> Keys {
        Keys { just_pressed: self.just_pressed, pressing: self.pressing & !key.spec_mask() }
    }

    pub fn new() -> (r: Self)
        ensures
            r.spec_just_pressed_mask() == 0,
            r.spec_pressing_mask() == 0,
            !r.spec_any_pressed(),
            forall|k: Key| !r.spec_pressing(k) && !r.spec_just_pressed(k),
    {
        proof {
            lemma_zero_mask_clear();
        }
        Self { just_pressed: 0, pressing: 0 }
    }

    /// Clears all "freshly pressed" bits; to be called exactly once per
    /// application tick, after all gameplay logic has read the state.
    pub fn update(&mut self)
        ensures
            final(self).spec_just_pressed_mask() == 0,
            final(self).spec_pressing_mask() == old(self).spec_pressing_mask(),
            forall|k: Key| !final(self).spec_just_pressed(k),
            *final(self) == old(self).spec_updated(),
    {
        proof {
            lemma_zero_mask_clear();
        }
        self.just_pressed = 0;
    }

    /// Sets both the "freshly pressed" and "held" bits for `key`; afterwards
    /// the key counts as pressed.
    pub fn press(&mut self, key: Key)
        ensures
            final(self).spec_just_pressed_mask() == old(self).spec_just_pressed_mask()
                | key.spec_mask(),
            final(self).spec_pressing_mask() == old(self).spec_pressing_mask()
                | key.spec_mask(),
            final(self).spec_pressing(key),
            final(self).spec_just_pressed(key),
            *final(self) == old(self).spec_pressed(key),
    {
        let m: u8 = key.mask();
        proof {
            lemma_or_sets_mask(self.just_pressed, m);
            lemma_or_sets_mask(self.pressing, m);
        }
        self.just_pressed = self.just_pressed | m;
        self.pressing = self.pressing | m;
    }

    /// Clears only the "held" bit for `key`; a press that happened earlier in
    /// the same tick still counts until the next `update`.
    pub fn release(&mut self, key: Key)
        ensures
            final(self).spec_just_pressed_mask() == old(self).spec_just_pressed_mask(),
            final(self).spec_pressing_mask() == old(self).spec_pressing_mask()
                & !key.spec_mask(),
            final(self).spec_pressing(key) == old(self).spec_just_pressed(key),
            *final(self) == old(self).spec_released(key),
    {
        let m: u8 = key.mask();
        proof {
            lemma_and_not_clears_mask(self.pressing, m);
        }
        self.pressing = self.pressing & !m;
    }

    pub fn just_pressed(&self, key: Key) -> (r: bool)
        ensures
            r == self.spec_just_pressed(key),
    {
        (self.just_pressed & key.mask()) != 0
    }

    pub fn pressing(&self, key: Key) -> (r: bool)
        ensures
            r == self.spec_pressing(key),
    {
        let pressing = (self.pressing & key.mask()) != 0;
        self.just_pressed(key) || pressing
    }

    pub fn any_pressed(&self) -> (r: bool)
        ensures
            r == self.spec_any_pressed(),
    {
        self.just_pressed != 0 || self.pressing != 0
    }
}

/// Whether `b` is reachable from `a` by at most `n` single-key releases.
pub open spec fn spec_release_chain(a: Keys, b: Keys, n: nat) -> bool
    decreases n,
{
    a == b || (n > 0 && exists|k: Key| spec_release_chain(a.spec_released(k), b, (n - 1) as nat))
}

/// Whether `b` is reachable from `a` by at most `n` single-key presses.
pub open spec fn spec_press_chain(a: Keys, b: Keys, n: nat) -> bool
    decreases n,
{
    a == b || (n > 0 && exists|k: Key| spec_press_chain(a.spec_pressed(k), b, (n - 1) as nat))
}

/// A release chain never needs fewer steps than it is allowed.
pub proof fn lemma_release_chain_widen(a: Keys, b: Keys, n: nat)
    requires
        spec_release_chain(a, b, n),
    ensures
        spec_release_chain(a, b, n + 1),
    decreases n,
{
    if a != b {
        let k = choose|k: Key| spec_release_chain(a.spec_released(k), b, (n - 1) as nat);
        lemma_release_chain_widen(a.spec_released(k), b, (n - 1) as nat);
    }
}

/// One more release at the end of a release chain extends it by one step.
pub proof fn lemma_release_chain_extend(a: Keys, b: Keys, key: Key, n: nat)
    requires
        spec_release_chain(a, b, n),
    ensures
        spec_release_chain(a, b.spec_released(key), n + 1),
    decreases n,
{
    if a == b {
        assert(spec_release_chain(a.spec_released(key), b.spec_released(key), n));
    } else {
        let k = choose|k: Key| spec_release_chain(a.spec_released(k), b, (n - 1) as nat);
        lemma_release_chain_extend(a.spec_released(k), b, key, (n - 1) as nat);
    }
}

/// A press chain never needs fewer steps than it is allowed.
pub proof fn lemma_press_chain_widen(a: Keys, b: Keys, n: nat)
    requires
        spec_press_chain(a, b, n),
    ensures
        spec_press_chain(a, b, n + 1),
    decreases n,
{
    if a != b {
        let k = choose|k: Key| spec_press_chain(a.spec_pressed(k), b, (n - 1) as nat);
        lemma_press_chain_widen(a.spec_pressed(k), b, (n - 1) as nat);
    }
}

/// One more press at the end of a press chain extends it by one step.
pub proof fn lemma_press_chain_extend(a: Keys, b: Keys, key: Key, n: nat)
    requires
        spec_press_chain(a, b, n),
    ensures
        spec_press_chain(a, b.spec_pressed(key), n + 1),
    decreases n,
{
    if a == b {
        assert(spec_press_chain(a.spec_pressed(key), b.spec_pressed(key), n));
    } else {
        let k = choose|k: Key| spec_press_chain(a.spec_pressed(k), b, (n - 1) as nat);
        lemma_press_chain_extend(a.spec_pressed(k), b, key, (n - 1) as nat);
    }
}

proof fn lemma_zero_mask_clear()
    by (bit_vector)
    ensures
        forall|m: u8| #[trigger] (0u8 & m) == 0,
{
}

proof fn lemma_or_sets_mask(a: u8, m: u8)
    by (bit_vector)
    requires
        m != 0,
    ensures
        ((a | m) & m) != 0,
{
}

proof fn lemma_and_not_clears_mask(a: u8, m: u8)
    by (bit_vector)
    ensures
        ((a & !m) & m) == 0,
{
}

} // verus!
