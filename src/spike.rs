//! A spike: a ground obstacle that slides left at a constant speed.
use vstd::prelude::*;

use crate::units::{MAX_EXTENT, MIN_EXTENT, PLAYFIELD_HEIGHT, PLAYFIELD_WIDTH};

verus! {

/// An obstacle's bounding box `(x, y, width, height)` and its leftward speed
/// per tick.
#[derive(Clone, Copy, Debug, PartialEq, Eq, Structural)]
pub struct Spike {
    pub x: i64,
    pub y: i64,
    pub width: i64,
    pub height: i64,
    pub speed: i64,
}

impl Spike {
    /// The spike one tick later.
    pub open spec fn moved(self) -> Spike {
        Spike { x: (self.x - self.speed) as i64, ..self }
    }

    /// The spike after `n` ticks.
    pub open spec fn moved_by(self, n: nat) -> Spike
        decreases n,
    {
        if n == 0 {
            self
        } else {
            self.moved_by((n - 1) as nat).moved()
        }
    }

    /// Some part of the spike lies right of the playfield's left edge.
    pub open spec fn visible(self) -> bool {
        self.x + self.width > 0
    }

    /// A spike as the game creates and keeps it: sized within the drawing
    /// range, resting on the ground, moving left, not past the right edge, and
    /// still visible.
    pub open spec fn in_play(self) -> bool {
        &&& MIN_EXTENT <= self.width < MAX_EXTENT
        &&& MIN_EXTENT <= self.height < MAX_EXTENT
        &&& self.y == PLAYFIELD_HEIGHT - self.height
        &&& 0 <= self.speed <= 8 * crate::units::UNIT
        &&& self.x <= PLAYFIELD_WIDTH
        &&& self.visible()
    }

    pub fn new(x: i64, y: i64, width: i64, height: i64, speed: i64) -> (r: Spike)
        ensures
            r == (Spike { x, y, width, height, speed }),
    {
        Spike { x, y, width, height, speed }
    }

    /// Moves the spike left by its speed.
    pub fn update(&mut self)
        requires
            i64::MIN <= old(self).x - old(self).speed <= i64::MAX,
        ensures
            *final(self) == old(self).moved(),
    {
        self.x = self.x - self.speed;
    }

    pub fn is_visible(&self) -> (r: bool)
        ensures
            r == self.visible(),
    {
        (self.x as i128) + (self.width as i128) > 0
    }

    /// The top-left corner `[x, y]`.
    pub fn position(&self) -> (r: Vec<i64>)
        ensures
            r@ == seq![self.x, self.y],
    {
        let mut r: Vec<i64> = Vec::new();
        r.push(self.x);
        r.push(self.y);
        r
    }

    pub fn get_width(&self) -> (r: i64)
        ensures
            r == self.width,
    {
        self.width
    }

    pub fn get_height(&self) -> (r: i64)
        ensures
            r == self.height,
    {
        self.height
    }
}

/// A spike whose speed is positive leaves sight on the first tick at which it
/// has travelled its distance from the left edge plus its own width: when
/// `(n - 1) * speed < x + width <= n * speed`, it is visible after `n - 1`
/// ticks and no longer visible after `n`.
pub proof fn lemma_spike_leaves_sight(s: Spike, n: nat)
    requires
        0 < s.speed <= PLAYFIELD_WIDTH,
        -MAX_EXTENT < s.x <= PLAYFIELD_WIDTH,
        0 <= s.width < MAX_EXTENT,
        (n - 1) * s.speed < s.x + s.width <= n * s.speed,
    ensures
        n > 0 ==> s.moved_by((n - 1) as nat).visible(),
        !s.moved_by(n).visible(),
{
    lemma_moved_by_position(s, n);
    if n > 0 {
        assert((n - 2) * s.speed < (n - 1) * s.speed) by (nonlinear_arith)
            requires
                s.speed > 0,
        ;
        lemma_moved_by_position(s, (n - 1) as nat);
    }
}

/// After `n` ticks a spike has moved `n * speed` to the left, as long as the
/// travelled distance stays within the machine range; nothing else changes.
pub proof fn lemma_moved_by_position(s: Spike, n: nat)
    requires
        0 < s.speed <= PLAYFIELD_WIDTH,
        -MAX_EXTENT < s.x <= PLAYFIELD_WIDTH,
        (n - 1) * s.speed < s.x + MAX_EXTENT,
    ensures
        s.moved_by(n).x == s.x - n * s.speed,
        s.moved_by(n).width == s.width,
        s.moved_by(n).speed == s.speed,
    decreases n,
{
    if n > 0 {
        let m = (n - 1) as nat;
        if n > 1 {
            assert((n - 2) * s.speed < (n - 1) * s.speed) by (nonlinear_arith)
                requires
                    s.speed > 0,
                    n > 1,
            ;
        }
        lemma_moved_by_position(s, m);
        assert(m * s.speed + s.speed == n * s.speed) by (nonlinear_arith)
            requires
                m == n - 1,
        ;
        assert(s.moved_by(n) == s.moved_by(m).moved());
    }
}

} // verus!
