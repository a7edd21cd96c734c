//! The game session: the player, the live spikes, the score and spawn timer,
//! and the running / over state machine.
use vstd::prelude::*;

use crate::difficulty::{
    accrued_score,
    accrued_score_spec,
    spawn_due,
    spawn_due_spec,
    spike_speed,
    spike_speed_spec,
};
use crate::random::draw_in_range;
use crate::spike::Spike;
use crate::units::{
    GRAVITY,
    GROUND_REST_Y,
    JUMP_SPEED,
    MAX_EXTENT,
    MIN_EXTENT,
    PLAYER_SIZE,
    PLAYFIELD_HEIGHT,
    PLAYFIELD_WIDTH,
    SPAWN_X,
    SPAWN_Y,
    UNIT,
};

verus! {

/// A point or a velocity on the playfield; y grows downward.
#[derive(Clone, Copy, Debug, PartialEq, Eq, Structural)]
pub struct Vec2 {
    pub x: i64,
    pub y: i64,
}

/// One round of the game. `position` is the top-left corner of the player's
/// square; `spawn_timer` counts ticks since the last spawn; `score` is in
/// millionths of a frame.
pub struct Game {
    pub position: Vec2,
    pub velocity: Vec2,
    pub is_grounded: bool,
    pub spikes: Vec<Spike>,
    pub spawn_timer: u64,
    pub score: u64,
    pub game_over: bool,
}

/// The state of a `Game` as a mathematical value.
pub struct GameView {
    pub position: Vec2,
    pub velocity: Vec2,
    pub is_grounded: bool,
    pub spikes: Seq<Spike>,
    pub spawn_timer: u64,
    pub score: u64,
    pub game_over: bool,
}

impl View for Game {
    type V = GameView;

    open spec fn view(&self) -> GameView {
        GameView {
            position: self.position,
            velocity: self.velocity,
            is_grounded: self.is_grounded,
            spikes: self.spikes@,
            spawn_timer: self.spawn_timer,
            score: self.score,
            game_over: self.game_over,
        }
    }
}

/// Twice the gravity times the height, subtracted from the squared vertical
/// speed: falling freely lowers it, so it bounds how high and how fast the
/// player can go.
pub open spec fn energy(y: int, vy: int) -> int {
    vy * vy - 2 * GRAVITY * y
}

/// The energy of a jump from the highest point at which the player can be
/// grounded.
pub open spec fn energy_cap() -> int {
    JUMP_SPEED * JUMP_SPEED - 2 * GRAVITY * SPAWN_Y
}

/// The state at the start of a round.
pub open spec fn initial_view() -> GameView {
    GameView {
        position: Vec2 { x: SPAWN_X, y: SPAWN_Y },
        velocity: Vec2 { x: 0, y: 0 },
        is_grounded: true,
        spikes: seq![],
        spawn_timer: 0,
        score: 0,
        game_over: false,
    }
}

/// One tick of gravity followed by clamping to the ground: the new position,
/// velocity, and whether the clamp applied.
pub open spec fn fallen(p: Vec2, v: Vec2) -> (Vec2, Vec2, bool) {
    let vy = v.y + GRAVITY;
    let x = (p.x + v.x) as i64;
    let y = p.y + vy;
    if y + PLAYER_SIZE >= PLAYFIELD_HEIGHT {
        (Vec2 { x, y: GROUND_REST_Y }, Vec2 { x: v.x, y: 0 }, true)
    } else {
        (Vec2 { x, y: y as i64 }, Vec2 { x: v.x, y: vy as i64 }, false)
    }
}

/// Every spike moved one tick, keeping in order those still visible.
pub open spec fn moved_and_culled(s: Seq<Spike>) -> Seq<Spike>
    decreases s.len(),
{
    if s.len() == 0 {
        seq![]
    } else {
        let rest = moved_and_culled(s.drop_last());
        let m = s.last().moved();
        if m.visible() {
            rest.push(m)
        } else {
            rest
        }
    }
}

/// A new spike of the given size at the right edge, resting on the ground,
/// with the speed that the score gives.
pub open spec fn spawned(width: i64, height: i64, score: u64) -> Spike {
    Spike {
        x: PLAYFIELD_WIDTH,
        y: (PLAYFIELD_HEIGHT - height) as i64,
        width,
        height,
        speed: spike_speed_spec(score as int) as i64,
    }
}

/// The player's box at `p` and the spike's box overlap with positive area
/// (touching edges do not count), and the spike is visible.
pub open spec fn hits(p: Vec2, s: Spike) -> bool {
    &&& s.visible()
    &&& p.x + PLAYER_SIZE > s.x
    &&& p.x < s.x + s.width
    &&& p.y + PLAYER_SIZE > s.y
    &&& p.y < s.y + s.height
}

/// The player at `p` overlaps some spike.
pub open spec fn any_hit(p: Vec2, spikes: Seq<Spike>) -> bool {
    exists|i: int| 0 <= i < spikes.len() && #[trigger] hits(p, spikes[i])
}

/// Spike sizes are drawn from `MIN_EXTENT..MAX_EXTENT`.
pub open spec fn extent_ok(e: i64) -> bool {
    MIN_EXTENT <= e < MAX_EXTENT
}

/// One tick: nothing changes once the round is over; otherwise the player
/// falls, the spikes move and leave, timer and score grow, a spike of the
/// given size spawns when due, and the round ends if the player touches a
/// spike.
pub open spec fn step(g: GameView, dt: u64, width: i64, height: i64) -> GameView {
    if g.game_over {
        g
    } else {
        let (p, v, grounded) = fallen(g.position, g.velocity);
        let timer = g.spawn_timer + 1;
        let score = accrued_score_spec(g.score, dt);
        let moved = moved_and_culled(g.spikes);
        let due = spawn_due_spec(timer, score as int);
        let spikes = if due {
            moved.push(spawned(width, height, score))
        } else {
            moved
        };
        GameView {
            position: p,
            velocity: v,
            is_grounded: grounded,
            spikes,
            spawn_timer: if due { 0 } else { timer as u64 },
            score,
            game_over: any_hit(p, spikes),
        }
    }
}

/// A jump sets the upward speed when grounded and does nothing in the air.
pub open spec fn jumped(g: GameView) -> GameView {
    if g.is_grounded {
        GameView { velocity: Vec2 { x: g.velocity.x, y: (-JUMP_SPEED) as i64 }, ..g }
    } else {
        g
    }
}

/// A restart begins a new round once the current one is over, and does
/// nothing while it runs.
pub open spec fn restarted(g: GameView) -> GameView {
    if g.game_over {
        initial_view()
    } else {
        g
    }
}

impl GameView {
    /// The invariant of a session: the player moves only vertically, never
    /// below the ground, never faster upward than a jump, and within the
    /// energy of a jump; it is grounded only at or below the spawn height;
    /// the timer is below the longest spawn interval; every spike is in play.
    pub open spec fn wf(self) -> bool {
        &&& self.velocity.x == 0
        &&& self.position.y <= GROUND_REST_Y
        &&& self.velocity.y >= -JUMP_SPEED
        &&& energy(self.position.y as int, self.velocity.y as int) <= energy_cap()
        &&& self.is_grounded ==> self.position.y >= SPAWN_Y
        &&& self.spawn_timer < 100
        &&& forall|i: int| 0 <= i < self.spikes.len() ==> (#[trigger] self.spikes[i]).in_play()
    }

    pub open spec fn with_spike(self, s: Spike) -> GameView {
        GameView { spikes: self.spikes.push(s), ..self }
    }
}

/// Within the energy of a jump and above the ground, height and vertical
/// speed stay within twenty units.
proof fn lemma_energy_bounds(y: int, vy: int)
    requires
        y <= GROUND_REST_Y,
        energy(y, vy) <= energy_cap(),
    ensures
        -20 * UNIT <= y,
        -20 * UNIT <= vy <= 20 * UNIT,
{
    let sq = vy * vy;
    assert(sq >= 0) by (nonlinear_arith)
        requires
            sq == vy * vy,
    ;
    assert(energy_cap() == 20_000_000_000_000_000_000);
    assert(energy(y, vy) == sq - 1_000_000_000 * y);
    assert(-20 * UNIT <= vy <= 20 * UNIT) by (nonlinear_arith)
        requires
            sq == vy * vy,
            sq <= 400_000_000_000_000_000_000,
    ;
}

/// A tick of free fall lowers the energy by the square of gravity.
proof fn lemma_fall_energy(y: int, vy: int)
    ensures
        energy(y + vy + GRAVITY, vy + GRAVITY) == energy(y, vy) - GRAVITY * GRAVITY,
{
    let g = GRAVITY as int;
    assert((vy + g) * (vy + g) - 2 * g * (y + vy + g) == vy * vy - 2 * g * y - g * g)
        by (nonlinear_arith);
}

fn spike_hits(p: &Vec2, s: &Spike) -> (r: bool)
    ensures
        r == hits(*p, *s),
{
    let px = p.x as i128;
    let py = p.y as i128;
    let size = PLAYER_SIZE as i128;
    let sx = s.x as i128;
    let sy = s.y as i128;
    sx + (s.width as i128) > 0 && px + size > sx && px < sx + (s.width as i128) && py + size > sy
        && py < sy + (s.height as i128)
}

fn advance_spikes(spikes: &Vec<Spike>) -> (r: Vec<Spike>)
    requires
        forall|i: int| 0 <= i < spikes@.len() ==> (#[trigger] spikes@[i]).in_play(),
    ensures
        r@ == moved_and_culled(spikes@),
        forall|i: int| 0 <= i < r@.len() ==> (#[trigger] r@[i]).in_play(),
{
    let mut r: Vec<Spike> = Vec::new();
    let mut i: usize = 0;
    while i < spikes.len()
        invariant
            0 <= i <= spikes@.len(),
            forall|j: int| 0 <= j < spikes@.len() ==> (#[trigger] spikes@[j]).in_play(),
            r@ == moved_and_culled(spikes@.take(i as int)),
            forall|j: int| 0 <= j < r@.len() ==> (#[trigger] r@[j]).in_play(),
        decreases spikes@.len() - i,
    {
        let mut s = spikes[i];
        assert(s.in_play());
        s.update();
        if s.is_visible() {
            r.push(s);
        }
        assert(spikes@.take(i + 1).drop_last() =~= spikes@.take(i as int));
        i += 1;
    }
    assert(spikes@.take(spikes@.len() as int) =~= spikes@);
    r
}

fn draw_extent() -> (r: i64)
    ensures
        extent_ok(r),
{
    draw_in_range(MIN_EXTENT, MAX_EXTENT)
}

impl Game {
    pub fn new() -> (g: Game)
        ensures
            g@ == initial_view(),
            g@.wf(),
    {
        Game {
            position: Vec2 { x: SPAWN_X, y: SPAWN_Y },
            velocity: Vec2 { x: 0, y: 0 },
            is_grounded: true,
            spikes: Vec::new(),
            spawn_timer: 0,
            score: 0,
            game_over: false,
        }
    }

    /// Advances the round by one tick, spawning a spike of the given size if
    /// one is due. `delta_time` is the elapsed time in microseconds; it only
    /// scales the score.
    pub fn update_with_sizes(&mut self, delta_time: u64, spike_width: i64, spike_height: i64)
        requires
            old(self)@.wf(),
            extent_ok(spike_width),
            extent_ok(spike_height),
        ensures
            final(self)@ == step(old(self)@, delta_time, spike_width, spike_height),
            final(self)@.wf(),
    {
        if self.game_over {
            return;
        }
        let ghost g0 = self@;
        proof {
            lemma_energy_bounds(g0.position.y as int, g0.velocity.y as int);
        }
        let vy = self.velocity.y + GRAVITY;
        let y = self.position.y + vy;
        self.position.x = self.position.x + self.velocity.x;
        if y + PLAYER_SIZE >= PLAYFIELD_HEIGHT {
            self.position.y = GROUND_REST_Y;
            self.velocity.y = 0;
            self.is_grounded = true;
        } else {
            proof {
                lemma_fall_energy(g0.position.y as int, g0.velocity.y as int);
            }
            self.position.y = y;
            self.velocity.y = vy;
            self.is_grounded = false;
        }
        assert(forall|i: int| 0 <= i < g0.spikes.len() ==> (#[trigger] g0.spikes[i]).in_play());
        assert(self.spikes@ == g0.spikes);
        self.spikes = advance_spikes(&self.spikes);
        self.spawn_timer = self.spawn_timer + 1;
        self.score = accrued_score(self.score, delta_time);
        if spawn_due(self.spawn_timer, self.score) {
            self.spawn_spike_with(spike_width, spike_height);
            self.spawn_timer = 0;
        }
        proof {
            crate::difficulty::lemma_difficulty_ramp(0, self.score as int);
        }
        if self.check_spike_collisions() {
            self.game_over = true;
        }
        assert(self@.spikes =~= step(g0, delta_time, spike_width, spike_height).spikes);
    }

    /// Advances the round by one tick; a spike that comes due gets a random
    /// size. `delta_time` is the elapsed time in microseconds.
    pub fn update(&mut self, delta_time: u64)
        requires
            old(self)@.wf(),
        ensures
            exists|w: i64, h: i64|
                extent_ok(w) && extent_ok(h) && final(self)@ == #[trigger] step(
                    old(self)@,
                    delta_time,
                    w,
                    h,
                ),
            final(self)@.wf(),
    {
        let ghost g0 = self@;
        let mut w: i64 = MIN_EXTENT;
        let mut h: i64 = MIN_EXTENT;
        if !self.game_over && spawn_due(
            self.spawn_timer + 1,
            accrued_score(self.score, delta_time),
        ) {
            w = draw_extent();
            h = draw_extent();
        }
        self.update_with_sizes(delta_time, w, h);
        assert(extent_ok(w) && extent_ok(h) && self@ == step(g0, delta_time, w, h));
    }

    /// Sets the upward speed of a jump if the player is grounded; does nothing
    /// in the air.
    pub fn jump(&mut self)
        ensures
            final(self)@ == jumped(old(self)@),
            old(self)@.wf() ==> final(self)@.wf(),
    {
        if self.is_grounded {
            self.velocity.y = -JUMP_SPEED;
            assert(energy(self.position.y as int, -JUMP_SPEED as int) == 100_000_000_000_000_000_000
                - 1_000_000_000 * self.position.y);
            assert(energy_cap() == 20_000_000_000_000_000_000);
        }
    }

    /// Starts a new round if the current one is over.
    pub fn restart(&mut self)
        ensures
            final(self)@ == restarted(old(self)@),
            old(self)@.wf() ==> final(self)@.wf(),
    {
        if self.game_over {
            self.position = Vec2 { x: SPAWN_X, y: SPAWN_Y };
            self.velocity = Vec2 { x: 0, y: 0 };
            self.is_grounded = true;
            self.spikes.clear();
            self.spawn_timer = 0;
            self.game_over = false;
            self.score = 0;
            assert(self@.spikes =~= seq![]);
        }
    }

    /// Appends a spike of the given size at the right edge, with the speed
    /// that the current score gives.
    pub fn spawn_spike_with(&mut self, spike_width: i64, spike_height: i64)
        requires
            extent_ok(spike_width),
            extent_ok(spike_height),
        ensures
            final(self)@ == old(self)@.with_spike(spawned(spike_width, spike_height, old(self).score)),
    {
        let speed = spike_speed(self.score);
        let s = Spike::new(
            PLAYFIELD_WIDTH,
            PLAYFIELD_HEIGHT - spike_height,
            spike_width,
            spike_height,
            speed,
        );
        self.spikes.push(s);
    }

    /// Appends a spike of random size at the right edge, with the speed that
    /// the current score gives.
    pub fn spawn_spike(&mut self)
        ensures
            exists|w: i64, h: i64|
                extent_ok(w) && extent_ok(h) && final(self)@ == old(self)@.with_spike(
                    #[trigger] spawned(w, h, old(self).score),
                ),
    {
        let w = draw_extent();
        let h = draw_extent();
        self.spawn_spike_with(w, h);
    }

    /// Whether the player overlaps any visible spike.
    pub fn check_spike_collisions(&self) -> (r: bool)
        ensures
            r == any_hit(self.position, self.spikes@),
    {
        let mut i: usize = 0;
        while i < self.spikes.len()
            invariant
                0 <= i <= self.spikes@.len(),
                forall|j: int| 0 <= j < i ==> !#[trigger] hits(self.position, self.spikes@[j]),
            decreases self.spikes@.len() - i,
        {
            if spike_hits(&self.position, &self.spikes[i]) {
                return true;
            }
            i += 1;
        }
        false
    }
}

/// Only visible spikes survive a tick: every spike that remains after moving
/// and culling is visible.
pub proof fn lemma_culled_spikes_visible(s: Seq<Spike>)
    ensures
        forall|i: int|
            0 <= i < moved_and_culled(s).len() ==> (#[trigger] moved_and_culled(s)[i]).visible(),
    decreases s.len(),
{
    if s.len() > 0 {
        let rest = moved_and_culled(s.drop_last());
        lemma_culled_spikes_visible(s.drop_last());
        assert forall|i: int| 0 <= i < moved_and_culled(s).len() implies (#[trigger] moved_and_culled(
            s,
        )[i]).visible() by {
            if i < rest.len() {
                assert(moved_and_culled(s)[i] == rest[i]);
            }
        }
    }
}

/// A player resting on the ground stays there: with no jump, a tick of a
/// running round leaves it at the ground's height, at rest and grounded.
pub proof fn lemma_resting_player_stays(g: GameView, dt: u64, width: i64, height: i64)
    requires
        g.wf(),
        !g.game_over,
        g.position.y == GROUND_REST_Y,
        g.velocity.y == 0,
    ensures
        step(g, dt, width, height).position == g.position,
        step(g, dt, width, height).velocity == g.velocity,
        step(g, dt, width, height).is_grounded,
{
}

/// A jump from the ground sets the upward speed of a jump, and the next tick
/// of a running round moves the player up.
pub proof fn lemma_jump_lifts(g: GameView, dt: u64, width: i64, height: i64)
    requires
        g.wf(),
        !g.game_over,
        g.is_grounded,
    ensures
        jumped(g).velocity.y == -JUMP_SPEED,
        step(jumped(g), dt, width, height).position.y < g.position.y,
        !step(jumped(g), dt, width, height).is_grounded,
{
}

/// The player's motion over `n` ticks without touching the ground: true when
/// each of those ticks ends in the air.
pub open spec fn airborne_for(p: Vec2, v: Vec2, n: nat) -> bool
    decreases n,
{
    if n == 0 {
        true
    } else {
        let (p1, v1, grounded) = fallen(p, v);
        !grounded && airborne_for(p1, v1, (n - 1) as nat)
    }
}

/// Each tick in the air lowers the energy by the square of gravity, and the
/// energy of a player above the ground is at least minus twice gravity times
/// the ground height: so `n` ticks in the air need `n` such steps of energy.
proof fn lemma_airborne_energy(p: Vec2, v: Vec2, n: nat)
    requires
        p.y <= GROUND_REST_Y,
        energy(p.y as int, v.y as int) <= energy_cap(),
        airborne_for(p, v, n),
    ensures
        energy(p.y as int, v.y as int) >= n * GRAVITY * GRAVITY - 2 * GRAVITY * GROUND_REST_Y,
    decreases n,
{
    let vy = v.y as int;
    let sq = vy * vy;
    assert(sq >= 0) by (nonlinear_arith)
        requires
            sq == vy * vy,
    ;
    let gg = GRAVITY * GRAVITY;
    assert(energy(p.y as int, v.y as int) == sq - 1_000_000_000 * p.y);
    if n > 0 {
        lemma_energy_bounds(p.y as int, v.y as int);
        lemma_fall_energy(p.y as int, v.y as int);
        let (p1, v1, grounded) = fallen(p, v);
        assert(p1.y == p.y + v.y + GRAVITY);
        assert(v1.y == v.y + GRAVITY);
        lemma_airborne_energy(p1, v1, (n - 1) as nat);
        assert((n - 1) * GRAVITY * GRAVITY + gg == n * GRAVITY * GRAVITY) by (nonlinear_arith)
            requires
                gg == GRAVITY * GRAVITY,
        ;
    }
}

/// What goes up comes down: from any valid player state, fewer than 1601
/// ticks of free fall pass before the player is on the ground again.
pub proof fn lemma_player_lands(g: GameView)
    requires
        g.wf(),
    ensures
        !airborne_for(g.position, g.velocity, 1601),
{
    if airborne_for(g.position, g.velocity, 1601) {
        lemma_airborne_energy(g.position, g.velocity, 1601);
        assert(energy_cap() == 20_000_000_000_000_000_000);
    }
}

/// No double jump: a second jump changes nothing, and a jump in the air
/// changes nothing.
pub proof fn lemma_no_double_jump(g: GameView)
    ensures
        jumped(jumped(g)) == jumped(g),
        !g.is_grounded ==> jumped(g) == g,
{
}

/// A finished round is frozen: a tick changes nothing, whatever the elapsed
/// time and the drawn sizes; only a restart clears it, and then the score is
/// zero, the player is back at the spawn point and no spike is left.
pub proof fn lemma_frozen_after_game_over(g: GameView, dt: u64, width: i64, height: i64)
    requires
        g.game_over,
    ensures
        step(g, dt, width, height) == g,
        !restarted(g).game_over,
        restarted(g).score == 0,
        restarted(g).position == (Vec2 { x: SPAWN_X, y: SPAWN_Y }),
        restarted(g).spikes.len() == 0,
{
}

/// A restart during a running round changes nothing.
pub proof fn lemma_restart_needs_game_over(g: GameView)
    requires
        !g.game_over,
    ensures
        restarted(g) == g,
{
}

} // verus!
