//! The fixed constants of the playfield and of the player's physics.
use vstd::prelude::*;

verus! {

/// One playfield unit, in the fixed-point scale used for every length.
pub const UNIT: i64 = 1_000_000_000;

/// Width of the playfield; spikes enter at this x.
pub const PLAYFIELD_WIDTH: i64 = 800 * UNIT;

/// Height of the playfield; the ground line lies at this y.
pub const PLAYFIELD_HEIGHT: i64 = 400 * UNIT;

/// Side of the player's square bounding box.
pub const PLAYER_SIZE: i64 = 20 * UNIT;

/// The y of the player's top edge when it rests on the ground.
pub const GROUND_REST_Y: i64 = PLAYFIELD_HEIGHT - PLAYER_SIZE;

/// Where the player appears at the start of a round.
pub const SPAWN_X: i64 = 50 * UNIT;
pub const SPAWN_Y: i64 = 80 * UNIT;

/// Downward acceleration per tick (half a unit per tick per tick).
pub const GRAVITY: i64 = 500_000_000;

/// Upward speed given by a jump (ten units per tick).
pub const JUMP_SPEED: i64 = 10 * UNIT;

/// Spike extents are drawn from `MIN_EXTENT..MAX_EXTENT`.
pub const MIN_EXTENT: i64 = 10 * UNIT;
pub const MAX_EXTENT: i64 = 50 * UNIT;

/// Frames per second, used to turn elapsed time into score.
pub const FRAMES_PER_SECOND: u64 = 60;

} // verus!
