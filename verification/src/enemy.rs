use vstd::prelude::*;
use crate::character::{Animation, CHAR_HEIGHT, CHAR_WIDTH};
use crate::geometry::Rect;

verus! {

/// How far an enemy walks before pausing and turning around, in pixels.
pub const WALK_RANGE: i32 = 300;

/// Enemy walking speed in pixels per tick.
pub const WALK_SPEED: i32 = 6;

/// Simulation ticks per second.
pub const DESIRED_FPS: u32 = 10;

/// An enemy's field of vision: a rectangle centered on the enemy that the
/// player must enter to be noticed.
#[derive(Clone, Copy, Debug, PartialEq, Eq, Structural)]
pub struct FieldOfVision {
    pub layout: Rect,
    pub horizontal: i32,
    pub vertical: i32,
}

/// The vision rectangle for an enemy at `entity`: it reaches `horizontal`
/// pixels in front (shifted a half character back when the sprite is
/// mirrored), sits half a character above the enemy's anchor, and spans
/// twice the reach on each axis plus half a character of width.
pub open spec fn spec_fov_rect(
    horizontal: int,
    vertical: int,
    entity: Rect,
    is_flipped: bool,
) -> Rect {
    Rect {
        x: (entity.x - horizontal - (if is_flipped {
            CHAR_WIDTH / 2
        } else {
            0
        })) as i32,
        y: (entity.y - CHAR_HEIGHT / 2 - vertical / 2) as i32,
        w: (horizontal * 2 + CHAR_WIDTH / 2) as i32,
        h: (vertical * 2) as i32,
    }
}

impl FieldOfVision {
    /// Reaches are distances: non-negative and small enough that the
    /// rectangle arithmetic stays in range.
    pub open spec fn reach_ok(horizontal: int, vertical: int) -> bool {
        0 <= horizontal <= 100000 && 0 <= vertical <= 100000
    }

    pub fn new(horizontal: i32, vertical: i32, entity_layout: &Rect) -> (fov: FieldOfVision)
        requires
            FieldOfVision::reach_ok(horizontal as int, vertical as int),
            i32::MIN + 200000 <= entity_layout.x,
            i32::MIN + 200000 <= entity_layout.y,
        ensures
            fov.horizontal == horizontal,
            fov.vertical == vertical,
            fov.layout == spec_fov_rect(horizontal as int, vertical as int, *entity_layout, false),
    {
        FieldOfVision {
            horizontal,
            vertical,
            layout: Rect {
                x: entity_layout.x - horizontal,
                y: entity_layout.y - CHAR_HEIGHT / 2 - vertical / 2,
                w: horizontal * 2 + CHAR_WIDTH / 2,
                h: vertical * 2,
            },
        }
    }

    /// Re-centers the vision rectangle on the enemy's current position and
    /// facing.
    pub fn update(&mut self, entity_layout: &Rect, is_flipped: bool)
        requires
            FieldOfVision::reach_ok(old(self).horizontal as int, old(self).vertical as int),
            i32::MIN + 200000 <= entity_layout.x,
            i32::MIN + 200000 <= entity_layout.y,
        ensures
            final(self).horizontal == old(self).horizontal,
            final(self).vertical == old(self).vertical,
            final(self).layout == spec_fov_rect(
                old(self).horizontal as int,
                old(self).vertical as int,
                *entity_layout,
                is_flipped,
            ),
    {
        self.layout = Rect {
            x: entity_layout.x - self.horizontal - (if is_flipped {
                CHAR_WIDTH / 2
            } else {
                0
            }),
            y: entity_layout.y - CHAR_HEIGHT / 2 - self.vertical / 2,
            w: self.horizontal * 2 + CHAR_WIDTH / 2,
            h: self.vertical * 2,
        };
    }
}

/// The patrol bookkeeping of an enemy: how far it has walked since the
/// last turn, which way it is walking, and how long it has been pausing.
#[derive(Clone, Copy, Debug, PartialEq, Eq, Structural)]
pub struct PatrolState {
    pub walk_range_counter: i32,
    pub walk_right: bool,
    pub timeout: u32,
}

impl PatrolState {
    /// The counter keeps pace with the pause tick (one walk step past the
    /// range per tick already paused), and the pause tick stays below its
    /// five-second limit.
    pub open spec fn wf(self) -> bool {
        &&& 0 <= self.walk_range_counter <= WALK_RANGE + WALK_SPEED * (self.timeout as int + 1)
        &&& self.timeout < 5 * DESIRED_FPS
    }

    pub fn start() -> (s: PatrolState)
        ensures
            s == (PatrolState { walk_range_counter: 0, walk_right: true, timeout: 0 }),
            s.wf(),
    {
        PatrolState { walk_range_counter: 0, walk_right: true, timeout: 0 }
    }
}

/// What the enemy does this tick.
#[derive(Clone, Copy, Debug, PartialEq, Eq, Structural)]
pub struct PatrolStep {
    pub state: PatrolState,
    pub x: i32,
    pub is_flipped: bool,
    pub animation: Animation,
}

/// One tick of the patrol decision: the enemy walks until it has covered
/// its range, idles through a five-second pause, then turns around and
/// walks back.
pub open spec fn spec_patrol_step(ps: PatrolState, x: int, w: int, is_flipped: bool) -> PatrolStep {
    let counter = ps.walk_range_counter + WALK_SPEED;
    if counter >= WALK_RANGE && ps.timeout + 1 < 5 * DESIRED_FPS {
        // Pausing at the end of the range.
        PatrolStep {
            state: PatrolState {
                walk_range_counter: counter as i32,
                walk_right: ps.walk_right,
                timeout: (ps.timeout + 1) as u32,
            },
            x: x as i32,
            is_flipped,
            animation: Animation::Idle,
        }
    } else {
        // Walking: either mid-range, or turning around after the pause.
        let turned = counter >= WALK_RANGE;
        let state = if turned {
            PatrolState { walk_range_counter: 0, walk_right: !ps.walk_right, timeout: 0 }
        } else {
            PatrolState { walk_range_counter: counter as i32, walk_right: ps.walk_right, timeout: ps.timeout }
        };
        if state.walk_right {
            PatrolStep {
                state,
                x: (x + 2 * WALK_SPEED - (if is_flipped {
                    w / 4
                } else {
                    0
                })) as i32,
                is_flipped: false,
                animation: Animation::Walk,
            }
        } else {
            PatrolStep {
                state,
                x: (x - 2 * WALK_SPEED + (if !is_flipped {
                    w / 4
                } else {
                    0
                })) as i32,
                is_flipped: true,
                animation: Animation::Walk,
            }
        }
    }
}

/// Advances the patrol by one tick, returning the new bookkeeping, the
/// enemy's new x position and facing, and the animation to play.
pub fn patrol_step(ps: PatrolState, x: i32, w: i32, is_flipped: bool) -> (r: PatrolStep)
    requires
        ps.wf(),
        0 <= w <= 1000000,
        i32::MIN + 2000000 <= x <= i32::MAX - 2000000,
    ensures
        r == spec_patrol_step(ps, x as int, w as int, is_flipped),
        r.state.wf(),
{
    let counter = ps.walk_range_counter + WALK_SPEED;
    if counter >= WALK_RANGE && ps.timeout + 1 < 5 * DESIRED_FPS {
        PatrolStep {
            state: PatrolState {
                walk_range_counter: counter,
                walk_right: ps.walk_right,
                timeout: ps.timeout + 1,
            },
            x,
            is_flipped,
            animation: Animation::Idle,
        }
    } else {
        let turned = counter >= WALK_RANGE;
        let state = if turned {
            PatrolState { walk_range_counter: 0, walk_right: !ps.walk_right, timeout: 0 }
        } else {
            PatrolState { walk_range_counter: counter, walk_right: ps.walk_right, timeout: ps.timeout }
        };
        if state.walk_right {
            PatrolStep {
                state,
                x: x + 2 * WALK_SPEED - (if is_flipped {
                    w / 4
                } else {
                    0
                }),
                is_flipped: false,
                animation: Animation::Walk,
            }
        } else {
            PatrolStep {
                state,
                x: x - 2 * WALK_SPEED + (if !is_flipped {
                    w / 4
                } else {
                    0
                }),
                is_flipped: true,
                animation: Animation::Walk,
            }
        }
    }
}

} // verus!
