use vstd::prelude::*;
use crate::collisions::{collision_spec, rect_collision, SideCollided};
use crate::geometry::Rect;

verus! {

/// Sprite frames are 48 pixels square and drawn at this scale.
pub const CHAR_SCALE_FACTOR: i32 = 3;

/// On-screen character width in pixels.
pub const CHAR_WIDTH: i32 = 48 * CHAR_SCALE_FACTOR;

/// On-screen character height in pixels.
pub const CHAR_HEIGHT: i32 = 48 * CHAR_SCALE_FACTOR;

/// The animation a character can be playing.
#[derive(Clone, Copy, Debug, PartialEq, Eq, Hash, Structural)]
pub enum Animation {
    Idle,
    Run,
    Jump,
    DoubleJump,
    Attack,
    Walk,
}

/// Movement state flags of a character.
#[derive(Clone, Copy, Debug, PartialEq, Eq, Structural)]
pub struct State {
    pub is_flipped: bool,
    pub jumping_right: bool,
    pub jumping_left: bool,
    pub falling: bool,
}

impl State {
    /// A character starts unflipped, not jumping, and falling until it
    /// lands on something.
    pub fn default() -> (s: State)
        ensures
            s == (State { is_flipped: false, jumping_right: false, jumping_left: false, falling: true }),
    {
        State { is_flipped: false, jumping_right: false, jumping_left: false, falling: true }
    }
}

/// The on-screen bounding rectangle of a character whose sprite may be
/// drawn mirrored: a flipped sprite is offset a full width left plus a
/// quarter of the base frame width back, an unflipped one a quarter of its
/// own width left.
pub fn dyn_layout(layout: &Rect, is_flipped: bool) -> (r: Rect)
    requires
        layout.w >= 0,
        i32::MIN <= layout.x - layout.w + CHAR_WIDTH / 4,
        i32::MIN <= layout.x - layout.w / 4,
        layout.x + CHAR_WIDTH / 4 <= i32::MAX,
    ensures
        r.x == if is_flipped {
            layout.x - layout.w + CHAR_WIDTH / 4
        } else {
            layout.x - layout.w / 4
        },
        r.y == layout.y,
        r.w == layout.w,
        r.h == layout.h,
{
    let x: i64 = if is_flipped {
        (layout.x as i64) - (layout.w as i64) + ((CHAR_WIDTH / 4) as i64)
    } else {
        (layout.x as i64) - ((layout.w / 4) as i64)
    };
    Rect { x: x as i32, y: layout.y, w: layout.w, h: layout.h }
}

/// The rectangle a character presents to the collision test: its layout,
/// shifted back a quarter width when the sprite is mirrored.
pub open spec fn collision_body(layout: Rect, is_flipped: bool) -> Rect {
    Rect {
        x: if is_flipped {
            (layout.x - layout.w / 4) as i32
        } else {
            layout.x
        },
        y: layout.y,
        w: layout.w,
        h: layout.h,
    }
}

/// The effect of testing one candidate tile: a `Top` contact clears the
/// falling flag, and if the body was still falling it snaps the vertical
/// position so the body rests on the tile.  Any other outcome changes
/// nothing.
pub open spec fn ground_step(body: Rect, loc: Rect, y: int, falling: bool) -> (int, bool) {
    if collision_spec(body, loc) == Some(SideCollided::Top) {
        ((if falling {
            loc.y - body.h
        } else {
            y
        }), false)
    } else {
        (y, falling)
    }
}

/// `ground_step` folded over the candidate set in order.
pub open spec fn ground_fold(body: Rect, cands: Seq<Rect>, y: int, falling: bool) -> (int, bool)
    decreases cands.len(),
{
    if cands.len() == 0 {
        (y, falling)
    } else {
        let s = ground_step(body, cands[0], y, falling);
        ground_fold(body, cands.drop_first(), s.0, s.1)
    }
}

/// One simulation tick of ground-contact resolution for a moving character:
/// walks the broad-phase candidate set in order, lands the character on the
/// first tile whose top it strikes while falling, and clears the falling
/// flag on any top contact.  Returns the new vertical position and falling
/// flag.
pub fn resolve_grounding(layout: &Rect, is_flipped: bool, candidates: &Vec<Rect>, falling: bool) -> (res: (
    i32,
    bool,
))
    requires
        layout.w >= 0,
        layout.h >= 0,
        i32::MIN <= layout.x - layout.w / 4,
        forall|i: int|
            0 <= i < candidates@.len() ==> i32::MIN <= #[trigger] candidates@[i].y - layout.h,
    ensures
        ({
            let f = ground_fold(
                collision_body(*layout, is_flipped),
                candidates@,
                layout.y as int,
                falling,
            );
            res.0 == f.0 && res.1 == f.1
        }),
{
    let body = if is_flipped {
        Rect {
            x: ((layout.x as i64) - ((layout.w / 4) as i64)) as i32,
            y: layout.y,
            w: layout.w,
            h: layout.h,
        }
    } else {
        *layout
    };
    let ghost body0 = collision_body(*layout, is_flipped);
    let mut y: i32 = layout.y;
    let mut falling_now: bool = falling;
    let mut i: usize = 0;
    proof {
        assert(candidates@.skip(0) =~= candidates@);
    }
    while i < candidates.len()
        invariant
            0 <= i <= candidates@.len(),
            body == body0,
            layout.h >= 0,
            forall|j: int|
                0 <= j < candidates@.len() ==> i32::MIN <= #[trigger] candidates@[j].y - layout.h,
            body.h == layout.h,
            ground_fold(body0, candidates@, layout.y as int, falling) == ground_fold(
                body0,
                candidates@.skip(i as int),
                y as int,
                falling_now,
            ),
        decreases candidates@.len() - i,
    {
        let loc = candidates[i];
        proof {
            assert(candidates@.skip(i as int)[0] == candidates@[i as int]);
            assert(candidates@.skip(i as int).drop_first() =~= candidates@.skip(i as int + 1));
        }
        match rect_collision(&body, &loc) {
            Some(SideCollided::Top) => {
                if falling_now {
                    y = ((loc.y as i64) - (body.h as i64)) as i32;
                }
                falling_now = false;
            },
            _ => {},
        }
        i = i + 1;
    }
    (y, falling_now)
}

/// The playable character kinds.
#[derive(Clone, Copy, Debug, PartialEq, Eq, Hash, Structural)]
pub enum CharacterType {
    Punk,
    Biker,
    Cyborg,
}

/// The sprite-sheet asset path for one character animation, or `None` for
/// an animation that character does not have.
pub open spec fn spec_sprite_sheet(c: CharacterType, a: Animation) -> Option<Seq<char>> {
    match c {
        CharacterType::Punk => match a {
            Animation::Idle => Some("/chars/punk/Punk_idle.png"@),
            Animation::Run => Some("/chars/punk/Punk_run.png"@),
            Animation::Jump => Some("/chars/punk/Punk_jump.png"@),
            Animation::Attack => Some("/chars/punk/Punk_attack1.png"@),
            Animation::DoubleJump => Some("/chars/punk/Punk_doublejump.png"@),
            Animation::Walk => None,
        },
        CharacterType::Biker => match a {
            Animation::Idle => Some("/chars/biker/Biker_idle.png"@),
            Animation::Run => Some("/chars/biker/Biker_run.png"@),
            Animation::Jump => Some("/chars/biker/Biker_jump.png"@),
            Animation::Attack => Some("/chars/biker/Biker_attack.png"@),
            Animation::DoubleJump => Some("/chars/biker/Biker_doublejump.png"@),
            Animation::Walk => None,
        },
        CharacterType::Cyborg => match a {
            Animation::Idle => Some("/chars/cyborg/Cyborg_idle.png"@),
            Animation::Run => Some("/chars/cyborg/Cyborg_run.png"@),
            Animation::Jump => Some("/chars/cyborg/Cyborg_jump.png"@),
            Animation::Attack => Some("/chars/cyborg/Cyborg_attack.png"@),
            Animation::DoubleJump => Some("/chars/cyborg/Cyborg_doublejump.png"@),
            Animation::Walk => None,
        },
    }
}

/// Looks up the sprite-sheet asset path for one character animation.
pub fn sprite_sheet(c: CharacterType, a: Animation) -> (path: Option<&'static str>)
    ensures
        match path {
            Some(p) => spec_sprite_sheet(c, a) == Some(p@),
            None => spec_sprite_sheet(c, a) is None,
        },
{
    match c {
        CharacterType::Punk => match a {
            Animation::Idle => Some("/chars/punk/Punk_idle.png"),
            Animation::Run => Some("/chars/punk/Punk_run.png"),
            Animation::Jump => Some("/chars/punk/Punk_jump.png"),
            Animation::Attack => Some("/chars/punk/Punk_attack1.png"),
            Animation::DoubleJump => Some("/chars/punk/Punk_doublejump.png"),
            Animation::Walk => None,
        },
        CharacterType::Biker => match a {
            Animation::Idle => Some("/chars/biker/Biker_idle.png"),
            Animation::Run => Some("/chars/biker/Biker_run.png"),
            Animation::Jump => Some("/chars/biker/Biker_jump.png"),
            Animation::Attack => Some("/chars/biker/Biker_attack.png"),
            Animation::DoubleJump => Some("/chars/biker/Biker_doublejump.png"),
            Animation::Walk => None,
        },
        CharacterType::Cyborg => match a {
            Animation::Idle => Some("/chars/cyborg/Cyborg_idle.png"),
            Animation::Run => Some("/chars/cyborg/Cyborg_run.png"),
            Animation::Jump => Some("/chars/cyborg/Cyborg_jump.png"),
            Animation::Attack => Some("/chars/cyborg/Cyborg_attack.png"),
            Animation::DoubleJump => Some("/chars/cyborg/Cyborg_doublejump.png"),
            Animation::Walk => None,
        },
    }
}

/// The five animations a playable character is built with, in load order,
/// each paired with its sprite-sheet path.
pub fn animation_set(c: CharacterType) -> (v: Vec<(Animation, &'static str)>)
    ensures
        v@.len() == 5,
        v@[0].0 == Animation::Idle,
        v@[1].0 == Animation::Run,
        v@[2].0 == Animation::Jump,
        v@[3].0 == Animation::Attack,
        v@[4].0 == Animation::DoubleJump,
        forall|i: int| 0 <= i < 5 ==> spec_sprite_sheet(c, #[trigger] v@[i].0) == Some(v@[i].1@),
{
    let mut v: Vec<(Animation, &'static str)> = Vec::new();
    let idle = match sprite_sheet(c, Animation::Idle) {
        Some(p) => p,
        None => "",
    };
    let run = match sprite_sheet(c, Animation::Run) {
        Some(p) => p,
        None => "",
    };
    let jump = match sprite_sheet(c, Animation::Jump) {
        Some(p) => p,
        None => "",
    };
    let attack = match sprite_sheet(c, Animation::Attack) {
        Some(p) => p,
        None => "",
    };
    let double_jump = match sprite_sheet(c, Animation::DoubleJump) {
        Some(p) => p,
        None => "",
    };
    v.push((Animation::Idle, idle));
    v.push((Animation::Run, run));
    v.push((Animation::Jump, jump));
    v.push((Animation::Attack, attack));
    v.push((Animation::DoubleJump, double_jump));
    v
}

/// The punk character: its animation set.
pub struct Punk;

impl Punk {
    pub fn new() -> (v: Vec<(Animation, &'static str)>)
        ensures
            v@.len() == 5,
            forall|i: int|
                0 <= i < 5 ==> spec_sprite_sheet(CharacterType::Punk, #[trigger] v@[i].0) == Some(
                    v@[i].1@,
                ),
    {
        animation_set(CharacterType::Punk)
    }
}

/// The biker character: its animation set.
pub struct Biker;

impl Biker {
    pub fn new() -> (v: Vec<(Animation, &'static str)>)
        ensures
            v@.len() == 5,
            forall|i: int|
                0 <= i < 5 ==> spec_sprite_sheet(CharacterType::Biker, #[trigger] v@[i].0) == Some(
                    v@[i].1@,
                ),
    {
        animation_set(CharacterType::Biker)
    }
}

/// The cyborg character: its animation set.
pub struct Cyborg;

impl Cyborg {
    pub fn new() -> (v: Vec<(Animation, &'static str)>)
        ensures
            v@.len() == 5,
            forall|i: int|
                0 <= i < 5 ==> spec_sprite_sheet(CharacterType::Cyborg, #[trigger] v@[i].0) == Some(
                    v@[i].1@,
                ),
    {
        animation_set(CharacterType::Cyborg)
    }
}

/// Builds the animation set for a requested character kind.
pub struct CharacterFactory;

impl CharacterFactory {
    pub fn make(character_type: CharacterType) -> (v: Vec<(Animation, &'static str)>)
        ensures
            v@.len() == 5,
            forall|i: int|
                0 <= i < 5 ==> spec_sprite_sheet(character_type, #[trigger] v@[i].0) == Some(
                    v@[i].1@,
                ),
    {
        match character_type {
            CharacterType::Biker => Biker::new(),
            CharacterType::Punk => Punk::new(),
            CharacterType::Cyborg => Cyborg::new(),
        }
    }
}

} // verus!
