use vstd::prelude::*;
use crate::geometry::Rect;

verus! {

/// The top-level game states.
#[derive(Clone, Copy, Debug, PartialEq, Eq, Hash, Structural)]
pub enum AllStates {
    Menu,
    Play,
}

/// Whether the cursor is strictly inside the rectangle (the menu button
/// reacts only to clicks strictly inside its frame).
pub open spec fn spec_inside_button(x: int, y: int, button: Rect) -> bool {
    &&& button.x < x < button.x + button.w
    &&& button.y < y < button.y + button.h
}

/// The menu's per-tick decision: a pressed mouse button strictly inside the
/// play button's rectangle switches the game to the play state; anything
/// else leaves the state alone (`None`).
pub fn menu_transition(mouse_x: i32, mouse_y: i32, pressed: bool, button: &Rect) -> (next: Option<
    AllStates,
>)
    ensures
        next == if spec_inside_button(mouse_x as int, mouse_y as int, *button) && pressed {
            Some(AllStates::Play)
        } else {
            None::<AllStates>
        },
{
    let inside = (mouse_x as i64) > (button.x as i64) && (mouse_x as i64) < (button.x as i64)
        + (button.w as i64) && (mouse_y as i64) > (button.y as i64) && (mouse_y as i64) < (
    button.y as i64) + (button.h as i64);
    if inside && pressed {
        Some(AllStates::Play)
    } else {
        None
    }
}

} // verus!
