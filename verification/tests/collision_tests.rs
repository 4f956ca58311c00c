use sidescroller::collisions::{rect_collision, SideCollided};
use sidescroller::geometry::Rect;

fn rect(x: i32, y: i32, w: i32, h: i32) -> Rect {
    Rect::new(x, y, w, h)
}

#[test]
fn touching_top_returns_top() {
    // A sits directly above B and just touches its top edge.
    let a = rect(0, 0, 10, 10);
    let b = rect(0, 10, 10, 10);
    assert_eq!(rect_collision(&a, &b), Some(SideCollided::Top));
}

#[test]
fn touching_bottom_returns_bottom() {
    let a = rect(0, 10, 10, 10);
    let b = rect(0, 0, 10, 10);
    assert_eq!(rect_collision(&a, &b), Some(SideCollided::Bottom));
}

#[test]
fn touching_left_returns_left() {
    // A flush against B's left face.
    let a = rect(0, 0, 10, 10);
    let b = rect(10, 0, 10, 10);
    assert_eq!(rect_collision(&a, &b), Some(SideCollided::Left));
}

#[test]
fn touching_right_returns_right() {
    let a = rect(10, 0, 10, 10);
    let b = rect(0, 0, 10, 10);
    assert_eq!(rect_collision(&a, &b), Some(SideCollided::Right));
}

#[test]
fn separated_on_both_axes_is_no_collision() {
    let a = rect(0, 0, 10, 10);
    let b = rect(100, 100, 10, 10);
    assert_eq!(rect_collision(&a, &b), None);
}

#[test]
fn separated_on_one_axis_is_no_collision() {
    let a = rect(0, 0, 10, 10);
    let b = rect(0, 100, 10, 10);
    assert_eq!(rect_collision(&a, &b), None);
}

#[test]
fn entity_overlapping_tile_from_above_returns_top() {
    // A falling entity whose feet overlap a tile's top edge.
    let entity = rect(100, 560, 48, 48);
    let tile = rect(100, 600, 100, 32);
    assert_eq!(rect_collision(&entity, &tile), Some(SideCollided::Top));
}

#[test]
fn entity_clear_of_tile_is_no_collision() {
    // Centers are 68 apart vertically against a combined half-height of 40,
    // so these two do not overlap and no side is reported.
    let entity = rect(100, 560, 48, 48);
    let tile = rect(100, 500, 100, 32);
    assert_eq!(rect_collision(&entity, &tile), None);
}

#[test]
fn identical_rectangles_classify_as_top() {
    // Coincident centers leave both cross products at zero; the fixed
    // comparison order resolves that tie to Top.
    let a = rect(5, 5, 20, 20);
    assert_eq!(rect_collision(&a, &a), Some(SideCollided::Top));
}

#[test]
fn exact_diagonal_tie_resolves_to_right() {
    // Equal squares offset equally on both axes make the cross products
    // equal; the tie-break order picks Right.
    let a = rect(5, 5, 10, 10);
    let b = rect(0, 0, 10, 10);
    assert_eq!(rect_collision(&a, &b), Some(SideCollided::Right));
}

#[test]
fn zero_extent_rectangles_at_same_point_classify_as_top() {
    // Degenerate rectangles are not rejected: two empty boxes on the same
    // point count as overlapping and the tie resolves to Top.
    let a = rect(3, 3, 0, 0);
    let b = rect(3, 3, 0, 0);
    assert_eq!(rect_collision(&a, &b), Some(SideCollided::Top));
}

#[test]
fn collision_is_deterministic() {
    let a = rect(0, 0, 10, 10);
    let b = rect(4, 9, 10, 10);
    let first = rect_collision(&a, &b);
    let second = rect_collision(&a, &b);
    assert_eq!(first, second);
}
