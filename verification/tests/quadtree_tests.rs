use sidescroller::geometry::{LocationType, Rect};
use sidescroller::quadtree::{update_quadtree, QuadTree};

fn rect(x: i32, y: i32, w: i32, h: i32) -> Rect {
    Rect::new(x, y, w, h)
}

#[test]
fn inserted_rectangle_is_found_at_its_anchor() {
    let mut tree = QuadTree::new(0, 0, 800, 600);
    let tile = rect(100, 500, 32, 32);
    tree.insert(100, 500, tile);
    let found = tree.search(100, 500);
    assert!(found.is_some());
    assert!(found.unwrap().contains(&tile));
}

#[test]
fn level_scenario_insert_and_search() {
    // Root boundary 800 by 600 starting at the origin; one tile inserted at
    // its own position; a query at the opposite, unpopulated corner finds
    // nothing.
    let mut tree = QuadTree::new(0, 0, 800, 600);
    let tile = rect(100, 500, 32, 32);
    tree.insert(100, 500, tile);
    let found = tree.search(100, 500).expect("tile anchor must be retrievable");
    assert_eq!(found.as_slice(), &[tile]);
    assert!(tree.search(780, 10).is_none());
}

#[test]
fn search_outside_root_boundary_finds_nothing() {
    let mut tree = QuadTree::new(0, 0, 800, 600);
    tree.insert(100, 100, rect(100, 100, 32, 32));
    assert!(tree.search(-5, 100).is_none());
    assert!(tree.search(801, 100).is_none());
    assert!(tree.search(100, -1).is_none());
    assert!(tree.search(100, 601).is_none());
}

#[test]
fn different_root_quadrants_are_not_cross_retrievable() {
    let mut tree = QuadTree::new(0, 0, 800, 600);
    let bottom_left_tile = rect(100, 500, 32, 32);
    let top_right_tile = rect(700, 100, 32, 32);
    tree.insert(100, 500, bottom_left_tile);
    tree.insert(700, 100, top_right_tile);

    let at_bottom_left = tree.search(100, 500).expect("populated quadrant");
    assert!(at_bottom_left.contains(&bottom_left_tile));
    assert!(!at_bottom_left.contains(&top_right_tile));

    let at_top_right = tree.search(700, 100).expect("populated quadrant");
    assert!(at_top_right.contains(&top_right_tile));
    assert!(!at_top_right.contains(&bottom_left_tile));
}

#[test]
fn repeated_searches_return_identical_results() {
    let mut tree = QuadTree::new(0, 0, 800, 600);
    tree.insert(100, 500, rect(100, 500, 32, 32));
    tree.insert(120, 510, rect(120, 510, 32, 32));
    let first: Option<Vec<Rect>> = tree.search(100, 500).cloned();
    let second: Option<Vec<Rect>> = tree.search(100, 500).cloned();
    assert_eq!(first, second);
    let miss_first = tree.search(780, 10);
    let miss_second = tree.search(780, 10);
    assert!(miss_first.is_none() && miss_second.is_none());
}

#[test]
fn insert_with_anchor_outside_boundary_is_a_silent_no_op() {
    let mut tree = QuadTree::new(0, 0, 800, 600);
    let inside = rect(100, 500, 32, 32);
    tree.insert(100, 500, inside);
    // Authoring mistake: geometry anchored outside the level.
    tree.insert(900, 900, rect(900, 900, 32, 32));
    tree.insert(-10, 50, rect(-10, 50, 32, 32));
    // The stored geometry is untouched and the stray anchors find nothing.
    assert_eq!(tree.search(100, 500).expect("kept").as_slice(), &[inside]);
    assert!(tree.search(900, 900).is_none());
}

#[test]
fn anchors_in_one_bucket_share_a_candidate_list() {
    let mut tree = QuadTree::new(0, 0, 800, 600);
    let a = rect(100, 500, 32, 32);
    let b = rect(110, 505, 32, 32);
    tree.insert(100, 500, a);
    tree.insert(110, 505, b);
    let found = tree.search(100, 500).expect("bucket populated");
    assert!(found.contains(&a));
    assert!(found.contains(&b));
}

#[test]
fn small_root_boundary_is_a_single_leaf() {
    // At or below the subdivision threshold on both axes the root stores
    // everything directly.
    let mut tree = QuadTree::new(0, 0, 300, 200);
    let a = rect(10, 10, 5, 5);
    let b = rect(290, 190, 5, 5);
    tree.insert(10, 10, a);
    tree.insert(290, 190, b);
    let found = tree.search(290, 190).expect("leaf root");
    assert_eq!(found.as_slice(), &[a, b]);
}

#[test]
fn update_quadtree_inserts_a_single_rectangle() {
    let mut tree = QuadTree::new(0, 0, 800, 600);
    let tile = rect(200, 300, 32, 32);
    update_quadtree(&mut tree, LocationType::Single(tile));
    assert!(tree.search(200, 300).expect("stored").contains(&tile));
}

#[test]
fn update_quadtree_inserts_a_batch_in_order() {
    let mut tree = QuadTree::new(0, 0, 800, 600);
    let tiles = vec![rect(100, 500, 32, 32), rect(132, 500, 32, 32), rect(700, 100, 32, 32)];
    update_quadtree(&mut tree, LocationType::Multiple(tiles.clone()));
    for t in &tiles {
        assert!(tree.search(t.x, t.y).expect("stored").contains(t));
    }
}
