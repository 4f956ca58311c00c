use sidescroller::enemy::{patrol_step, FieldOfVision, PatrolState};
use sidescroller::character::Animation;
use sidescroller::floor::{Floor, TileDims};
use sidescroller::geometry::{LocationType, Rect};
use sidescroller::state::{menu_transition, AllStates};

#[test]
fn floor_strip_spans_the_screen() {
    let floor = Floor::new(
        TileDims { w: 32, h: 16 },
        TileDims { w: 30, h: 20 },
        TileDims { w: 40, h: 12 },
    );
    let v = floor.generate_location(800, 600);
    // 800 / 32 = 25 strides: two corners and 23 middle tiles.
    assert_eq!(v.len(), 25);
    assert_eq!(v[0], Rect::new(0, 568, 32, 16));
    for i in 1..=23usize {
        assert_eq!(v[i], Rect::new(32 * i as i32, 560, 30, 20));
    }
    assert_eq!(v[24], Rect::new(760, 576, 40, 12));
}

#[test]
fn narrow_screen_floor_is_just_the_corners() {
    let floor = Floor::new(
        TileDims { w: 32, h: 16 },
        TileDims { w: 32, h: 16 },
        TileDims { w: 32, h: 16 },
    );
    let v = floor.generate_location(40, 600);
    assert_eq!(v.len(), 2);
    assert_eq!(v[0], Rect::new(0, 568, 32, 16));
    assert_eq!(v[1], Rect::new(8, 568, 32, 16));
}

#[test]
fn floor_location_batch_matches_the_strip() {
    let floor = Floor::new(
        TileDims { w: 32, h: 16 },
        TileDims { w: 30, h: 20 },
        TileDims { w: 40, h: 12 },
    );
    match floor.get_location(800, 600) {
        LocationType::Multiple(v) => assert_eq!(v, floor.generate_location(800, 600)),
        LocationType::Single(_) => panic!("floor geometry is a batch"),
    }
}

#[test]
fn menu_switches_to_play_on_a_click_inside_the_button() {
    let button = Rect::new(250, 270, 300, 60);
    assert_eq!(menu_transition(400, 300, true, &button), Some(AllStates::Play));
    assert_eq!(menu_transition(400, 300, false, &button), None);
    assert_eq!(menu_transition(10, 10, true, &button), None);
    // The button reacts only strictly inside its frame.
    assert_eq!(menu_transition(250, 300, true, &button), None);
    assert_eq!(menu_transition(550, 300, true, &button), None);
}

#[test]
fn patrol_walks_its_range_then_pauses_then_turns() {
    let mut ps = PatrolState::start();
    let mut x: i32 = 400;
    let mut flipped = false;

    // Walking right: 6 counter per tick, 50 ticks to reach the 300 range.
    for _ in 0..49 {
        let step = patrol_step(ps, x, 48, flipped);
        assert_eq!(step.animation, Animation::Walk);
        assert_eq!(step.x, x + 12);
        assert!(!step.is_flipped);
        ps = step.state;
        x = step.x;
        flipped = step.is_flipped;
    }
    // The tick that crosses the range starts the pause.
    for _ in 0..49 {
        let step = patrol_step(ps, x, 48, flipped);
        assert_eq!(step.animation, Animation::Idle);
        assert_eq!(step.x, x);
        ps = step.state;
    }
    // After the five-second pause the enemy turns and walks back.
    let step = patrol_step(ps, x, 48, flipped);
    assert_eq!(step.animation, Animation::Walk);
    assert!(step.is_flipped);
    assert_eq!(step.x, x - 12 + 48 / 4);
    assert!(!step.state.walk_right);
    assert_eq!(step.state.walk_range_counter, 0);
}

#[test]
fn vision_rectangle_tracks_the_enemy() {
    let enemy_layout = Rect::new(400, 300, 48, 48);
    let mut fov = FieldOfVision::new(200, 150, &enemy_layout);
    // Half a character is 72 pixels.
    assert_eq!(fov.layout, Rect::new(200, 153, 472, 300));
    fov.update(&Rect::new(500, 300, 48, 48), false);
    assert_eq!(fov.layout, Rect::new(300, 153, 472, 300));
    fov.update(&Rect::new(500, 300, 48, 48), true);
    assert_eq!(fov.layout, Rect::new(228, 153, 472, 300));
}
