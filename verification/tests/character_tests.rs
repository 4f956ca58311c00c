use sidescroller::character::{
    animation_set, dyn_layout, resolve_grounding, sprite_sheet, Animation, Biker, CharacterFactory,
    CharacterType, Cyborg, Punk, State,
};
use sidescroller::geometry::Rect;

fn rect(x: i32, y: i32, w: i32, h: i32) -> Rect {
    Rect::new(x, y, w, h)
}

#[test]
fn default_state_is_falling_and_unflipped() {
    let s = State::default();
    assert!(!s.is_flipped);
    assert!(!s.jumping_right);
    assert!(!s.jumping_left);
    assert!(s.falling);
}

#[test]
fn falling_entity_lands_on_tile_top() {
    // A falling entity overlapping a tile's top edge is snapped onto the
    // tile and stops falling: the grounding transition.
    let entity = rect(100, 560, 48, 48);
    let tile = rect(100, 600, 100, 32);
    let (y, falling) = resolve_grounding(&entity, false, &vec![tile], true);
    assert_eq!(y, 600 - 48);
    assert!(!falling);
}

#[test]
fn no_contact_keeps_falling() {
    let entity = rect(100, 100, 48, 48);
    let tile = rect(100, 600, 100, 32);
    let (y, falling) = resolve_grounding(&entity, false, &vec![tile], true);
    assert_eq!(y, 100);
    assert!(falling);
}

#[test]
fn grounded_entity_stays_at_its_height_on_top_contact() {
    // Already grounded: a top contact keeps the flag cleared and does not
    // move the entity.
    let entity = rect(100, 560, 48, 48);
    let tile = rect(100, 600, 100, 32);
    let (y, falling) = resolve_grounding(&entity, false, &vec![tile], false);
    assert_eq!(y, 560);
    assert!(!falling);
}

#[test]
fn side_contact_does_not_ground() {
    // A wall bump (Left/Right classification) must not clear the falling
    // flag.
    let entity = rect(52, 600, 48, 48);
    let wall = rect(100, 600, 48, 48);
    let (y, falling) = resolve_grounding(&entity, false, &vec![wall], true);
    assert_eq!(y, 600);
    assert!(falling);
}

#[test]
fn first_top_contact_in_order_wins() {
    let entity = rect(100, 560, 48, 48);
    let first = rect(100, 600, 100, 32);
    let second = rect(90, 604, 100, 32);
    let (y, falling) = resolve_grounding(&entity, false, &vec![first, second], true);
    // Snapped to the first tile in candidate order, not the second.
    assert_eq!(y, 600 - 48);
    assert!(!falling);
}

#[test]
fn flipped_sprite_collides_with_shifted_body() {
    // Flipped, the body shifts a quarter width left (48 / 4 = 12): a tile
    // that only that shifted body touches grounds the entity.
    let entity = rect(100, 560, 48, 48);
    let tile = rect(50, 600, 48, 32);
    let (_, falling_flipped) = resolve_grounding(&entity, true, &vec![tile], true);
    let (_, falling_unflipped) = resolve_grounding(&entity, false, &vec![tile], true);
    assert!(!falling_flipped);
    assert!(falling_unflipped);
}

#[test]
fn dyn_layout_offsets_by_facing() {
    let layout = rect(100, 50, 40, 48);
    let unflipped = dyn_layout(&layout, false);
    assert_eq!((unflipped.x, unflipped.y), (90, 50));
    let flipped = dyn_layout(&layout, true);
    // 100 - 40 + 144 / 4
    assert_eq!((flipped.x, flipped.y), (96, 50));
    assert_eq!((flipped.w, flipped.h), (40, 48));
}

#[test]
fn sprite_sheets_name_the_character_files() {
    assert_eq!(
        sprite_sheet(CharacterType::Punk, Animation::Idle),
        Some("/chars/punk/Punk_idle.png")
    );
    assert_eq!(
        sprite_sheet(CharacterType::Punk, Animation::Attack),
        Some("/chars/punk/Punk_attack1.png")
    );
    assert_eq!(
        sprite_sheet(CharacterType::Biker, Animation::Attack),
        Some("/chars/biker/Biker_attack.png")
    );
    assert_eq!(
        sprite_sheet(CharacterType::Cyborg, Animation::DoubleJump),
        Some("/chars/cyborg/Cyborg_doublejump.png")
    );
    // Playable characters have no walking animation.
    assert_eq!(sprite_sheet(CharacterType::Punk, Animation::Walk), None);
}

#[test]
fn animation_sets_load_five_sheets_in_order() {
    let punk = Punk::new();
    let biker = Biker::new();
    let cyborg = Cyborg::new();
    for v in [&punk, &biker, &cyborg] {
        assert_eq!(v.len(), 5);
        assert_eq!(v[0].0, Animation::Idle);
        assert_eq!(v[1].0, Animation::Run);
        assert_eq!(v[2].0, Animation::Jump);
        assert_eq!(v[3].0, Animation::Attack);
        assert_eq!(v[4].0, Animation::DoubleJump);
    }
    assert_eq!(punk[0].1, "/chars/punk/Punk_idle.png");
    assert_eq!(biker[2].1, "/chars/biker/Biker_jump.png");
    assert_eq!(cyborg[3].1, "/chars/cyborg/Cyborg_attack.png");
}

#[test]
fn factory_builds_the_requested_character() {
    let made = CharacterFactory::make(CharacterType::Biker);
    assert_eq!(made, animation_set(CharacterType::Biker));
    assert_eq!(made[4].1, "/chars/biker/Biker_doublejump.png");
}
