use sidescroller::geometry::Rect;
use sidescroller::tileset::{parse_tile_id, ImagePath, Layer, LevelMap, Tile, Tiles, Tileset};

fn chars(s: &str) -> Vec<char> {
    s.chars().collect()
}

fn tile(id: &str, source: &str) -> Tile {
    Tile { id: id.to_string(), image: ImagePath { source: source.to_string() } }
}

fn level(data: &str) -> LevelMap {
    LevelMap {
        tileset: Tileset { source: "park.tsx".to_string() },
        layer: Layer { data: data.to_string(), width: 0, height: 0 },
    }
}

#[test]
fn parse_accepts_plain_and_signed_numbers() {
    assert_eq!(parse_tile_id(&chars("12")), Some(12));
    assert_eq!(parse_tile_id(&chars("0")), Some(0));
    assert_eq!(parse_tile_id(&chars("+7")), Some(7));
    assert_eq!(parse_tile_id(&chars("-7")), Some(-7));
    assert_eq!(parse_tile_id(&chars("007")), Some(7));
}

#[test]
fn parse_trims_surrounding_whitespace_only() {
    assert_eq!(parse_tile_id(&chars("  42\t")), Some(42));
    assert_eq!(parse_tile_id(&chars("\n5\r")), Some(5));
    // Whitespace inside the digits is malformed.
    assert_eq!(parse_tile_id(&chars("1 2")), None);
}

#[test]
fn parse_rejects_empty_and_malformed_input() {
    assert_eq!(parse_tile_id(&chars("")), None);
    assert_eq!(parse_tile_id(&chars("   ")), None);
    assert_eq!(parse_tile_id(&chars("-")), None);
    assert_eq!(parse_tile_id(&chars("+")), None);
    assert_eq!(parse_tile_id(&chars("3a")), None);
    assert_eq!(parse_tile_id(&chars("a3")), None);
    assert_eq!(parse_tile_id(&chars("--3")), None);
}

#[test]
fn parse_respects_the_i32_range() {
    assert_eq!(parse_tile_id(&chars("2147483647")), Some(i32::MAX));
    assert_eq!(parse_tile_id(&chars("2147483648")), None);
    assert_eq!(parse_tile_id(&chars("-2147483648")), Some(i32::MIN));
    assert_eq!(parse_tile_id(&chars("-2147483649")), None);
    assert_eq!(parse_tile_id(&chars("99999999999999999999")), None);
}

#[test]
fn image_source_finds_a_tile_by_numeric_id() {
    let tiles = Tiles { tile: vec![tile("0", "grass.png"), tile("1", "dirt.png")] };
    assert_eq!(tiles.image_source(1).map(String::as_str), Some("dirt.png"));
    assert_eq!(tiles.image_source(0).map(String::as_str), Some("grass.png"));
    assert_eq!(tiles.image_source(2), None);
}

#[test]
fn image_source_lets_a_later_duplicate_shadow_an_earlier_one() {
    let tiles = Tiles { tile: vec![tile("3", "old.png"), tile(" 3 ", "new.png")] };
    assert_eq!(tiles.image_source(3).map(String::as_str), Some("new.png"));
}

#[test]
fn image_source_skips_unparsable_ids() {
    let tiles = Tiles { tile: vec![tile("x", "junk.png"), tile("4", "rock.png")] };
    assert_eq!(tiles.image_source(4).map(String::as_str), Some("rock.png"));
    assert_eq!(tiles.image_source(120), None);
}

#[test]
fn tile_locations_walk_the_grid_bottom_up_and_right_to_left() {
    // Catalog answering to ids 0, 1 and 2.
    let tiles = Tiles {
        tile: vec![tile("0", "a.png"), tile("1", "b.png"), tile("2", "c.png")],
    };
    let map = level("1,2\n2,3");
    let v = map.tile_locations(&tiles, 800, 600);
    // The bottom line is laid out first, from the right edge inward; the
    // cursor then resets to the full screen width for the line above.
    assert_eq!(
        v,
        vec![
            Rect::new(768, 536, 32, 32),
            Rect::new(736, 536, 32, 32),
            Rect::new(800, 504, 32, 32),
            Rect::new(768, 504, 32, 32),
        ]
    );
}

#[test]
fn tile_locations_read_each_cell_reversed() {
    // Cells are consumed through a character-reversed view of the line, so
    // the cell "12" is looked up as 21: its predecessor id is 20.
    let tiles = Tiles { tile: vec![tile("20", "x.png")] };
    let map = level("12");
    let v = map.tile_locations(&tiles, 800, 600);
    assert_eq!(v, vec![Rect::new(768, 536, 32, 32)]);
    // With only id 11 on offer (the predecessor of an unreversed reading),
    // nothing is placed.
    let unreversed = Tiles { tile: vec![tile("11", "x.png")] };
    assert_eq!(map.tile_locations(&unreversed, 800, 600), vec![]);
}

#[test]
fn tile_locations_blank_cells_step_without_placing() {
    // Empty cells, lone spaces and "0" advance the cursor; unparsable text
    // and unknown ids leave it in place.
    let tiles = Tiles { tile: vec![tile("0", "a.png")] };
    let map = level("1, ,0,,x,1");
    let v = map.tile_locations(&tiles, 800, 600);
    assert_eq!(v, vec![Rect::new(768, 536, 32, 32), Rect::new(640, 536, 32, 32)]);
}

#[test]
fn tile_locations_of_an_empty_layer_are_empty() {
    let tiles = Tiles { tile: vec![tile("0", "a.png")] };
    let map = level("");
    assert_eq!(map.tile_locations(&tiles, 800, 600), vec![]);
}
