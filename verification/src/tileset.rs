use vstd::prelude::*;
use vstd::string::StrSliceExecFns;
use crate::geometry::Rect;

verus! {

/// The image file behind one tile, as named by the tileset description.
pub struct ImagePath {
    pub source: String,
}

/// One tile of a tileset: its identifier and its image.
pub struct Tile {
    pub id: String,
    pub image: ImagePath,
}

/// A tileset description: the catalog of tiles a map can reference.
pub struct Tiles {
    pub tile: Vec<Tile>,
}

/// Reference from a map to the tileset file it uses.
pub struct Tileset {
    pub source: String,
}

/// One map layer: its cell grid as comma/newline separated text.
pub struct Layer {
    pub data: String,
    pub width: i8,
    pub height: i8,
}

/// A level map: a tileset reference and a layer grid.
pub struct LevelMap {
    pub tileset: Tileset,
    pub layer: Layer,
}

/// ASCII whitespace, the characters trimmed from around a tile id.
pub open spec fn is_space(c: char) -> bool {
    c == ' ' || c == '\t' || c == '\n' || c == '\r' || c == '\x0b' || c == '\x0c'
}

/// A decimal digit.
pub open spec fn is_digit(c: char) -> bool {
    '0' <= c && c <= '9'
}

pub open spec fn trim_front(s: Seq<char>) -> Seq<char>
    decreases s.len(),
{
    if s.len() > 0 && is_space(s[0]) {
        trim_front(s.drop_first())
    } else {
        s
    }
}

pub open spec fn trim_back(s: Seq<char>) -> Seq<char>
    decreases s.len(),
{
    if s.len() > 0 && is_space(s.last()) {
        trim_back(s.drop_last())
    } else {
        s
    }
}

/// The characters left after stripping leading and trailing whitespace.
pub open spec fn spec_trim(s: Seq<char>) -> Seq<char> {
    trim_back(trim_front(s))
}

pub open spec fn all_digits(s: Seq<char>) -> bool {
    forall|i: int| 0 <= i < s.len() ==> is_digit(#[trigger] s[i])
}

/// The value of a digit string, most significant digit first.
pub open spec fn digits_val(s: Seq<char>) -> int
    decreases s.len(),
{
    if s.len() == 0 {
        0
    } else {
        digits_val(s.drop_last()) * 10 + (s.last() as u32 - 48)
    }
}

/// What parsing a tile id yields: an optional sign followed by one or more
/// decimal digits, rejected when empty, malformed or out of `i32` range.
pub open spec fn spec_parse_i32(s: Seq<char>) -> Option<i32> {
    let neg = s.len() > 0 && s[0] == '-';
    let ds = if s.len() > 0 && (s[0] == '-' || s[0] == '+') {
        s.drop_first()
    } else {
        s
    };
    if ds.len() == 0 || !all_digits(ds) {
        None
    } else {
        let v = if neg {
            -digits_val(ds)
        } else {
            digits_val(ds)
        };
        if i32::MIN <= v <= i32::MAX {
            Some(v as i32)
        } else {
            None
        }
    }
}

proof fn lemma_digits_val_nonneg(s: Seq<char>)
    requires
        all_digits(s),
    ensures
        digits_val(s) >= 0,
    decreases s.len(),
{
    if s.len() > 0 {
        assert(all_digits(s.drop_last())) by {
            assert(forall|i: int| 0 <= i < s.len() - 1 ==> s.drop_last()[i] == s[i]);
        }
        lemma_digits_val_nonneg(s.drop_last());
    }
}

/// A digit string is worth at least any of its prefixes.
proof fn lemma_digits_val_prefix_le(s: Seq<char>, i: int)
    requires
        all_digits(s),
        0 <= i <= s.len(),
    ensures
        digits_val(s.subrange(0, i)) <= digits_val(s),
    decreases s.len() - i,
{
    if i == s.len() {
        assert(s.subrange(0, i) =~= s);
    } else {
        lemma_digits_val_prefix_le(s, i + 1);
        assert(s.subrange(0, i + 1).drop_last() =~= s.subrange(0, i));
        assert(all_digits(s.subrange(0, i)));
        lemma_digits_val_nonneg(s.subrange(0, i));
        assert(digits_val(s.subrange(0, i + 1)) == digits_val(s.subrange(0, i)) * 10 + (s[i] as u32
            - 48));
    }
}

fn is_space_char(c: char) -> (b: bool)
    ensures
        b == is_space(c),
{
    c == ' ' || c == '\t' || c == '\n' || c == '\r' || c == '\x0b' || c == '\x0c'
}

/// Parses a tile id after trimming surrounding whitespace: an optional
/// `+`/`-` sign followed by decimal digits, `None` for anything else or for
/// a value outside `i32`.
pub fn parse_tile_id(token: &Vec<char>) -> (r: Option<i32>)
    ensures
        r == spec_parse_i32(spec_trim(token@)),
{
    // Trim: find the first and one-past-last non-space characters.
    let mut start: usize = 0;
    proof {
        assert(token@.subrange(0, token@.len() as int) =~= token@);
    }
    while start < token.len() && is_space_char(token[start])
        invariant
            0 <= start <= token@.len(),
            trim_front(token@) == trim_front(token@.subrange(start as int, token@.len() as int)),
        decreases token@.len() - start,
    {
        proof {
            assert(token@.subrange(start as int, token@.len() as int).drop_first()
                =~= token@.subrange(start as int + 1, token@.len() as int));
        }
        start = start + 1;
    }
    proof {
        assert(trim_front(token@) =~= token@.subrange(start as int, token@.len() as int));
    }
    let mut end: usize = token.len();
    while end > start && is_space_char(token[end - 1])
        invariant
            start <= end <= token@.len(),
            trim_front(token@) == token@.subrange(start as int, token@.len() as int),
            trim_back(trim_front(token@)) == trim_back(
                token@.subrange(start as int, end as int),
            ),
        decreases end,
    {
        proof {
            assert(token@.subrange(start as int, end as int).drop_last() =~= token@.subrange(
                start as int,
                end as int - 1,
            ));
        }
        end = end - 1;
    }
    let ghost trimmed = token@.subrange(start as int, end as int);
    proof {
        assert(spec_trim(token@) =~= trimmed);
    }

    // Sign.
    let mut neg = false;
    let mut idx: usize = start;
    if start < end && (token[start] == '-' || token[start] == '+') {
        neg = token[start] == '-';
        idx = start + 1;
    }
    let ghost ds = if trimmed.len() > 0 && (trimmed[0] == '-' || trimmed[0] == '+') {
        trimmed.drop_first()
    } else {
        trimmed
    };
    proof {
        assert(ds =~= token@.subrange(idx as int, end as int));
    }
    if idx == end {
        return None;
    }

    // Digits, with an early exit once the value cannot fit an `i32`.
    let mut acc: i64 = 0;
    let mut i: usize = idx;
    while i < end
        invariant
            idx <= i <= end <= token@.len(),
            trimmed == spec_trim(token@),
            ds == (if trimmed.len() > 0 && (trimmed[0] == '-' || trimmed[0] == '+') {
                trimmed.drop_first()
            } else {
                trimmed
            }),
            neg == (trimmed.len() > 0 && trimmed[0] == '-'),
            ds == token@.subrange(idx as int, end as int),
            ds.len() > 0,
            acc == digits_val(token@.subrange(idx as int, i as int)),
            all_digits(token@.subrange(idx as int, i as int)),
            0 <= acc <= 0x8000_0000i64,
        decreases end - i,
    {
        let c = token[i];
        let is_dig = '0' <= c && c <= '9';
        if !is_dig {
            proof {
                assert(ds[i - idx] == c);
                assert(!all_digits(ds));
            }
            return None;
        }
        let d: i64 = (c as u32 as i64) - 48;
        let acc2: i64 = acc * 10 + d;
        proof {
            assert(token@.subrange(idx as int, i as int + 1).drop_last() =~= token@.subrange(
                idx as int,
                i as int,
            ));
        }
        if acc2 > 0x8000_0000i64 {
            proof {
                if all_digits(ds) {
                    lemma_digits_val_prefix_le(ds, i + 1 - idx as int);
                    assert(ds.subrange(0, i + 1 - idx as int) =~= token@.subrange(
                        idx as int,
                        i as int + 1,
                    ));
                }
            }
            return None;
        }
        acc = acc2;
        i = i + 1;
    }
    proof {
        assert(token@.subrange(idx as int, i as int) =~= ds);
    }
    if !neg && acc > 0x7fff_ffffi64 {
        return None;
    }
    let v: i64 = if neg {
        -acc
    } else {
        acc
    };
    Some(v as i32)
}

/// The characters of a string, one by one.
fn str_chars(s: &str) -> (v: Vec<char>)
    ensures
        v@ == s@,
{
    let n = s.unicode_len();
    let mut v: Vec<char> = Vec::new();
    let mut i: usize = 0;
    while i < n
        invariant
            0 <= i <= n,
            n == s@.len(),
            v@ == s@.subrange(0, i as int),
        decreases n - i,
    {
        v.push(s.get_char(i));
        proof {
            assert(s@.subrange(0, i as int + 1) =~= s@.subrange(0, i as int).push(s@[i as int]));
        }
        i = i + 1;
    }
    proof {
        assert(s@.subrange(0, n as int) =~= s@);
    }
    v
}

/// Whether a catalog tile answers to the given id: its `id` text, trimmed
/// and parsed, is that number.
pub open spec fn tile_matches(t: Tile, key: int) -> bool {
    spec_parse_i32(spec_trim(t.id@)) matches Some(v) && v == key
}

/// The image source for an id, with a later catalog entry shadowing an
/// earlier one that answers to the same id.
pub open spec fn spec_lookup(tiles: Seq<Tile>, key: int) -> Option<Seq<char>>
    decreases tiles.len(),
{
    if tiles.len() == 0 {
        None
    } else if tile_matches(tiles.last(), key) {
        Some(tiles.last().image.source@)
    } else {
        spec_lookup(tiles.drop_last(), key)
    }
}

impl Tiles {
    /// Looks up the image source of the tile with the given id, the last
    /// matching catalog entry winning.
    pub fn image_source(&self, key: i64) -> (r: Option<&String>)
        ensures
            match r {
                Some(s) => spec_lookup(self.tile@, key as int) == Some(s@),
                None => spec_lookup(self.tile@, key as int) is None,
            },
    {
        let mut found: Option<&String> = None;
        let mut i: usize = 0;
        proof {
            assert(self.tile@.subrange(0, 0) =~= Seq::<Tile>::empty());
        }
        while i < self.tile.len()
            invariant
                0 <= i <= self.tile@.len(),
                match found {
                    Some(s) => spec_lookup(self.tile@.subrange(0, i as int), key as int) == Some(
                        s@,
                    ),
                    None => spec_lookup(self.tile@.subrange(0, i as int), key as int) is None,
                },
            decreases self.tile@.len() - i,
        {
            let t = &self.tile[i];
            let id_chars = str_chars(t.id.as_str());
            match parse_tile_id(&id_chars) {
                Some(v) => {
                    if (v as i64) == key {
                        found = Some(&t.image.source);
                    }
                },
                None => {},
            }
            proof {
                assert(self.tile@.subrange(0, i as int + 1).drop_last() =~= self.tile@.subrange(
                    0,
                    i as int,
                ));
                assert(self.tile@.subrange(0, i as int + 1).last() == self.tile@[i as int]);
            }
            i = i + 1;
        }
        proof {
            assert(self.tile@.subrange(0, self.tile@.len() as int) =~= self.tile@);
        }
        found
    }
}

/// What one grid token contributes: the blank markers (an empty cell, a
/// lone space, or `"0"`) step the cursor one 32-pixel cell left and place
/// nothing; a token that parses to an id whose predecessor is in the
/// catalog places a 32 by 32 tile at the cursor and steps left; anything
/// else (unparsable text, or an id the catalog lacks) places nothing and
/// leaves the cursor where it is.
pub open spec fn token_effect(tiles: Seq<Tile>, token: Seq<char>, x: int, y: int) -> (
    Option<Rect>,
    int,
) {
    if token.len() == 0 || token == seq![' '] || token == seq!['0'] {
        (None, x - 32)
    } else {
        match spec_parse_i32(spec_trim(token)) {
            None => (None, x),
            Some(n) => match spec_lookup(tiles, n - 1) {
                None => (None, x),
                Some(_) => (Some(Rect { x: x as i32, y: y as i32, w: 32, h: 32 }), x - 32),
            },
        }
    }
}

pub open spec fn opt_seq(o: Option<Rect>) -> Seq<Rect> {
    match o {
        Some(r) => seq![r],
        None => Seq::empty(),
    }
}

/// The tile rectangles of a layer grid, read as the game reads it: lines
/// bottom-up, cells right-to-left within a line with each cell's text
/// reversed, `,` separating cells and a newline resetting the cursor to
/// the right edge and moving one 32-pixel row up the screen.  Scanning the
/// text backwards from `pos` visits exactly those reversed cells in that
/// order; `token` holds the cell text gathered so far.
pub open spec fn scan_locs(
    tiles: Seq<Tile>,
    data: Seq<char>,
    pos: int,
    token: Seq<char>,
    x: int,
    y: int,
    w: int,
) -> Seq<Rect>
    decreases pos,
{
    if pos <= 0 {
        opt_seq(token_effect(tiles, token, x, y).0)
    } else {
        let c = data[pos - 1];
        if c == ',' {
            let e = token_effect(tiles, token, x, y);
            opt_seq(e.0) + scan_locs(tiles, data, pos - 1, Seq::empty(), e.1, y, w)
        } else if c == '\n' {
            let e = token_effect(tiles, token, x, y);
            opt_seq(e.0) + scan_locs(tiles, data, pos - 1, Seq::empty(), w, y - 32, w)
        } else {
            scan_locs(tiles, data, pos - 1, token.push(c), x, y, w)
        }
    }
}

/// Applies one token to the cursor, exactly as `token_effect` says.
fn token_effect_step(tiles: &Tiles, token: &Vec<char>, x: i32, y: i32) -> (r: (Option<Rect>, i32))
    requires
        i32::MIN <= x - 32,
    ensures
        r.0 == token_effect(tiles.tile@, token@, x as int, y as int).0,
        r.1 == token_effect(tiles.tile@, token@, x as int, y as int).1,
{
    let blank = token.len() == 0 || (token.len() == 1 && (token[0] == ' ' || token[0] == '0'));
    proof {
        if token@.len() == 1 {
            if token@[0] == ' ' {
                assert(token@ =~= seq![' ']);
            }
            if token@[0] == '0' {
                assert(token@ =~= seq!['0']);
            }
        }
        if token@ == seq![' '] || token@ == seq!['0'] {
            assert(token@.len() == 1);
        }
    }
    if blank {
        return (None, x - 32);
    }
    match parse_tile_id(token) {
        None => (None, x),
        Some(n) => {
            match tiles.image_source((n as i64) - 1) {
                None => (None, x),
                Some(_) => (Some(Rect { x, y, w: 32, h: 32 }), x - 32),
            }
        },
    }
}

impl LevelMap {
    /// The rectangles that the layer grid places on screen, for the level
    /// loader to hand to the spatial index.  The cursor starts one cell in
    /// from the bottom-right corner of the screen.
    pub fn tile_locations(&self, tiles: &Tiles, screen_w: i32, screen_h: i32) -> (v: Vec<Rect>)
        requires
            0 <= screen_w <= 1000000,
            0 <= screen_h <= 1000000,
            self.layer.data@.len() <= 1000000,
        ensures
            v@ == scan_locs(
                tiles.tile@,
                self.layer.data@,
                self.layer.data@.len() as int,
                Seq::empty(),
                screen_w - 32,
                screen_h - 64,
                screen_w as int,
            ),
    {
        let data = self.layer.data.as_str();
        let n = data.unicode_len();
        let ghost total = scan_locs(
            tiles.tile@,
            data@,
            n as int,
            Seq::empty(),
            screen_w - 32,
            screen_h - 64,
            screen_w as int,
        );
        let mut pos: usize = n;
        let mut token: Vec<char> = Vec::new();
        let mut x: i32 = screen_w - 32;
        let mut y: i32 = screen_h - 64;
        let mut v: Vec<Rect> = Vec::new();
        while pos > 0
            invariant
                0 <= pos <= n,
                n == data@.len() <= 1000000,
                0 <= screen_w <= 1000000,
                0 <= screen_h <= 1000000,
                screen_w - 32 - 32 * (n as int - pos as int) <= x <= screen_w,
                screen_h - 64 - 32 * (n as int - pos as int) <= y <= screen_h - 64,
                v@ + scan_locs(tiles.tile@, data@, pos as int, token@, x as int, y as int, screen_w as int)
                    == total,
            decreases pos,
        {
            let c = data.get_char(pos - 1);
            if c == ',' {
                let e = token_effect_step(tiles, &token, x, y);
                proof {
                    assert((v@ + opt_seq(e.0)) + scan_locs(
                        tiles.tile@,
                        data@,
                        pos as int - 1,
                        Seq::empty(),
                        e.1 as int,
                        y as int,
                        screen_w as int,
                    ) =~= v@ + (opt_seq(e.0) + scan_locs(
                        tiles.tile@,
                        data@,
                        pos as int - 1,
                        Seq::empty(),
                        e.1 as int,
                        y as int,
                        screen_w as int,
                    )));
                }
                let ghost vpre = v@;
                match e.0 {
                    Some(rct) => {
                        v.push(rct);
                        proof {
                            assert(vpre.push(rct) =~= vpre + opt_seq(e.0));
                        }
                    },
                    None => {
                        proof {
                            assert(vpre =~= vpre + opt_seq(e.0));
                        }
                    },
                }
                token = Vec::new();
                x = e.1;
            } else if c == '\n' {
                let e = token_effect_step(tiles, &token, x, y);
                proof {
                    assert((v@ + opt_seq(e.0)) + scan_locs(
                        tiles.tile@,
                        data@,
                        pos as int - 1,
                        Seq::empty(),
                        screen_w as int,
                        y as int - 32,
                        screen_w as int,
                    ) =~= v@ + (opt_seq(e.0) + scan_locs(
                        tiles.tile@,
                        data@,
                        pos as int - 1,
                        Seq::empty(),
                        screen_w as int,
                        y as int - 32,
                        screen_w as int,
                    )));
                }
                let ghost vpre = v@;
                match e.0 {
                    Some(rct) => {
                        v.push(rct);
                        proof {
                            assert(vpre.push(rct) =~= vpre + opt_seq(e.0));
                        }
                    },
                    None => {
                        proof {
                            assert(vpre =~= vpre + opt_seq(e.0));
                        }
                    },
                }
                token = Vec::new();
                x = screen_w;
                y = y - 32;
            } else {
                token.push(c);
            }
            pos = pos - 1;
        }
        let e = token_effect_step(tiles, &token, x, y);
        let ghost vpre = v@;
        match e.0 {
            Some(rct) => {
                v.push(rct);
                proof {
                    assert(vpre.push(rct) =~= vpre + opt_seq(e.0));
                }
            },
            None => {
                proof {
                    assert(vpre =~= vpre + opt_seq(e.0));
                }
            },
        }
        v
    }
}

} // verus!
