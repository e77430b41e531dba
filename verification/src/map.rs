//! The static tile map: an 80x50 grid with walls on the border, addressed by
//! `idx = y * WIDTH + x`, and the walkability check the movement code uses.
use vstd::prelude::*;

use crate::draw::{Color, DrawOp, DrawOpView, ops_view};
use crate::outside::cp437_of;

verus! {

pub const WIDTH: usize = 80;

pub const HEIGHT: usize = 50;

pub const MAP_COUNT: usize = HEIGHT * WIDTH;

#[derive(PartialEq, Eq, Copy, Clone, Structural, Debug)]
pub enum TileType {
    Wall,
    Floor,
}

/// The character whose CP437 glyph draws a tile.
pub open spec fn tile_char(t: TileType) -> char {
    match t {
        TileType::Floor => '.',
        TileType::Wall => '#',
    }
}

/// The foreground color of a tile.
pub open spec fn tile_fg(t: TileType) -> Color {
    match t {
        TileType::Floor => Color { r: 128, g: 128, b: 128 },
        TileType::Wall => Color { r: 64, g: 64, b: 64 },
    }
}

/// The draw operation that paints tile `t` at `(x, y)`.
pub open spec fn tile_cell(t: TileType, x: i32, y: i32, fg: Color, bg: Color) -> DrawOpView {
    DrawOpView::Cell { x, y, fg, bg, glyph: cp437_of(tile_char(t)) }
}

impl TileType {
    pub fn render_custom(&self, frame: &mut Vec<DrawOp>, x: i32, y: i32, fg: Color, bg: Color)
        ensures
            ops_view(final(frame)@) == ops_view(old(frame)@).push(tile_cell(*self, x, y, fg, bg)),
    {
        let glyph = match self {
            TileType::Floor => bracket_lib::prelude::to_cp437('.'),
            TileType::Wall => bracket_lib::prelude::to_cp437('#'),
        };
        frame.push(DrawOp::Cell { x, y, fg, bg, glyph });
        proof {
            assert(ops_view(final(frame)@) =~= ops_view(old(frame)@).push(
                tile_cell(*self, x, y, fg, bg),
            ));
        }
    }

    pub fn render(&self, frame: &mut Vec<DrawOp>, x: i32, y: i32)
        ensures
            ops_view(final(frame)@) == ops_view(old(frame)@).push(
                tile_cell(*self, x, y, tile_fg(*self), Color { r: 0, g: 0, b: 0 }),
            ),
    {
        match self {
            TileType::Floor => self.render_custom(frame, x, y, Color::grey(), Color::black()),
            TileType::Wall => self.render_custom(frame, x, y, Color::dark_grey(), Color::black()),
        }
    }
}

pub fn xy_to_idx(x: i32, y: i32) -> (idx: usize)
    requires
        0 <= x < WIDTH,
        0 <= y < HEIGHT,
    ensures
        idx == y * WIDTH + x,
{
    (y as usize * WIDTH) + x as usize
}

/// The tile the generated map holds at `(x, y)`: walls on the border,
/// floor inside.
pub open spec fn map_tile(x: int, y: int) -> TileType {
    if x == 0 || x == WIDTH - 1 || y == 0 || y == HEIGHT - 1 {
        TileType::Wall
    } else {
        TileType::Floor
    }
}

/// Whether a full-size map assigns `map_tile` to every coordinate.
pub open spec fn is_generated_map(m: Seq<TileType>) -> bool {
    &&& m.len() == MAP_COUNT
    &&& forall|x: int, y: int|
        0 <= x < WIDTH && 0 <= y < HEIGHT ==> #[trigger] m[y * (WIDTH as int) + x] == map_tile(x, y)
}

pub fn new_map() -> (map: Vec<TileType>)
    ensures
        is_generated_map(map@),
{
    let mut map: Vec<TileType> = Vec::new();
    let mut i: usize = 0;
    while i < MAP_COUNT
        invariant
            i <= MAP_COUNT,
            map@.len() == i,
            forall|k: int| 0 <= k < i ==> map@[k] == TileType::Floor,
        decreases MAP_COUNT - i,
    {
        map.push(TileType::Floor);
        i = i + 1;
    }

    let mut x: i32 = 0;
    while x < WIDTH as i32
        invariant
            0 <= x <= WIDTH,
            map@.len() == MAP_COUNT,
            forall|xi: int, yi: int|
                0 <= xi < WIDTH && 0 <= yi < HEIGHT ==> #[trigger] map@[yi * (WIDTH as int) + xi] == (if (yi
                    == 0 || yi == HEIGHT - 1) && xi < x {
                    TileType::Wall
                } else {
                    TileType::Floor
                }),
        decreases WIDTH - x,
    {
        let top = xy_to_idx(x, 0);
        map[top] = TileType::Wall;
        let bottom = xy_to_idx(x, (HEIGHT - 1) as i32);
        map[bottom] = TileType::Wall;
        x = x + 1;
    }

    let mut y: i32 = 0;
    while y < HEIGHT as i32
        invariant
            0 <= y <= HEIGHT,
            map@.len() == MAP_COUNT,
            forall|xi: int, yi: int|
                0 <= xi < WIDTH && 0 <= yi < HEIGHT ==> #[trigger] map@[yi * (WIDTH as int) + xi] == (if (yi
                    == 0 || yi == HEIGHT - 1) || ((xi == 0 || xi == WIDTH - 1) && yi < y) {
                    TileType::Wall
                } else {
                    TileType::Floor
                }),
        decreases HEIGHT - y,
    {
        let left = xy_to_idx(0, y);
        map[left] = TileType::Wall;
        let right = xy_to_idx((WIDTH - 1) as i32, y);
        map[right] = TileType::Wall;
        y = y + 1;
    }

    map
}

/// The cells that drawing a map emits, row by row.
pub open spec fn map_draw_ops(m: Seq<TileType>) -> Seq<DrawOpView> {
    Seq::new(
        m.len(),
        |i: int|
            tile_cell(
                m[i],
                (i % (WIDTH as int)) as i32,
                (i / (WIDTH as int)) as i32,
                tile_fg(m[i]),
                Color { r: 0, g: 0, b: 0 },
            ),
    )
}

pub fn draw_map(map: &Vec<TileType>, frame: &mut Vec<DrawOp>)
    requires
        map@.len() == MAP_COUNT,
    ensures
        ops_view(final(frame)@) == ops_view(old(frame)@) + map_draw_ops(map@),
{
    let mut x: i32 = 0;
    let mut y: i32 = 0;
    let mut i: usize = 0;
    while i < map.len()
        invariant
            map@.len() == MAP_COUNT,
            0 <= i <= MAP_COUNT,
            x == (i as int) % (WIDTH as int),
            y == (i as int) / (WIDTH as int),
            ops_view(frame@) == ops_view(old(frame)@) + map_draw_ops(map@).take(i as int),
        decreases map@.len() - i,
    {
        let tile = map[i];
        tile.render(frame, x, y);
        proof {
            assert(map_draw_ops(map@).take(i + 1) =~= map_draw_ops(map@).take(i as int).push(
                map_draw_ops(map@)[i as int],
            ));
            assert(ops_view(frame@) =~= ops_view(old(frame)@) + map_draw_ops(map@).take(i + 1));
        }
        i = i + 1;
        x = x + 1;
        let should_be_next_row = x > (WIDTH - 1) as i32;
        if should_be_next_row {
            x = 0;
            y = y + 1;
        }
    }
    proof {
        assert(map_draw_ops(map@).take(map@.len() as int) =~= map_draw_ops(map@));
    }
}

pub fn is_tile_walkable(tt: TileType) -> (r: bool)
    ensures
        r == (tt != TileType::Wall),
{
    match tt {
        TileType::Wall => false,
        _ => true,
    }
}

} // verus!
