//! Planning the isometric rendering of maps
//!
//! Tiles are assumed to be a 2:1 isometric projection. Multiple tiles can be
//! present in one sprite sheet, and an atlas can name several sheets: a tile
//! is kept as the index of its sheet and its rectangle there.
mod errors;
pub mod layout;
pub use self::errors::{ConfigLoadError, ConfigLoadErrorKind, RendererError};

use self::layout::{
    canvas_height, canvas_layout, canvas_width, floor_height, layout_fits, lemma_tile_in_canvas,
    pos_x, pos_y, sides_height,
};
use crate::map::{is_cube, Block, IsoMap};
use crate::random::random_below;
use vstd::prelude::*;

verus! {

/// A tile definition of the atlas descriptor: the block it draws and its
/// offset in its sheet, `(0, 0)` where none is given.
#[derive(Clone, Copy, Debug, PartialEq, Eq, Structural)]
pub struct TileDef {
    pub kind: Block,
    pub x: Option<i32>,
    pub y: Option<i32>,
}

/// A single tile, to be used in rendering the map: the index of its sheet
/// and its rectangle there.
#[derive(Clone, Copy, Debug, PartialEq, Eq, Structural)]
pub struct Tile {
    pub sheet: usize,
    pub x: i32,
    pub y: i32,
    pub width: u32,
    pub height: u32,
}

/// The tile that definition `d` of sheet `sheet` gives, for tiles of
/// `w` by `h` pixels.
pub open spec fn tile_of(d: TileDef, sheet: usize, w: u32, h: u32) -> Tile {
    Tile {
        sheet,
        x: match d.x {
            Some(v) => v,
            None => 0,
        },
        y: match d.y {
            Some(v) => v,
            None => 0,
        },
        width: w,
        height: h,
    }
}

/// The tiles for block `b` among the definitions `defs` of sheet `sheet`,
/// in order.
pub open spec fn sheet_tiles(defs: Seq<TileDef>, sheet: usize, w: u32, h: u32, b: Block) -> Seq<
    Tile,
>
    decreases defs.len(),
{
    if defs.len() == 0 {
        Seq::empty()
    } else {
        let rest = sheet_tiles(defs.drop_last(), sheet, w, h, b);
        if defs.last().kind == b {
            rest.push(tile_of(defs.last(), sheet, w, h))
        } else {
            rest
        }
    }
}

/// The tiles for block `b` in the sheets `files`, sheet by sheet.
pub open spec fn atlas_tiles(files: Seq<Vec<TileDef>>, w: u32, h: u32, b: Block) -> Seq<Tile>
    decreases files.len(),
{
    if files.len() == 0 {
        Seq::empty()
    } else {
        atlas_tiles(files.drop_last(), w, h, b) + sheet_tiles(
            files.last()@,
            (files.len() - 1) as usize,
            w,
            h,
            b,
        )
    }
}

/// The tiles of an atlas, one list per block.
pub struct TileLists {
    pub air: Vec<Tile>,
    pub rock: Vec<Tile>,
    pub grass: Vec<Tile>,
    pub soil: Vec<Tile>,
    pub water: Vec<Tile>,
}

impl TileLists {
    pub open spec fn spec_get(&self, b: Block) -> Seq<Tile> {
        match b {
            Block::Air => self.air@,
            Block::Rock => self.rock@,
            Block::Grass => self.grass@,
            Block::Soil => self.soil@,
            Block::Water => self.water@,
        }
    }

    pub fn new() -> (r: TileLists)
        ensures
            forall|b: Block| #[trigger] r.spec_get(b) == Seq::<Tile>::empty(),
    {
        TileLists { air: Vec::new(), rock: Vec::new(), grass: Vec::new(), soil: Vec::new(), water: Vec::new() }
    }

    /// The tiles for block `b`.
    pub fn get(&self, b: Block) -> (r: &Vec<Tile>)
        ensures
            r@ == self.spec_get(b),
    {
        match b {
            Block::Air => &self.air,
            Block::Rock => &self.rock,
            Block::Grass => &self.grass,
            Block::Soil => &self.soil,
            Block::Water => &self.water,
        }
    }

    /// Add a tile for block `b`.
    pub fn push(&mut self, b: Block, t: Tile)
        ensures
            forall|c: Block| #[trigger] final(self).spec_get(c) == if c == b {
                old(self).spec_get(c).push(t)
            } else {
                old(self).spec_get(c)
            },
    {
        match b {
            Block::Air => self.air.push(t),
            Block::Rock => self.rock.push(t),
            Block::Grass => self.grass.push(t),
            Block::Soil => self.soil.push(t),
            Block::Water => self.water.push(t),
        }
    }
}

/// The first block, in the order the blocks are declared, that must be drawn
/// and has no tile in `tiles`.
pub open spec fn first_missing(tiles: spec_fn(Block) -> Seq<Tile>) -> Option<Block> {
    if tiles(Block::Rock).len() == 0 {
        Some(Block::Rock)
    } else if tiles(Block::Grass).len() == 0 {
        Some(Block::Grass)
    } else if tiles(Block::Soil).len() == 0 {
        Some(Block::Soil)
    } else if tiles(Block::Water).len() == 0 {
        Some(Block::Water)
    } else {
        None
    }
}

/// Config used by the renderer to pick tiles
pub struct Renderer {
    /// width of a tile
    pub width: u32,
    /// height of a tile
    pub height: u32,
    /// The possible tiles for each block; one is picked at random every time
    /// a block is drawn.
    pub tiles: TileLists,
}

impl Renderer {
    /// Every block but air has at least one tile.
    pub open spec fn wf(&self) -> bool {
        first_missing(|b: Block| self.tiles.spec_get(b)) is None
    }

    /// Build the renderer's atlas from the tile definitions of each sprite
    /// sheet, for tiles of `width` by `height` pixels. It fails, naming the
    /// block, when a block other than air has no tile.
    pub fn from_tile_defs(width: u32, height: u32, files: &Vec<Vec<TileDef>>) -> (r: Result<
        Renderer,
        ConfigLoadError,
    >)
        ensures
            match first_missing(|b: Block| atlas_tiles(files@, width, height, b)) {
                None => r matches Ok(rd) && rd.width == width && rd.height == height && rd.wf()
                    && forall|b: Block| #[trigger]
                    rd.tiles.spec_get(b) == atlas_tiles(files@, width, height, b),
                Some(b) => r == Err::<Renderer, ConfigLoadError>(
                    ConfigLoadError { inner: ConfigLoadErrorKind::MissingBlock(b) },
                ),
            },
    {
        let mut tiles = TileLists::new();
        let mut i: usize = 0;
        while i < files.len()
            invariant
                i <= files@.len(),
                forall|b: Block| #[trigger]
                    tiles.spec_get(b) == atlas_tiles(files@.take(i as int), width, height, b),
            decreases files@.len() - i,
        {
            let defs = &files[i];
            let ghost done = files@.take(i as int);
            let mut j: usize = 0;
            while j < defs.len()
                invariant
                    i < files@.len(),
                    defs == files@[i as int],
                    done == files@.take(i as int),
                    j <= defs@.len(),
                    forall|b: Block| #[trigger]
                        tiles.spec_get(b) == atlas_tiles(done, width, height, b) + sheet_tiles(
                            defs@.take(j as int),
                            i,
                            width,
                            height,
                            b,
                        ),
                decreases defs@.len() - j,
            {
                let d = defs[j];
                let t = Tile {
                    sheet: i,
                    x: match d.x {
                        Some(v) => v,
                        None => 0,
                    },
                    y: match d.y {
                        Some(v) => v,
                        None => 0,
                    },
                    width,
                    height,
                };
                tiles.push(d.kind, t);
                assert(defs@.take(j as int + 1).drop_last() =~= defs@.take(j as int));
                j = j + 1;
            }
            assert(defs@.take(j as int) =~= defs@);
            assert(files@.take(i as int + 1).drop_last() =~= files@.take(i as int));
            i = i + 1;
        }
        assert(files@.take(i as int) =~= files@);
        if tiles.get(Block::Rock).len() == 0 {
            return Err(ConfigLoadError { inner: ConfigLoadErrorKind::MissingBlock(Block::Rock) });
        }
        if tiles.get(Block::Grass).len() == 0 {
            return Err(ConfigLoadError { inner: ConfigLoadErrorKind::MissingBlock(Block::Grass) });
        }
        if tiles.get(Block::Soil).len() == 0 {
            return Err(ConfigLoadError { inner: ConfigLoadErrorKind::MissingBlock(Block::Soil) });
        }
        if tiles.get(Block::Water).len() == 0 {
            return Err(ConfigLoadError { inner: ConfigLoadErrorKind::MissingBlock(Block::Water) });
        }
        Ok(Renderer { width, height, tiles })
    }
}

/// The message of the error that rendering returns where the canvas would
/// not fit in pixel coordinates.
pub const CANVAS_OUT_OF_RANGE: &'static str = "canvas size out of range";

/// Red, green and blue of the background of a fresh canvas.
pub const BACKGROUND_COLOR: (u8, u8, u8) = (154, 216, 224);

/// The non-air cells `(x, y, z)` of row `x` of floor `z` with `y < m`, by
/// increasing `y`.
pub open spec fn row_cells(g: Seq<Seq<Seq<Block>>>, z: int, x: int, m: int) -> Seq<(int, int, int)>
    decreases m,
{
    if m <= 0 {
        Seq::empty()
    } else {
        let rest = row_cells(g, z, x, m - 1);
        if g[x][m - 1][z] != Block::Air {
            rest.push((x, m - 1, z))
        } else {
            rest
        }
    }
}

/// The non-air cells of floor `z` with `x < m`, row by row.
pub open spec fn floor_cells(g: Seq<Seq<Seq<Block>>>, z: int, m: int, n: int) -> Seq<
    (int, int, int),
>
    decreases m,
{
    if m <= 0 {
        Seq::empty()
    } else {
        floor_cells(g, z, m - 1, n) + row_cells(g, z, m - 1, n)
    }
}

/// The non-air cells of the floors `z < m`, floor by floor from the bottom.
pub open spec fn cells_below(g: Seq<Seq<Seq<Block>>>, m: int, n: int) -> Seq<(int, int, int)>
    decreases m,
{
    if m <= 0 {
        Seq::empty()
    } else {
        cells_below(g, m - 1, n) + floor_cells(g, m - 1, n, n)
    }
}

/// The cells that rendering draws, in the order it draws them: every non-air
/// cell, floor by floor from the bottom.
pub open spec fn drawn_cells(g: Seq<Seq<Seq<Block>>>) -> Seq<(int, int, int)> {
    cells_below(g, g.len() as int, g.len() as int)
}

/// Cell `c` lies in the cube `g` of edge `n` and does not hold air.
pub open spec fn holds_block(g: Seq<Seq<Seq<Block>>>, n: int, c: (int, int, int)) -> bool {
    &&& 0 <= c.0 < n
    &&& 0 <= c.1 < n
    &&& 0 <= c.2 < n
    &&& g[c.0][c.1][c.2] != Block::Air
}

proof fn lemma_row_cells_hold_blocks(g: Seq<Seq<Seq<Block>>>, n: int, z: int, x: int, m: int)
    requires
        0 <= z < n,
        0 <= x < n,
        m <= n,
    ensures
        forall|i: int|
            0 <= i < row_cells(g, z, x, m).len() ==> holds_block(
                g,
                n,
                #[trigger] row_cells(g, z, x, m)[i],
            ),
    decreases m,
{
    if m > 0 {
        lemma_row_cells_hold_blocks(g, n, z, x, m - 1);
        let rest = row_cells(g, z, x, m - 1);
        assert forall|i: int| 0 <= i < row_cells(g, z, x, m).len() implies holds_block(
            g,
            n,
            #[trigger] row_cells(g, z, x, m)[i],
        ) by {
            if i < rest.len() {
                assert(row_cells(g, z, x, m)[i] == rest[i]);
            }
        }
    }
}

proof fn lemma_floor_cells_hold_blocks(g: Seq<Seq<Seq<Block>>>, n: int, z: int, m: int)
    requires
        0 <= z < n,
        m <= n,
    ensures
        forall|i: int|
            0 <= i < floor_cells(g, z, m, n).len() ==> holds_block(
                g,
                n,
                #[trigger] floor_cells(g, z, m, n)[i],
            ),
    decreases m,
{
    if m > 0 {
        lemma_floor_cells_hold_blocks(g, n, z, m - 1);
        lemma_row_cells_hold_blocks(g, n, z, m - 1, n);
        let a = floor_cells(g, z, m - 1, n);
        let b = row_cells(g, z, m - 1, n);
        assert forall|i: int| 0 <= i < (a + b).len() implies holds_block(
            g,
            n,
            #[trigger] (a + b)[i],
        ) by {
            if i >= a.len() {
                assert((a + b)[i] == b[i - a.len()]);
            }
        }
    }
}

proof fn lemma_cells_below_hold_blocks(g: Seq<Seq<Seq<Block>>>, n: int, m: int)
    requires
        m <= n,
    ensures
        forall|i: int|
            0 <= i < cells_below(g, m, n).len() ==> holds_block(
                g,
                n,
                #[trigger] cells_below(g, m, n)[i],
            ),
    decreases m,
{
    if m > 0 {
        lemma_cells_below_hold_blocks(g, n, m - 1);
        lemma_floor_cells_hold_blocks(g, n, m - 1, n);
        let a = cells_below(g, m - 1, n);
        let b = floor_cells(g, m - 1, n, n);
        assert forall|i: int| 0 <= i < (a + b).len() implies holds_block(
            g,
            n,
            #[trigger] (a + b)[i],
        ) by {
            if i >= a.len() {
                assert((a + b)[i] == b[i - a.len()]);
            }
        }
    }
}

/// Rendering never draws air: every cell it draws lies in the map and holds
/// a block other than air, so no tile is ever looked up for air.
pub proof fn lemma_air_never_drawn(g: Seq<Seq<Seq<Block>>>)
    ensures
        forall|i: int|
            0 <= i < drawn_cells(g).len() ==> holds_block(
                g,
                g.len() as int,
                #[trigger] drawn_cells(g)[i],
            ),
{
    lemma_cells_below_hold_blocks(g, g.len() as int, g.len() as int);
}

/// One tile to copy onto the canvas, with its top left corner at `(x, y)`.
#[derive(Clone, Copy, Debug, PartialEq, Eq, Structural)]
pub struct Draw {
    pub tile: Tile,
    pub x: i32,
    pub y: i32,
}

/// What rendering a map does: a canvas of `width` by `height` pixels filled
/// with the background colour, then the draws in order, each of a tile's
/// full size.
pub struct RenderPlan {
    pub width: u32,
    pub height: u32,
    pub draws: Vec<Draw>,
}

impl Renderer {
    /// `d` draws the block at cell `c` of `g`, at its projected position.
    pub open spec fn draws_cell(&self, g: Seq<Seq<Seq<Block>>>, d: Draw, c: (int, int, int)) -> bool {
        let (w, h, n) = (self.width as int, self.height as int, g.len() as int);
        &&& d.x == pos_x(w, n, c.0, c.1)
        &&& d.y == pos_y(w, h, n, c.0, c.1, c.2)
        &&& self.tiles.spec_get(g[c.0][c.1][c.2]).contains(d.tile)
    }

    /// Get the pixel position of the tile at map position `(x_index, y_index)`,
    /// where tile `(0, 0)` is at the origin.
    fn get_tile_pos(&self, origin_x: i64, origin_y: i64, x_index: usize, y_index: usize) -> (r: (
        i64,
        i64,
    ))
        requires
            x_index <= i32::MAX,
            y_index <= i32::MAX,
            -0x8000_0000 <= origin_x <= 0x7fff_ffff,
            -0x8000_0000 <= origin_y <= 0x7fff_ffff,
        ensures
            r.0 == origin_x + (x_index - y_index) * (self.width / 2),
            r.1 == origin_y + (x_index + y_index) * (self.width / 4),
    {
        let dx = x_index as i64 - y_index as i64;
        let sx = (self.width / 2) as i64;
        let sy = (self.width / 4) as i64;
        let ay = x_index as i64 + y_index as i64;
        assert(-0x8000_0000 * 0x8000_0000 <= dx * sx <= 0x8000_0000 * 0x8000_0000) by (nonlinear_arith)
            requires
                -0x8000_0000 <= dx <= 0x8000_0000,
                0 <= sx <= 0x8000_0000,
        ;
        assert(0 <= ay * sy <= 0x1_0000_0000 * 0x4000_0000) by (nonlinear_arith)
            requires
                0 <= ay <= 0x1_0000_0000,
                0 <= sy <= 0x4000_0000,
        ;
        (origin_x + dx * sx, origin_y + ay * sy)
    }

    /// Pick one of the tiles for block `b` at random.
    fn get_random_sprite(&self, b: Block) -> (t: Tile)
        requires
            self.wf(),
            b != Block::Air,
        ensures
            self.tiles.spec_get(b).contains(t),
    {
        let potential_tiles = self.tiles.get(b);
        let i = random_below(0, potential_tiles.len());
        potential_tiles[i]
    }

    /// Plan the rendering of a map: the canvas size, and a draw for every
    /// non-air block, floor by floor from the bottom, with a tile picked at
    /// random among those for its block. It fails where the canvas would not
    /// fit in pixel coordinates.
    pub fn render_plan(&self, isomap: &IsoMap) -> (r: Result<RenderPlan, RendererError>)
        requires
            self.wf(),
            is_cube(isomap@, isomap@.len()),
        ensures
            r is Ok <==> layout_fits(self.width as int, self.height as int, isomap@.len() as int),
            r matches Err(e) ==> e.sdl_err@ == CANVAS_OUT_OF_RANGE@,
            r matches Ok(p) ==> {
                let (w, h, n) = (self.width as int, self.height as int, isomap@.len() as int);
                &&& p.width == canvas_width(w, n)
                &&& p.height == canvas_height(w, h, n)
                &&& p.draws@.len() == drawn_cells(isomap@).len()
                &&& forall|i: int|
                    0 <= i < p.draws@.len() ==> #[trigger] self.draws_cell(
                        isomap@,
                        p.draws@[i],
                        drawn_cells(isomap@)[i],
                    )
            },
    {
        let n = isomap.len();
        let layout = match canvas_layout(self.width, self.height, n) {
            Some(l) => l,
            None => {
                return Err(RendererError::from(CANVAS_OUT_OF_RANGE.to_string()));
            },
        };
        let ghost g = isomap@;
        let ghost (w, h) = (self.width as int, self.height as int);
        let origin_x: i64 = (layout.width / 2 - self.width / 2) as i64;
        let base_y: i64 = layout.height as i64 - self.height as i64 - layout.floor_height as i64;
        let mut draws: Vec<Draw> = Vec::new();
        let mut z: usize = 0;
        while z < n
            invariant
                self.wf(),
                g == isomap@,
                w == self.width,
                h == self.height,
                n == g.len(),
                is_cube(g, n as nat),
                layout_fits(w, h, n as int),
                layout.width == canvas_width(w, n as int),
                layout.height == canvas_height(w, h, n as int),
                layout.floor_height == floor_height(w, h, n as int),
                layout.sides_height == sides_height(w, h),
                origin_x == canvas_width(w, n as int) / 2 - w / 2,
                base_y == canvas_height(w, h, n as int) - h - floor_height(w, h, n as int),
                z <= n,
                draws@.len() == cells_below(g, z as int, n as int).len(),
                forall|i: int|
                    0 <= i < draws@.len() ==> #[trigger] self.draws_cell(
                        g,
                        draws@[i],
                        cells_below(g, z as int, n as int)[i],
                    ),
            decreases n - z,
        {
            assert(z * sides_height(w, h) <= sides_height(w, h) * n) by (nonlinear_arith)
                requires
                    z <= n,
                    sides_height(w, h) >= 0,
            ;
            let origin_y: i64 = base_y - (z as i64) * (layout.sides_height as i64);
            assert(0 <= origin_y <= 0x7fff_ffff);
            let ghost done = cells_below(g, z as int, n as int);
            let mut x: usize = 0;
            while x < n
                invariant
                    self.wf(),
                    g == isomap@,
                    w == self.width,
                    h == self.height,
                    n == g.len(),
                    is_cube(g, n as nat),
                    layout_fits(w, h, n as int),
                    origin_x == canvas_width(w, n as int) / 2 - w / 2,
                    origin_y == canvas_height(w, h, n as int) - h - floor_height(w, h, n as int) - z
                        * sides_height(w, h),
                    0 <= origin_y <= 0x7fff_ffff,
                    z < n,
                    x <= n,
                    done == cells_below(g, z as int, n as int),
                    draws@.len() == (done + floor_cells(g, z as int, x as int, n as int)).len(),
                    forall|i: int|
                        0 <= i < draws@.len() ==> #[trigger] self.draws_cell(
                            g,
                            draws@[i],
                            (done + floor_cells(g, z as int, x as int, n as int))[i],
                        ),
                decreases n - x,
            {
                let ghost before_row = done + floor_cells(g, z as int, x as int, n as int);
                let mut y: usize = 0;
                while y < n
                    invariant
                        self.wf(),
                        g == isomap@,
                        w == self.width,
                        h == self.height,
                        n == g.len(),
                        is_cube(g, n as nat),
                        layout_fits(w, h, n as int),
                        origin_x == canvas_width(w, n as int) / 2 - w / 2,
                        origin_y == canvas_height(w, h, n as int) - h - floor_height(w, h, n as int)
                            - z * sides_height(w, h),
                        0 <= origin_y <= 0x7fff_ffff,
                        z < n,
                        x < n,
                        y <= n,
                        before_row == done + floor_cells(g, z as int, x as int, n as int),
                        draws@.len() == (before_row + row_cells(g, z as int, x as int, y as int)).len(),
                        forall|i: int|
                            0 <= i < draws@.len() ==> #[trigger] self.draws_cell(
                                g,
                                draws@[i],
                                (before_row + row_cells(g, z as int, x as int, y as int))[i],
                            ),
                    decreases n - y,
                {
                    let block = isomap.get(x, y, z);
                    let ghost prev = before_row + row_cells(g, z as int, x as int, y as int);
                    if block != Block::Air {
                        proof {
                            lemma_tile_in_canvas(w, h, n as int, x as int, y as int, z as int);
                        }
                        let (tx, ty) = self.get_tile_pos(origin_x, origin_y, x, y);
                        let tile = self.get_random_sprite(block);
                        let d = Draw { tile, x: tx as i32, y: ty as i32 };
                        draws.push(d);
                        assert(before_row + row_cells(g, z as int, x as int, y as int + 1) =~= prev.push(
                            (x as int, y as int, z as int),
                        ));
                        assert(self.draws_cell(g, d, (x as int, y as int, z as int)));
                    } else {
                        assert(before_row + row_cells(g, z as int, x as int, y as int + 1) =~= prev);
                    }
                    y = y + 1;
                }
                assert(done + floor_cells(g, z as int, x as int + 1, n as int) =~= before_row
                    + row_cells(g, z as int, x as int, n as int));
                x = x + 1;
            }
            assert(cells_below(g, z as int + 1, n as int) =~= done + floor_cells(
                g,
                z as int,
                n as int,
                n as int,
            ));
            z = z + 1;
        }
        Ok(RenderPlan { width: layout.width, height: layout.height, draws })
    }
}

} // verus!
