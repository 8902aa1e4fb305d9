//! Canvas sizing and the isometric projection of map positions
use vstd::prelude::*;

verus! {

/// Pixel height of the top face of a tile: tiles are a 2:1 projection, so it
/// is half the tile's width.
pub open spec fn top_height(w: int) -> int {
    w / 2
}

/// Pixel height of the sides of a tile: what is left of its height after the
/// top face.
pub open spec fn sides_height(w: int, h: int) -> int {
    h - top_height(w)
}

/// Pixel height of one floor: one top face per tile along the diagonal, and
/// the sides of the frontmost tile.
pub open spec fn floor_height(w: int, h: int, n: int) -> int {
    n * top_height(w) + sides_height(w, h)
}

/// Width of the canvas: a floor, and one tile of margin on each side.
pub open spec fn canvas_width(w: int, n: int) -> int {
    w * n + w * 2
}

/// Height of the canvas: a floor, every floor stacked on it, and margins.
pub open spec fn canvas_height(w: int, h: int, n: int) -> int {
    floor_height(w, h, n) + sides_height(w, h) * n + h * 2
}

/// A map of edge `n` can be laid out with tiles of `w` by `h` pixels: the top
/// face fits in the tile and the canvas fits in `i32` pixel coordinates.
pub open spec fn layout_fits(w: int, h: int, n: int) -> bool {
    &&& top_height(w) <= h
    &&& n <= i32::MAX
    &&& canvas_width(w, n) <= i32::MAX
    &&& canvas_height(w, h, n) <= i32::MAX
}

/// Horizontal pixel position of the tile at `(x, y)` in any floor.
pub open spec fn pos_x(w: int, n: int, x: int, y: int) -> int {
    (canvas_width(w, n) / 2 - w / 2) + (x - y) * (w / 2)
}

/// Vertical pixel position of the tile at `(x, y)` in floor `z`: the first
/// floor sits above the bottom margin, and each floor above it is raised by
/// the height of the sides.
pub open spec fn pos_y(w: int, h: int, n: int, x: int, y: int, z: int) -> int {
    (canvas_height(w, h, n) - h - floor_height(w, h, n) - z * sides_height(w, h)) + (x + y) * (w
        / 4)
}

/// The sizes of a canvas for a map.
#[derive(Clone, Copy, Debug, PartialEq, Eq, Structural)]
pub struct CanvasLayout {
    pub top_height: u32,
    pub sides_height: u32,
    pub floor_height: u32,
    pub width: u32,
    pub height: u32,
}

/// The canvas sizes for a map of edge `grid_len` drawn with tiles of
/// `tile_width` by `tile_height` pixels, or `None` where they do not fit.
pub fn canvas_layout(tile_width: u32, tile_height: u32, grid_len: usize) -> (r: Option<
    CanvasLayout,
>)
    ensures
        r is Some <==> layout_fits(tile_width as int, tile_height as int, grid_len as int),
        r matches Some(l) ==> {
            let (w, h, n) = (tile_width as int, tile_height as int, grid_len as int);
            &&& l.top_height == top_height(w)
            &&& l.sides_height == sides_height(w, h)
            &&& l.floor_height == floor_height(w, h, n)
            &&& l.width == canvas_width(w, n)
            &&& l.height == canvas_height(w, h, n)
        },
{
    let w = tile_width as u128;
    let h = tile_height as u128;
    let n = grid_len as u128;
    let top = w / 2;
    if h < top {
        return None;
    }
    let sides = h - top;
    assert(n * top <= 0x1_0000_0000_0000_0000 * 0x1_0000_0000) by (nonlinear_arith)
        requires
            n < 0x1_0000_0000_0000_0000,
            top < 0x1_0000_0000,
    ;
    assert(n * sides <= 0x1_0000_0000_0000_0000 * 0x1_0000_0000) by (nonlinear_arith)
        requires
            n < 0x1_0000_0000_0000_0000,
            sides < 0x1_0000_0000,
    ;
    assert(w * n <= 0x1_0000_0000_0000_0000 * 0x1_0000_0000) by (nonlinear_arith)
        requires
            n < 0x1_0000_0000_0000_0000,
            w < 0x1_0000_0000,
    ;
    let floor = n * top + sides;
    let width = w * n + w * 2;
    let height = floor + sides * n + h * 2;
    if n > 0x7fff_ffff || width > 0x7fff_ffff || height > 0x7fff_ffff {
        return None;
    }
    Some(
        CanvasLayout {
            top_height: top as u32,
            sides_height: sides as u32,
            floor_height: floor as u32,
            width: width as u32,
            height: height as u32,
        },
    )
}

/// Every tile of a map that can be laid out lies within the canvas.
pub proof fn lemma_tile_in_canvas(w: int, h: int, n: int, x: int, y: int, z: int)
    requires
        0 <= w,
        0 <= h,
        layout_fits(w, h, n),
        0 <= x < n,
        0 <= y < n,
        0 <= z < n,
    ensures
        0 <= pos_x(w, n, x, y) <= canvas_width(w, n),
        0 <= pos_y(w, h, n, x, y, z) <= canvas_height(w, h, n),
{
    let t = w / 2;
    let q = w / 4;
    let s = h - t;
    assert(2 * q <= t && 2 * t <= w);
    assert(canvas_width(w, n) / 2 >= n * t + w - t) by (nonlinear_arith)
        requires
            2 * t <= w,
            0 <= t,
            0 <= n,
        ;
    assert(0 - (n - 1) * t <= (x - y) * t <= (n - 1) * t) by (nonlinear_arith)
        requires
            0 <= x < n,
            0 <= y < n,
            0 <= t,
        ;
    assert((n - 1) * t <= n * w) by (nonlinear_arith)
        requires
            2 * t <= w,
            0 <= t,
            1 <= n,
        ;
    assert(0 <= (x + y) * q <= (n - 1) * t) by (nonlinear_arith)
        requires
            0 <= x < n,
            0 <= y < n,
            0 <= q,
            2 * q <= t,
        ;
    assert(z * s <= (n - 1) * s && 0 <= z * s) by (nonlinear_arith)
        requires
            0 <= z < n,
            0 <= s,
        ;
    assert(n * s - (n - 1) * s == s) by (nonlinear_arith);
    assert(n * t - (n - 1) * t == t) by (nonlinear_arith);
    assert(s * n == n * s) by (nonlinear_arith);
    assert(w * n == n * w) by (nonlinear_arith);
    let cw = canvas_width(w, n);
    assert(cw - cw / 2 >= cw / 2);
    assert(pos_x(w, n, x, y) == cw / 2 - t + (x - y) * t);
    assert(pos_x(w, n, x, y) >= 0);
    assert(pos_x(w, n, x, y) <= cw);
    assert(canvas_height(w, h, n) - h - floor_height(w, h, n) == n * s + h);
    assert(pos_y(w, h, n, x, y, z) == n * s + h - z * s + (x + y) * q);
    assert(pos_y(w, h, n, x, y, z) >= 0);
    assert(pos_y(w, h, n, x, y, z) <= canvas_height(w, h, n));
}

/// Floors are drawn bottom to top, and a tile of a higher floor lies no lower
/// on the canvas than the tile at the same `(x, y)` of a lower floor; strictly
/// higher where the tiles have sides. Its horizontal position is the same.
pub proof fn lemma_higher_floor_drawn_higher(
    w: int,
    h: int,
    n: int,
    x: int,
    y: int,
    z1: int,
    z2: int,
)
    requires
        0 <= w,
        top_height(w) <= h,
        z1 < z2,
    ensures
        pos_y(w, h, n, x, y, z2) <= pos_y(w, h, n, x, y, z1),
        top_height(w) < h ==> pos_y(w, h, n, x, y, z2) < pos_y(w, h, n, x, y, z1),
{
    let s = sides_height(w, h);
    assert(z1 * s <= z2 * s) by (nonlinear_arith)
        requires
            z1 < z2,
            0 <= s,
        ;
    assert(0 < s ==> z1 * s < z2 * s) by (nonlinear_arith)
        requires
            z1 < z2,
        ;
}

} // verus!
