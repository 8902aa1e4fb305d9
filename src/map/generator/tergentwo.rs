//! A terrain generator that layers rock, soil, grass and water
use crate::map::generator::{field_at, is_square_field};
use crate::map::{cube_fits, grid_of, is_cube, lemma_grid_of, Block, IsoMap};
use crate::random::random_below;
use vstd::prelude::*;

verus! {

/// The elevation band of a column whose surface lies at `h`, under water
/// level `w` and soil cutoff `s`.
pub enum Band {
    Lowland,
    SoilCapable,
    BareRock,
}

pub open spec fn band_of(h: int, w: int, s: int) -> Band {
    if h < w {
        Band::Lowland
    } else if h < s {
        Band::SoilCapable
    } else {
        Band::BareRock
    }
}

/// The depth at which the rock of a soil-capable column ends.
pub open spec fn rock_top(h: int, d: int) -> int {
    if h - d > 0 {
        h - d
    } else {
        0
    }
}

/// The block at height `z` of a column whose surface lies at `h` and whose
/// soil layer is `d` deep, under water level `w` and soil cutoff `s`.
///
/// A lowland column is rock up to `h - 1` and water from there up to `w - 1`;
/// a soil-capable column is rock, then soil, then one block of grass at
/// `h - 1`; a bare-rock column is rock up to `h`.
pub open spec fn stratum(h: int, d: int, w: int, s: int, z: int) -> Block {
    match band_of(h, w, s) {
        Band::Lowland => if z < h - 1 {
            Block::Rock
        } else if z < w - 1 {
            Block::Water
        } else {
            Block::Air
        },
        Band::SoilCapable => if z < rock_top(h, d) {
            Block::Rock
        } else if z < h - 1 {
            Block::Soil
        } else if z == h - 1 && rock_top(h, d) < h {
            Block::Grass
        } else {
            Block::Air
        },
        Band::BareRock => if z < h {
            Block::Rock
        } else {
            Block::Air
        },
    }
}

/// The block at `(x, y, z)` of the map that the stratified generator builds.
pub open spec fn strata_cell(
    heights: Seq<Vec<usize>>,
    depths: Seq<Vec<usize>>,
    w: int,
    s: int,
    x: int,
    y: int,
    z: int,
) -> Block {
    stratum(field_at(heights, x, y), field_at(depths, x, y), w, s, z)
}

/// The map that the stratified generator builds from a height field and a
/// soil-depth field.
pub open spec fn strata_grid(
    heights: Seq<Vec<usize>>,
    depths: Seq<Vec<usize>>,
    w: int,
    s: int,
) -> Seq<Seq<Seq<Block>>> {
    grid_of(
        heights.len(),
        |x: int, y: int, z: int| strata_cell(heights, depths, w, s, x, y, z),
    )
}

fn stratum_at(h: usize, d: usize, w: usize, s: usize, z: usize) -> (b: Block)
    ensures
        b == stratum(h as int, d as int, w as int, s as int, z as int),
{
    if h < w {
        if h > 0 && z < h - 1 {
            Block::Rock
        } else if z < w - 1 {
            Block::Water
        } else {
            Block::Air
        }
    } else if h < s {
        let rock_height: usize = h.saturating_sub(d);
        if z < rock_height {
            Block::Rock
        } else if h > 0 && z < h - 1 {
            Block::Soil
        } else if h > 0 && z == h - 1 && rock_height < h {
            Block::Grass
        } else {
            Block::Air
        }
    } else if z < h {
        Block::Rock
    } else {
        Block::Air
    }
}

fn strata_column(len: usize, h: usize, d: usize, w: usize, s: usize) -> (col: Vec<Block>)
    ensures
        col@ == Seq::new(len as nat, |z: int| stratum(h as int, d as int, w as int, s as int, z)),
{
    let mut col: Vec<Block> = Vec::new();
    let mut z: usize = 0;
    while z < len
        invariant
            z <= len,
            col@ == Seq::new(z as nat, |i: int| stratum(h as int, d as int, w as int, s as int, i)),
        decreases len - z,
    {
        col.push(stratum_at(h, d, w, s, z));
        z = z + 1;
        assert(col@ =~= Seq::new(z as nat, |i: int| stratum(h as int, d as int, w as int, s as int, i)));
    }
    col
}

/// Build a map from a height field and a soil-depth field, with the given
/// water level and soil cutoff.
pub fn fill_strata(
    heights: &Vec<Vec<usize>>,
    soil_depths: &Vec<Vec<usize>>,
    water_level: usize,
    soil_level: usize,
) -> (m: IsoMap)
    requires
        is_square_field(heights@, heights@.len()),
        is_square_field(soil_depths@, heights@.len()),
        cube_fits(heights@.len()),
    ensures
        m@ == strata_grid(heights@, soil_depths@, water_level as int, soil_level as int),
        is_cube(m@, heights@.len()),
{
    let n = heights.len();
    let ghost w = water_level as int;
    let ghost s = soil_level as int;
    let mut m = IsoMap::new_empty(n);
    let mut x: usize = 0;
    proof {
        lemma_grid_of(n as nat, |x: int, y: int, z: int| Block::Air);
    }
    while x < n
        invariant
            n == heights@.len(),
            w == water_level as int,
            s == soil_level as int,
            is_square_field(heights@, n as nat),
            is_square_field(soil_depths@, n as nat),
            x <= n,
            is_cube(m@, n as nat),
            forall|i: int, j: int, k: int|
                0 <= i < n && 0 <= j < n && 0 <= k < n ==> #[trigger] m@[i][j][k] == if i < x {
                    strata_cell(heights@, soil_depths@, w, s, i, j, k)
                } else {
                    Block::Air
                },
        decreases n - x,
    {
        let mut y: usize = 0;
        while y < n
            invariant
                n == heights@.len(),
                w == water_level as int,
                s == soil_level as int,
                is_square_field(heights@, n as nat),
                is_square_field(soil_depths@, n as nat),
                x < n,
                y <= n,
                is_cube(m@, n as nat),
                forall|i: int, j: int, k: int|
                    0 <= i < n && 0 <= j < n && 0 <= k < n ==> #[trigger] m@[i][j][k] == if i < x
                        || (i == x && j < y) {
                        strata_cell(heights@, soil_depths@, w, s, i, j, k)
                    } else {
                        Block::Air
                    },
            decreases n - y,
        {
            let h = heights[x][y];
            let d = soil_depths[x][y];
            let col = strata_column(n, h, d, water_level, soil_level);
            assert forall|k: int| 0 <= k < n implies #[trigger] col@[k] == strata_cell(
                heights@,
                soil_depths@,
                w,
                s,
                x as int,
                y as int,
                k,
            ) by {
                assert(col@[k] == stratum(h as int, d as int, w, s, k));
            }
            let ghost before = m@;
            m.set_column(x, y, &col);
            assert forall|i: int, j: int, k: int|
                0 <= i < n && 0 <= j < n && 0 <= k < n implies #[trigger] m@[i][j][k] == if i == x
                    && j == y {
                    col@[k]
                } else {
                    before[i][j][k]
                } by {
                if i == x {
                    assert(m@[i] == before[i].update(y as int, col@));
                }
            }
            y = y + 1;
        }
        x = x + 1;
    }
    proof {
        lemma_grid_of(
            n as nat,
            |x: int, y: int, z: int| strata_cell(heights@, soil_depths@, w, s, x, y, z),
        );
    }
    assert(m@ =~~= strata_grid(heights@, soil_depths@, w, s));
    m
}

/// Every column falls in exactly one band, decided by its surface against
/// the water level and the soil cutoff. A lowland column holds no soil or
/// grass, a bare-rock column holds rock alone, and in a soil-capable column
/// whose soil layer is at least one block deep the topmost filled block, if
/// any block is filled, is grass.
pub proof fn lemma_strata_bands(h: int, d: int, w: int, s: int)
    requires
        0 <= h,
        1 <= d,
    ensures
        band_of(h, w, s) == Band::Lowland <==> h < w,
        band_of(h, w, s) == Band::SoilCapable <==> w <= h < s,
        band_of(h, w, s) == Band::BareRock <==> w <= h && s <= h,
        band_of(h, w, s) == Band::Lowland ==> forall|z: int|
            #![trigger stratum(h, d, w, s, z)]
            stratum(h, d, w, s, z) != Block::Soil && stratum(h, d, w, s, z) != Block::Grass,
        band_of(h, w, s) == Band::BareRock ==> forall|z: int|
            #![trigger stratum(h, d, w, s, z)]
            stratum(h, d, w, s, z) == Block::Rock || stratum(h, d, w, s, z) == Block::Air,
        band_of(h, w, s) == Band::SoilCapable ==> {
            &&& forall|z: int| #![trigger stratum(h, d, w, s, z)] stratum(h, d, w, s, z) != Block::Air ==> z <= h - 1
            &&& 1 <= h ==> stratum(h, d, w, s, h - 1) == Block::Grass
        },
{
}

/// The stratified map is determined by its inputs: two maps built from the
/// same height and soil-depth fields, water level and soil cutoff are equal.
pub proof fn lemma_strata_determined(
    heights: Seq<Vec<usize>>,
    soil_depths: Seq<Vec<usize>>,
    w: int,
    s: int,
    m1: IsoMap,
    m2: IsoMap,
)
    requires
        m1@ == strata_grid(heights, soil_depths, w, s),
        m2@ == strata_grid(heights, soil_depths, w, s),
    ensures
        m1@ == m2@,
{
}

/// Draw the water level, uniformly in `[0, max_water_level]`, and the soil
/// cutoff, uniformly in `[min_soil_cutoff, len)`.
pub fn draw_levels(max_water_level: usize, min_soil_cutoff: usize, len: usize) -> (r: (
    usize,
    usize,
))
    requires
        max_water_level < usize::MAX,
        min_soil_cutoff < len,
    ensures
        r.0 <= max_water_level,
        min_soil_cutoff <= r.1 < len,
{
    let water_level = random_below(0, max_water_level + 1);
    let soil_level = random_below(min_soil_cutoff, len);
    (water_level, soil_level)
}

/// Build a map from a height field and a soil-depth field, under a water
/// level and a soil cutoff drawn afresh for this map.
pub fn generate_strata(
    heights: &Vec<Vec<usize>>,
    soil_depths: &Vec<Vec<usize>>,
    max_water_level: usize,
    min_soil_cutoff: usize,
) -> (m: IsoMap)
    requires
        is_square_field(heights@, heights@.len()),
        is_square_field(soil_depths@, heights@.len()),
        cube_fits(heights@.len()),
        max_water_level < usize::MAX,
        min_soil_cutoff < heights@.len(),
    ensures
        is_cube(m@, heights@.len()),
        exists|w: int, s: int|
            0 <= w <= max_water_level && min_soil_cutoff <= s < heights@.len() && m@
                == strata_grid(heights@, soil_depths@, w, s),
{
    let (water_level, soil_level) = draw_levels(max_water_level, min_soil_cutoff, heights.len());
    let m = fill_strata(heights, soil_depths, water_level, soil_level);
    assert(m@ == strata_grid(heights@, soil_depths@, water_level as int, soil_level as int));
    m
}

} // verus!
