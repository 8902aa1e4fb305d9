//! A terrain generator that fills the landscape with rock
use crate::map::generator::{field_at, is_square_field};
use crate::map::{cube_fits, grid_of, is_cube, lemma_grid_of, Block, IsoMap};
use vstd::prelude::*;

verus! {

/// The block at height `z` of a rock column whose surface lies at `h`.
pub open spec fn rock_cell(h: int, z: int) -> Block {
    if z < h {
        Block::Rock
    } else {
        Block::Air
    }
}

/// The map whose columns are filled with rock from the bottom up to the
/// height field, for the columns with `x <= last` (all of them when `last`
/// is at least the edge length).
pub open spec fn rock_grid_upto(heights: Seq<Vec<usize>>, last: int) -> Seq<Seq<Seq<Block>>> {
    grid_of(
        heights.len(),
        |x: int, y: int, z: int|
            if x <= last {
                rock_cell(field_at(heights, x, y), z)
            } else {
                Block::Air
            },
    )
}

/// The map whose every column is filled with rock up to the height field.
pub open spec fn rock_grid(heights: Seq<Vec<usize>>) -> Seq<Seq<Seq<Block>>> {
    rock_grid_upto(heights, heights.len() as int)
}

fn rock_column(len: usize, h: usize) -> (col: Vec<Block>)
    ensures
        col@ == Seq::new(len as nat, |z: int| rock_cell(h as int, z)),
{
    let mut col: Vec<Block> = Vec::new();
    let mut z: usize = 0;
    while z < len
        invariant
            z <= len,
            col@ == Seq::new(z as nat, |i: int| rock_cell(h as int, i)),
        decreases len - z,
    {
        col.push(
            if z < h {
                Block::Rock
            } else {
                Block::Air
            },
        );
        z = z + 1;
        assert(col@ =~= Seq::new(z as nat, |i: int| rock_cell(h as int, i)));
    }
    col
}

/// Fill the slice at `x` with rock columns up to the height field.
fn fill_rock_slice(m: &mut IsoMap, heights: &Vec<Vec<usize>>, x: usize)
    requires
        is_square_field(heights@, heights@.len()),
        is_cube(old(m)@, heights@.len()),
        x < heights@.len(),
    ensures
        is_cube(final(m)@, heights@.len()),
        forall|i: int, j: int, k: int|
            0 <= i < heights@.len() && 0 <= j < heights@.len() && 0 <= k < heights@.len()
                ==> #[trigger] final(m)@[i][j][k] == if i == x {
                rock_cell(field_at(heights@, i, j), k)
            } else {
                old(m)@[i][j][k]
            },
{
    let n = heights.len();
    let ghost start = m@;
    let mut y: usize = 0;
    while y < n
        invariant
            n == heights@.len(),
            is_square_field(heights@, n as nat),
            is_cube(start, n as nat),
            start == old(m)@,
            x < n,
            y <= n,
            is_cube(m@, n as nat),
            forall|i: int, j: int, k: int|
                0 <= i < n && 0 <= j < n && 0 <= k < n ==> #[trigger] m@[i][j][k] == if i == x
                    && j < y {
                    rock_cell(field_at(heights@, i, j), k)
                } else {
                    start[i][j][k]
                },
        decreases n - y,
    {
        let col = rock_column(n, heights[x][y]);
        let ghost before = m@;
        m.set_column(x, y, &col);
        assert forall|i: int, j: int, k: int|
            0 <= i < n && 0 <= j < n && 0 <= k < n implies #[trigger] m@[i][j][k] == if i == x
                && j == y {
                col@[k]
            } else {
                before[i][j][k]
            } by {
            if i == x {
                assert(m@[i] == before[i].update(y as int, col@));
            }
        }
        y = y + 1;
    }
}

/// Build a map whose every column is filled with rock from the bottom up to
/// the height field; the blocks above stay air.
pub fn rock_columns(heights: &Vec<Vec<usize>>) -> (m: IsoMap)
    requires
        is_square_field(heights@, heights@.len()),
        cube_fits(heights@.len()),
    ensures
        m@ == rock_grid(heights@),
        is_cube(m@, heights@.len()),
        forall|x: int, y: int, z1: int, z2: int|
            0 <= x < heights@.len() && 0 <= y < heights@.len() && 0 <= z1 <= z2
                < heights@.len() && #[trigger] m@[x][y][z2] != Block::Air ==> #[trigger] m@[x][y][z1]
                == Block::Rock,
{
    let n = heights.len();
    let mut m = IsoMap::new_empty(n);
    let mut x: usize = 0;
    proof {
        lemma_grid_of(n as nat, |x: int, y: int, z: int| Block::Air);
    }
    while x < n
        invariant
            n == heights@.len(),
            is_square_field(heights@, n as nat),
            x <= n,
            is_cube(m@, n as nat),
            forall|i: int, j: int, k: int|
                0 <= i < n && 0 <= j < n && 0 <= k < n ==> #[trigger] m@[i][j][k] == if i < x {
                    rock_cell(field_at(heights@, i, j), k)
                } else {
                    Block::Air
                },
        decreases n - x,
    {
        fill_rock_slice(&mut m, heights, x);
        x = x + 1;
    }
    proof {
        lemma_grid_of(
            n as nat,
            |x: int, y: int, z: int|
                if x <= n as int {
                    rock_cell(field_at(heights@, x, y), z)
                } else {
                    Block::Air
                },
        );
    }
    assert(m@ =~~= rock_grid(heights@));
    m
}

/// Build a map as `rock_columns` does, and return a snapshot of it each time
/// one slice in the x axis is complete: the snapshot at index `i` holds the
/// columns with `x <= i`.
pub fn rock_column_slices(heights: &Vec<Vec<usize>>) -> (maps: Vec<IsoMap>)
    requires
        is_square_field(heights@, heights@.len()),
        cube_fits(heights@.len()),
    ensures
        maps@.len() == heights@.len(),
        forall|i: int| 0 <= i < maps@.len() ==> #[trigger] maps@[i]@ == rock_grid_upto(heights@, i),
        forall|i: int| 0 <= i < maps@.len() ==> is_cube(#[trigger] maps@[i]@, heights@.len()),
{
    let n = heights.len();
    let mut m = IsoMap::new_empty(n);
    let mut maps: Vec<IsoMap> = Vec::new();
    let mut x: usize = 0;
    proof {
        lemma_grid_of(n as nat, |x: int, y: int, z: int| Block::Air);
    }
    while x < n
        invariant
            n == heights@.len(),
            is_square_field(heights@, n as nat),
            x <= n,
            is_cube(m@, n as nat),
            forall|i: int, j: int, k: int|
                0 <= i < n && 0 <= j < n && 0 <= k < n ==> #[trigger] m@[i][j][k] == if i < x {
                    rock_cell(field_at(heights@, i, j), k)
                } else {
                    Block::Air
                },
            maps@.len() == x,
            forall|i: int| 0 <= i < x ==> #[trigger] maps@[i]@ == rock_grid_upto(heights@, i),
            forall|i: int| 0 <= i < x ==> is_cube(#[trigger] maps@[i]@, n as nat),
        decreases n - x,
    {
        fill_rock_slice(&mut m, heights, x);
        proof {
            lemma_grid_of(
                n as nat,
                |i: int, j: int, k: int|
                    if i <= x as int {
                        rock_cell(field_at(heights@, i, j), k)
                    } else {
                        Block::Air
                    },
            );
        }
        assert(m@ =~~= rock_grid_upto(heights@, x as int));
        maps.push(m.clone());
        x = x + 1;
    }
    maps
}

} // verus!
