//! Testing map generator that produces a simple map
//!
//! This is not a unit/integration test, but a simple generator, which can be
//! used in tests.
use crate::map::generator::Generator;
use crate::map::{cube_fits, grid_of, is_cube, lemma_grid_of, Block, IsoMap};
use vstd::prelude::*;

verus! {

/// The smallest edge length that the testing generator makes.
pub const MIN_TESTING_DIM: usize = 6;

/// A simple generator that produces a mostly flat map.
///
/// The minimum size is 6. `dim` lower than that will peg the size to 6.
#[derive(Debug)]
pub struct TestingGenerator {
    /// Map dimension to use
    pub dim: usize,
}

/// The edge length that the testing generator makes for a requested `dim`.
pub open spec fn testing_dim(dim: int) -> int {
    if dim >= MIN_TESTING_DIM {
        dim
    } else {
        MIN_TESTING_DIM as int
    }
}

/// The block at `(x, y, z)` of the testing map of edge `n`: rock up to half
/// the height, and a square of rock two blocks in from every side on the
/// level above.
pub open spec fn testing_cell(n: int, x: int, y: int, z: int) -> Block {
    if z < n / 2 {
        Block::Rock
    } else if z == n / 2 && 2 <= x < n - 2 && 2 <= y < n - 2 {
        Block::Rock
    } else {
        Block::Air
    }
}

/// The testing map of edge `n`.
pub open spec fn testing_grid(n: nat) -> Seq<Seq<Seq<Block>>> {
    grid_of(n, |x: int, y: int, z: int| testing_cell(n as int, x, y, z))
}

fn testing_column(n: usize, x: usize, y: usize) -> (col: Vec<Block>)
    requires
        n >= MIN_TESTING_DIM,
    ensures
        col@ == Seq::new(n as nat, |z: int| testing_cell(n as int, x as int, y as int, z)),
{
    let halfway = n / 2;
    let inner = 2 <= x && x < n - 2 && 2 <= y && y < n - 2;
    let mut col: Vec<Block> = Vec::new();
    let mut z: usize = 0;
    while z < n
        invariant
            n >= MIN_TESTING_DIM,
            halfway == n / 2,
            inner == (2 <= x < n - 2 && 2 <= y < n - 2),
            z <= n,
            col@ == Seq::new(z as nat, |i: int| testing_cell(n as int, x as int, y as int, i)),
        decreases n - z,
    {
        col.push(
            if z < halfway || (z == halfway && inner) {
                Block::Rock
            } else {
                Block::Air
            },
        );
        z = z + 1;
        assert(col@ =~= Seq::new(
            z as nat,
            |i: int| testing_cell(n as int, x as int, y as int, i),
        ));
    }
    col
}

impl TestingGenerator {
    /// The edge length of the maps this generator makes.
    pub fn edge_len(&self) -> (r: usize)
        ensures
            r == testing_dim(self.dim as int),
    {
        if self.dim >= MIN_TESTING_DIM {
            self.dim
        } else {
            MIN_TESTING_DIM
        }
    }

    /// Build the testing map.
    pub fn build(&self) -> (m: IsoMap)
        requires
            cube_fits(testing_dim(self.dim as int) as nat),
        ensures
            m@ == testing_grid(testing_dim(self.dim as int) as nat),
            is_cube(m@, testing_dim(self.dim as int) as nat),
    {
        let n = self.edge_len();
        let mut m = IsoMap::new_empty(n);
        let mut x: usize = 0;
        proof {
            lemma_grid_of(n as nat, |x: int, y: int, z: int| Block::Air);
        }
        while x < n
            invariant
                n >= MIN_TESTING_DIM,
                x <= n,
                is_cube(m@, n as nat),
                forall|i: int, j: int, k: int|
                    0 <= i < n && 0 <= j < n && 0 <= k < n ==> #[trigger] m@[i][j][k] == if i < x {
                        testing_cell(n as int, i, j, k)
                    } else {
                        Block::Air
                    },
            decreases n - x,
        {
            let mut y: usize = 0;
            while y < n
                invariant
                    n >= MIN_TESTING_DIM,
                    x < n,
                    y <= n,
                    is_cube(m@, n as nat),
                    forall|i: int, j: int, k: int|
                        0 <= i < n && 0 <= j < n && 0 <= k < n ==> #[trigger] m@[i][j][k] == if i
                            < x || (i == x && j < y) {
                            testing_cell(n as int, i, j, k)
                        } else {
                            Block::Air
                        },
                decreases n - y,
            {
                let col = testing_column(n, x, y);
                let ghost before = m@;
                m.set_column(x, y, &col);
                assert forall|i: int, j: int, k: int|
                    0 <= i < n && 0 <= j < n && 0 <= k < n implies #[trigger] m@[i][j][k] == if i
                        == x && j == y {
                        col@[k]
                    } else {
                        before[i][j][k]
                    } by {
                    if i == x {
                        assert(m@[i] == before[i].update(y as int, col@));
                    }
                }
                y = y + 1;
            }
            x = x + 1;
        }
        proof {
            lemma_grid_of(n as nat, |x: int, y: int, z: int| testing_cell(n as int, x, y, z));
        }
        assert(m@ =~~= testing_grid(n as nat));
        m
    }
}

impl Generator for TestingGenerator {
    open spec fn map_len(&self) -> nat {
        testing_dim(self.dim as int) as nat
    }

    fn generate(&self) -> (m: IsoMap)
        ensures
            m@ == testing_grid(testing_dim(self.dim as int) as nat),
    {
        self.build()
    }
}

} // verus!
