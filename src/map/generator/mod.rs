//! Generators for procedurally generating maps
//!
//! The noise fields behind the terrain generators are sampled by the caller
//! into integer height fields, indexed `[x][y]`; the generators here turn
//! those fields into maps.
pub mod tergenone;
pub mod tergentwo;
pub mod testing;

pub use self::tergenone::{rock_column_slices, rock_columns};
pub use self::tergentwo::{draw_levels, fill_strata, generate_strata};
pub use self::testing::TestingGenerator;

use crate::map::{cube_fits, is_cube, IsoMap};
use vstd::prelude::*;

verus! {

/// A generator capable of returning an `IsoMap`.
pub trait Generator {
    /// The edge length of the maps this generator makes.
    spec fn map_len(&self) -> nat;

    /// Make a map: a cube whose edge is `map_len`.
    fn generate(&self) -> (m: IsoMap)
        requires
            cube_fits(self.map_len()),
        ensures
            is_cube(m@, self.map_len()),
    ;
}

/// `f` is a square field of edge `n`.
pub open spec fn is_square_field(f: Seq<Vec<usize>>, n: nat) -> bool {
    &&& f.len() == n
    &&& forall|x: int| 0 <= x < n ==> #[trigger] f[x]@.len() == n
}

/// The value of field `f` at column `(x, y)`.
pub open spec fn field_at(f: Seq<Vec<usize>>, x: int, y: int) -> int {
    f[x]@[y] as int
}

} // verus!
