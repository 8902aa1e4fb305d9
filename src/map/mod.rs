//! Things related to representing a map
pub mod generator;

use vstd::prelude::*;

verus! {

/// A single block of a certain type
#[derive(Copy, Clone, PartialEq, Eq, Debug, Hash, Structural)]
pub enum Block {
    Air,
    Rock,
    Grass,
    Soil,
    Water,
}

impl Default for Block {
    fn default() -> (b: Block)
        ensures
            b == Block::Air,
    {
        Block::Air
    }
}

/// Struct representing a three dimensional map of blocks
///
/// Order is (x,y,z), z+ is up. The map is held in an ndarray array; Verus
/// sees it through `cells_of`, a sequence indexed `[x][y][z]`.
#[verifier::external_body]
pub struct IsoMap(pub ndarray::Array3<Block>);

/// The blocks held by a map, indexed `[x][y][z]`.
pub uninterp spec fn cells_of(m: IsoMap) -> Seq<Seq<Seq<Block>>>;

impl View for IsoMap {
    type V = Seq<Seq<Seq<Block>>>;

    open spec fn view(&self) -> Seq<Seq<Seq<Block>>> {
        cells_of(*self)
    }
}

/// The grid of edge `n` whose block at `(x, y, z)` is `f(x, y, z)`.
pub open spec fn grid_of(n: nat, f: spec_fn(int, int, int) -> Block) -> Seq<Seq<Seq<Block>>> {
    Seq::new(n, |x: int| Seq::new(n, |y: int| Seq::new(n, |z: int| f(x, y, z))))
}

/// The grid built by `grid_of` is a cube whose cells are the values of `f`.
pub proof fn lemma_grid_of(n: nat, f: spec_fn(int, int, int) -> Block)
    ensures
        is_cube(grid_of(n, f), n),
        forall|x: int, y: int, z: int|
            0 <= x < n && 0 <= y < n && 0 <= z < n ==> #[trigger] grid_of(n, f)[x][y][z] == f(
                x,
                y,
                z,
            ),
{
}

/// `g` is a cube of edge `n`.
pub open spec fn is_cube(g: Seq<Seq<Seq<Block>>>, n: nat) -> bool {
    &&& g.len() == n
    &&& forall|x: int| 0 <= x < n ==> #[trigger] g[x].len() == n
    &&& forall|x: int, y: int| 0 <= x < n && 0 <= y < n ==> #[trigger] g[x][y].len() == n
}

/// A cube of edge `n` fits in memory as ndarray requires.
pub open spec fn cube_fits(n: nat) -> bool {
    n * n * n <= isize::MAX
}

/// Relies on ndarray's `Array::from_elem`: an array of shape `(len, len, len)`
/// holding `b` everywhere; it panics when the element count overflows `isize`.
#[verifier::external_body]
fn array_from_elem(len: usize, b: Block) -> (r: IsoMap)
    requires
        cube_fits(len as nat),
    ensures
        cells_of(r) == grid_of(len as nat, |x: int, y: int, z: int| b),
{
    IsoMap(ndarray::Array3::from_elem((len, len, len), b))
}

/// Relies on ndarray's `len_of`: the length of the first axis.
#[verifier::external_body]
fn array_len(m: &IsoMap) -> (r: usize)
    ensures
        r == cells_of(*m).len(),
{
    m.0.len_of(ndarray::Axis(0))
}

/// Relies on ndarray's indexing by `[x, y, z]`, which panics out of bounds.
#[verifier::external_body]
fn array_get(m: &IsoMap, x: usize, y: usize, z: usize) -> (r: Block)
    requires
        x < m@.len(),
        y < m@[x as int].len(),
        z < m@[x as int][y as int].len(),
    ensures
        r == cells_of(*m)[x as int][y as int][z as int],
{
    m.0[[x, y, z]]
}

/// Relies on ndarray's mutable indexing by `[x, y, z]`, which panics out of bounds.
#[verifier::external_body]
fn array_set(m: &mut IsoMap, x: usize, y: usize, z: usize, b: Block)
    requires
        x < old(m)@.len(),
        y < old(m)@[x as int].len(),
        z < old(m)@[x as int][y as int].len(),
    ensures
        cells_of(*final(m)) == old(m)@.update(
            x as int,
            old(m)@[x as int].update(y as int, old(m)@[x as int][y as int].update(z as int, b)),
        ),
{
    m.0[[x, y, z]] = b;
}

impl Clone for IsoMap {
    /// Relies on ndarray's `Clone` for owned arrays: an element-wise copy.
    #[verifier::external_body]
    fn clone(&self) -> (r: IsoMap)
        ensures
            cells_of(r) == cells_of(*self),
    {
        IsoMap(self.0.clone())
    }
}

impl IsoMap {
    /// Create a new cube-shaped map, with `len` tiles in every direction,
    /// filled with `Block::Air`.
    pub fn new_empty(len: usize) -> (m: IsoMap)
        requires
            cube_fits(len as nat),
        ensures
            m@ == grid_of(len as nat, |x: int, y: int, z: int| Block::Air),
            is_cube(m@, len as nat),
    {
        array_from_elem(len, Block::Air)
    }

    /// Get the edge length of the map.
    pub fn len(&self) -> (r: usize)
        ensures
            r == self@.len(),
    {
        array_len(self)
    }

    /// The block at `(x, y, z)`.
    pub fn get(&self, x: usize, y: usize, z: usize) -> (r: Block)
        requires
            is_cube(self@, self@.len()),
            x < self@.len(),
            y < self@.len(),
            z < self@.len(),
        ensures
            r == self@[x as int][y as int][z as int],
    {
        array_get(self, x, y, z)
    }

    /// Overwrite the column at `(x, y)` with `col`, bottom first.
    pub fn set_column(&mut self, x: usize, y: usize, col: &Vec<Block>)
        requires
            is_cube(old(self)@, old(self)@.len()),
            x < old(self)@.len(),
            y < old(self)@.len(),
            col@.len() == old(self)@.len(),
        ensures
            final(self)@ == old(self)@.update(
                x as int,
                old(self)@[x as int].update(y as int, col@),
            ),
            is_cube(final(self)@, old(self)@.len()),
    {
        let n = col.len();
        let mut z: usize = 0;
        let ghost c = old(self)@[x as int][y as int];
        assert(c.len() == n);
        assert(col@.take(0) + c.skip(0) =~= c);
        assert(old(self)@[x as int].update(y as int, c) =~= old(self)@[x as int]);
        assert(old(self)@.update(x as int, old(self)@[x as int]) =~= old(self)@);
        while z < n
            invariant
                n == col@.len(),
                n == old(self)@.len(),
                z <= n,
                is_cube(old(self)@, n as nat),
                x < n,
                y < n,
                c == old(self)@[x as int][y as int],
                c.len() == n,
                self@ == old(self)@.update(
                    x as int,
                    old(self)@[x as int].update(
                        y as int,
                        col@.take(z as int) + old(self)@[x as int][y as int].skip(z as int),
                    ),
                ),
            decreases n - z,
        {
            let ghost before = self@;
            array_set(self, x, y, z, col[z]);
            let ghost cur = col@.take(z as int) + c.skip(z as int);
            let ghost next = col@.take(z as int + 1) + c.skip(z as int + 1);
            assert(next =~= cur.update(z as int, col@[z as int]));
            assert(before[x as int].update(y as int, cur.update(z as int, col@[z as int]))
                =~= old(self)@[x as int].update(y as int, next));
            assert(self@ =~= old(self)@.update(
                x as int,
                old(self)@[x as int].update(y as int, next),
            ));
            z = z + 1;
        }
        assert(col@.take(n as int) + old(self)@[x as int][y as int].skip(n as int) =~= col@);
    }
}

} // verus!
