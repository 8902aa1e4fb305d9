use cubeglobe::map::generator::{
    draw_levels, fill_strata, generate_strata, rock_column_slices, rock_columns, Generator,
    TestingGenerator,
};
use cubeglobe::map::{Block, IsoMap};
use ndarray::{arr2, arr3, Axis};

#[test]
fn peg_to_six() {
    let map = TestingGenerator { dim: 1 }.generate();

    assert_eq!(map.0.shape(), &[6, 6, 6])
}

#[test]
fn gen_map() {
    let map = TestingGenerator { dim: 1 }.generate();

    let r = Block::Rock;
    let a = Block::Air;
    // Check that the plane at the halfway point is all filled
    assert_eq!(
        map.0.index_axis(Axis(2), 2),
        arr2(&[
            [r, r, r, r, r, r],
            [r, r, r, r, r, r],
            [r, r, r, r, r, r],
            [r, r, r, r, r, r],
            [r, r, r, r, r, r],
            [r, r, r, r, r, r]
        ])
    );

    // Check that the plane immediately above the halfway point is there
    assert_eq!(
        map.0.index_axis(Axis(2), 3),
        arr2(&[
            [a, a, a, a, a, a],
            [a, a, a, a, a, a],
            [a, a, r, r, a, a],
            [a, a, r, r, a, a],
            [a, a, a, a, a, a],
            [a, a, a, a, a, a]
        ])
    );
}

#[test]
fn all_air() {
    let iso_map = IsoMap::new_empty(2);

    assert_eq!(
        iso_map.0,
        arr3(&[
            [[Block::Air, Block::Air], [Block::Air, Block::Air]],
            [[Block::Air, Block::Air], [Block::Air, Block::Air]]
        ])
    )
}

#[test]
fn return_len() {
    let iso_map = IsoMap::new_empty(50);

    assert_eq!(iso_map.len(), 50)
}

#[test]
fn default_block_is_air() {
    assert_eq!(Block::default(), Block::Air);
}

#[test]
fn testing_generator_keeps_larger_dim() {
    let gen = TestingGenerator { dim: 8 };
    assert_eq!(gen.edge_len(), 8);
    let map = gen.generate();
    assert_eq!(map.len(), 8);
    assert_eq!(map.get(0, 0, 3), Block::Rock);
    assert_eq!(map.get(0, 0, 4), Block::Air);
    assert_eq!(map.get(2, 2, 4), Block::Rock);
    assert_eq!(map.get(5, 5, 4), Block::Rock);
    assert_eq!(map.get(6, 5, 4), Block::Air);
    assert_eq!(map.get(3, 3, 5), Block::Air);
}

#[test]
fn set_column_overwrites_one_column() {
    let mut map = IsoMap::new_empty(3);
    map.set_column(1, 2, &vec![Block::Rock, Block::Soil, Block::Grass]);
    assert_eq!(map.get(1, 2, 0), Block::Rock);
    assert_eq!(map.get(1, 2, 1), Block::Soil);
    assert_eq!(map.get(1, 2, 2), Block::Grass);
    assert_eq!(map.get(2, 1, 0), Block::Air);
    assert_eq!(map.get(1, 1, 2), Block::Air);
}

fn field(rows: &[&[usize]]) -> Vec<Vec<usize>> {
    rows.iter().map(|r| r.to_vec()).collect()
}

fn column(map: &IsoMap, x: usize, y: usize) -> Vec<Block> {
    (0..map.len()).map(|z| map.get(x, y, z)).collect()
}

#[test]
fn rock_columns_fill_up_to_height() {
    let heights = field(&[&[0, 1, 2], &[3, 2, 1], &[1, 1, 0]]);
    let map = rock_columns(&heights);
    assert_eq!(map.0.shape(), &[3, 3, 3]);
    let r = Block::Rock;
    let a = Block::Air;
    assert_eq!(column(&map, 0, 0), vec![a, a, a]);
    assert_eq!(column(&map, 0, 1), vec![r, a, a]);
    assert_eq!(column(&map, 0, 2), vec![r, r, a]);
    assert_eq!(column(&map, 1, 0), vec![r, r, r]);
    assert_eq!(column(&map, 2, 2), vec![a, a, a]);
}

#[test]
fn rock_columns_are_contiguous() {
    let heights = field(&[&[4, 0, 2, 1], &[3, 3, 1, 0], &[2, 4, 4, 1], &[0, 1, 2, 3]]);
    let map = rock_columns(&heights);
    for x in 0..4 {
        for y in 0..4 {
            let col = column(&map, x, y);
            let filled = col.iter().take_while(|b| **b == Block::Rock).count();
            assert_eq!(filled, heights[x][y]);
            assert!(col[filled..].iter().all(|b| *b == Block::Air));
        }
    }
}

#[test]
fn rock_column_slices_snapshot_each_slice() {
    let heights = field(&[&[1, 2], &[2, 1]]);
    let maps = rock_column_slices(&heights);
    assert_eq!(maps.len(), 2);
    assert_eq!(column(&maps[0], 0, 1), vec![Block::Rock, Block::Rock]);
    assert_eq!(column(&maps[0], 1, 0), vec![Block::Air, Block::Air]);
    assert_eq!(column(&maps[1], 1, 0), vec![Block::Rock, Block::Rock]);
    assert_eq!(column(&maps[1], 1, 1), vec![Block::Rock, Block::Air]);
    assert_eq!(maps[1].0, rock_columns(&heights).0);
}

#[test]
fn generated_maps_have_requested_shape() {
    for len in 1..5usize {
        let heights = vec![vec![len / 2; len]; len];
        let depths = vec![vec![1; len]; len];
        assert_eq!(rock_columns(&heights).0.shape(), &[len, len, len]);
        assert_eq!(fill_strata(&heights, &depths, 0, 0).0.shape(), &[len, len, len]);
        assert_eq!(generate_strata(&heights, &depths, 0, 0).0.shape(), &[len, len, len]);
    }
}

const R: Block = Block::Rock;
const A: Block = Block::Air;
const S: Block = Block::Soil;
const G: Block = Block::Grass;
const W: Block = Block::Water;

#[test]
fn strata_lowland_column_is_rock_then_water() {
    // height 3 under water level 6: rock below 2, water from 2 up to 5
    let heights = vec![vec![3; 8]; 8];
    let depths = vec![vec![2; 8]; 8];
    let map = fill_strata(&heights, &depths, 6, 7);
    assert_eq!(column(&map, 4, 4), vec![R, R, W, W, W, A, A, A]);
}

#[test]
fn strata_lowland_column_of_height_zero_is_water_from_bottom() {
    let heights = vec![vec![0; 6]; 6];
    let depths = vec![vec![2; 6]; 6];
    let map = fill_strata(&heights, &depths, 3, 5);
    assert_eq!(column(&map, 0, 0), vec![W, W, A, A, A, A]);
}

#[test]
fn strata_soil_column_is_capped_by_grass() {
    let heights = vec![vec![5; 8]; 8];
    let depths = vec![vec![3; 8]; 8];
    let map = fill_strata(&heights, &depths, 2, 7);
    assert_eq!(column(&map, 1, 6), vec![R, R, S, S, G, A, A, A]);
}

#[test]
fn strata_soil_column_deeper_than_height() {
    let heights = vec![vec![2; 4]; 4];
    let depths = vec![vec![9; 4]; 4];
    let map = fill_strata(&heights, &depths, 0, 3);
    assert_eq!(column(&map, 3, 3), vec![S, G, A, A]);
}

#[test]
fn strata_soil_column_without_soil_is_bare_rock() {
    let heights = vec![vec![3; 5]; 5];
    let depths = vec![vec![0; 5]; 5];
    let map = fill_strata(&heights, &depths, 1, 4);
    assert_eq!(column(&map, 2, 2), vec![R, R, R, A, A]);
}

#[test]
fn strata_boundaries_use_strict_comparisons() {
    // height equal to the water level is not lowland; equal to the soil
    // cutoff is bare rock
    let heights = field(&[&[4, 6], &[4, 6]]);
    let heights = {
        let mut h = vec![vec![0; 8]; 8];
        h[0][0] = heights[0][0];
        h[0][1] = heights[0][1];
        h
    };
    let depths = vec![vec![2; 8]; 8];
    let map = fill_strata(&heights, &depths, 4, 6);
    assert_eq!(column(&map, 0, 0), vec![R, R, S, G, A, A, A, A]);
    assert_eq!(column(&map, 0, 1), vec![R, R, R, R, R, R, A, A]);
    assert_eq!(column(&map, 1, 1), vec![W, W, W, A, A, A, A, A]);
}

#[test]
fn strata_same_inputs_give_same_map() {
    let heights = field(&[&[0, 2, 4], &[1, 3, 2], &[3, 3, 0]]);
    let depths = field(&[&[1, 2, 0], &[3, 1, 2], &[0, 0, 1]]);
    let a = fill_strata(&heights, &depths, 2, 3);
    let b = fill_strata(&heights, &depths, 2, 3);
    assert_eq!(a.0, b.0);
}

#[test]
fn drawn_levels_stay_in_range() {
    for _ in 0..200 {
        let (water, soil) = draw_levels(4, 5, 8);
        assert!(water <= 4);
        assert!((5..8).contains(&soil));
    }
    let (water, soil) = draw_levels(0, 6, 7);
    assert_eq!((water, soil), (0, 6));
}

#[test]
fn generated_strata_use_one_of_the_drawn_levels() {
    let heights = vec![vec![1; 4]; 4];
    let depths = vec![vec![1; 4]; 4];
    // soil cutoff can only be 3 and the water level only 0: every column is
    // soil-capable, one block of grass
    let map = generate_strata(&heights, &depths, 0, 3);
    assert_eq!(column(&map, 2, 1), vec![G, A, A, A]);
}
