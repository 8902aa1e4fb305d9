use cubeglobe::map::generator::{Generator, TestingGenerator};
use cubeglobe::map::{Block, IsoMap};
use cubeglobe::renderer::layout::canvas_layout;
use cubeglobe::renderer::{
    ConfigLoadError, ConfigLoadErrorKind, Renderer, RendererError, TileDef, BACKGROUND_COLOR,
};

fn def(kind: Block, x: Option<i32>, y: Option<i32>) -> TileDef {
    TileDef { kind, x, y }
}

fn full_atlas() -> Vec<Vec<TileDef>> {
    vec![
        vec![
            def(Block::Rock, None, None),
            def(Block::Grass, Some(25), Some(0)),
            def(Block::Rock, Some(50), None),
        ],
        vec![def(Block::Soil, None, Some(27)), def(Block::Water, Some(3), Some(4))],
    ]
}

#[test]
fn canvas_sizes_for_small_tiles() {
    let l = canvas_layout(24, 26, 6).unwrap();
    assert_eq!(l.top_height, 12);
    assert_eq!(l.sides_height, 14);
    assert_eq!(l.floor_height, 86);
    assert_eq!(l.width, 192);
    assert_eq!(l.height, 222);
}

#[test]
fn canvas_sizes_for_odd_tiles() {
    let l = canvas_layout(25, 13, 3).unwrap();
    assert_eq!(l.top_height, 12);
    assert_eq!(l.sides_height, 1);
    assert_eq!(l.floor_height, 37);
    assert_eq!(l.width, 125);
    assert_eq!(l.height, 66);
}

#[test]
fn canvas_refused_when_top_face_taller_than_tile() {
    assert!(canvas_layout(24, 11, 6).is_none());
}

#[test]
fn canvas_refused_when_too_large() {
    assert!(canvas_layout(4_000_000, 4_000_000, 1_000).is_none());
}

#[test]
fn atlas_groups_tiles_by_block() {
    let r = Renderer::from_tile_defs(24, 26, &full_atlas()).unwrap();
    assert_eq!(r.width, 24);
    assert_eq!(r.height, 26);
    let rock = r.tiles.get(Block::Rock);
    assert_eq!(rock.len(), 2);
    assert_eq!((rock[0].sheet, rock[0].x, rock[0].y, rock[0].width, rock[0].height), (0, 0, 0, 24, 26));
    assert_eq!((rock[1].sheet, rock[1].x, rock[1].y), (0, 50, 0));
    let soil = r.tiles.get(Block::Soil);
    assert_eq!((soil[0].sheet, soil[0].x, soil[0].y), (1, 0, 27));
    assert!(r.tiles.get(Block::Air).is_empty());
}

#[test]
fn atlas_without_grass_names_grass() {
    let files = vec![vec![
        def(Block::Rock, None, None),
        def(Block::Soil, None, None),
        def(Block::Water, None, None),
    ]];
    match Renderer::from_tile_defs(24, 26, &files) {
        Err(e) => assert_eq!(e.kind(), &ConfigLoadErrorKind::MissingBlock(Block::Grass)),
        Ok(_) => panic!("an atlas without grass was accepted"),
    }
}

#[test]
fn atlas_missing_several_names_the_first() {
    let files = vec![vec![def(Block::Air, None, None), def(Block::Water, None, None)]];
    match Renderer::from_tile_defs(24, 26, &files) {
        Err(e) => assert_eq!(e.kind(), &ConfigLoadErrorKind::MissingBlock(Block::Rock)),
        Ok(_) => panic!("an empty atlas was accepted"),
    }
    assert!(Renderer::from_tile_defs(24, 26, &vec![]).is_err());
}

#[test]
fn higher_floor_drawn_above_lower_floors() {
    let map = TestingGenerator { dim: 1 }.generate();
    let r = Renderer::from_tile_defs(24, 26, &full_atlas()).unwrap();
    let plan = r.render_plan(&map).unwrap();
    assert_eq!((plan.width, plan.height), (192, 222));
    // three full floors of 36 blocks, then the 2 by 2 square
    assert_eq!(plan.draws.len(), 3 * 36 + 4);
    for z in 0..3 {
        for (x, y) in [(2usize, 2usize), (2, 3), (3, 2), (3, 3)] {
            let low = &plan.draws[z * 36 + x * 6 + y];
            let high = &plan.draws[108 + (x - 2) * 2 + (y - 2)];
            assert_eq!(high.x, low.x);
            assert!(high.y < low.y);
        }
    }
    let bottom = &plan.draws[2 * 6 + 2];
    assert_eq!((bottom.x, bottom.y), (84, 134));
    let top = &plan.draws[108];
    assert_eq!((top.x, top.y), (84, 92));
}

#[test]
fn drawn_tiles_come_from_the_block_list() {
    let map = TestingGenerator { dim: 1 }.generate();
    let r = Renderer::from_tile_defs(24, 26, &full_atlas()).unwrap();
    let plan = r.render_plan(&map).unwrap();
    for d in &plan.draws {
        assert!(r.tiles.get(Block::Rock).contains(&d.tile));
    }
}

#[test]
fn air_is_never_drawn() {
    let r = Renderer::from_tile_defs(24, 26, &full_atlas()).unwrap();
    let plan = r.render_plan(&IsoMap::new_empty(4)).unwrap();
    assert!(plan.draws.is_empty());
    assert_eq!((plan.width, plan.height), (144, 170));

    let mut map = IsoMap::new_empty(2);
    map.set_column(1, 0, &vec![Block::Air, Block::Water]);
    let plan = r.render_plan(&map).unwrap();
    assert_eq!(plan.draws.len(), 1);
    assert_eq!(plan.draws[0].tile, r.tiles.get(Block::Water)[0]);
    // origin (36, 54), floor 1 raised by 14, offset (12, 6)
    assert_eq!((plan.draws[0].x, plan.draws[0].y), (48, 46));
}

#[test]
fn render_fails_on_oversized_canvas() {
    let r = Renderer::from_tile_defs(2_000_000_000, 2_000_000_000, &full_atlas()).unwrap();
    let e = r.render_plan(&IsoMap::new_empty(2)).err().unwrap();
    assert_eq!(e.sdl_err(), "canvas size out of range");
}

#[test]
fn errors_carry_their_messages() {
    let kind = ConfigLoadErrorKind::from_sdl_string_err("no such file".to_string());
    assert_eq!(kind, ConfigLoadErrorKind::SDLError("no such file".to_string()));
    let e = ConfigLoadError::from(kind.clone());
    assert_eq!(e.kind(), &kind);
    let r = RendererError::from("blit failed".to_string());
    assert_eq!(r.sdl_err(), "blit failed");
    assert_eq!(BACKGROUND_COLOR, (154, 216, 224));
}
