use rusted_ruins::builder::{
    generated_map_to_map, wall_piece_pattern, FloorGenParams, GenAlgorithm, GeneratedMap, MapBuilder,
    MapGenKind, TileKind,
};
use rusted_ruins::geom::Vec2d;
use rusted_ruins::map::{SpecialTileKind, StairsKind, TileIdx, WallIdx, WallIdxPP, FLOOR_OUTSIDE};

fn open_map(w: u32, h: u32, entrance: Vec2d, exit: Option<Vec2d>) -> GeneratedMap {
    GeneratedMap::new(w, h, vec![TileKind::Floor; (w * h) as usize], entrance, exit).unwrap()
}

#[test]
fn generated_map_validation() {
    assert!(GeneratedMap::new(2, 2, vec![TileKind::Floor; 3], Vec2d(0, 0), None).is_none());
    assert!(GeneratedMap::new(2, 2, vec![TileKind::Floor; 4], Vec2d(2, 0), None).is_none());
    assert!(GeneratedMap::new(2, 2, vec![TileKind::Floor; 4], Vec2d(0, 0), Some(Vec2d(0, -1))).is_none());
    let gm = GeneratedMap::new(2, 2, vec![TileKind::Floor; 4], Vec2d(0, 0), Some(Vec2d(1, 1))).unwrap();
    assert_eq!(gm.w(), 2);
    assert_eq!(gm.h(), 2);
}

#[test]
fn enclosed_wall_has_full_pattern() {
    let gm = GeneratedMap::new(5, 5, vec![TileKind::Wall; 25], Vec2d(0, 0), None).unwrap();
    assert_eq!(wall_piece_pattern(&gm, Vec2d(2, 2)), 0xff);
    // map edges count as walls
    assert_eq!(wall_piece_pattern(&gm, Vec2d(0, 0)), 0xff);
    assert_eq!(wall_piece_pattern(&gm, Vec2d(4, 2)), 0xff);
}

#[test]
fn isolated_wall_has_empty_pattern() {
    let mut cells = vec![TileKind::Floor; 9];
    cells[4] = TileKind::Wall;
    let gm = GeneratedMap::new(3, 3, cells, Vec2d(0, 0), None).unwrap();
    assert_eq!(wall_piece_pattern(&gm, Vec2d(1, 1)), 0);
    let m = generated_map_to_map(gm, TileIdx(3), WallIdx(9), 1, true);
    assert_eq!(m.tile(Vec2d(1, 1)).wall, Some(WallIdxPP { idx: WallIdx(9), piece_pattern: 0 }));
    assert_eq!(m.tile(Vec2d(0, 1)).wall, None);
    assert_eq!(m.tile(Vec2d(0, 1)).tile, TileIdx(3));
}

#[test]
fn pattern_bits_by_direction() {
    // walls above and to the right of the centre
    let (f, w) = (TileKind::Floor, TileKind::Wall);
    let cells = vec![f, w, f, f, w, w, f, f, f];
    let gm = GeneratedMap::new(3, 3, cells, Vec2d(0, 0), None).unwrap();
    assert_eq!(wall_piece_pattern(&gm, Vec2d(1, 1)), 1 + 4);
    // the wall on the right edge sees the edge up-right, right and
    // down-right, the wall to its left and the wall up-left
    assert_eq!(wall_piece_pattern(&gm, Vec2d(2, 1)), 2 | 4 | 8 | 64 | 128);
}

#[test]
fn stairs_link_adjacent_floors() {
    let gm = open_map(4, 4, Vec2d(0, 0), Some(Vec2d(3, 3)));
    let m = generated_map_to_map(gm, TileIdx(0), WallIdx(0), 3, false);
    assert_eq!(
        m.tile(Vec2d(0, 0)).special,
        SpecialTileKind::Stairs { dest_floor: 2, kind: StairsKind::UpStairs }
    );
    assert_eq!(
        m.tile(Vec2d(3, 3)).special,
        SpecialTileKind::Stairs { dest_floor: 4, kind: StairsKind::DownStairs }
    );
    assert_eq!(m.tile(Vec2d(1, 1)).special, SpecialTileKind::Plain);
    assert_eq!(m.entrance(), Vec2d(0, 0));
}

#[test]
fn first_floor_leads_outside() {
    let gm = open_map(3, 3, Vec2d(1, 1), Some(Vec2d(2, 2)));
    let m = generated_map_to_map(gm, TileIdx(0), WallIdx(0), 0, false);
    assert_eq!(
        m.tile(Vec2d(1, 1)).special,
        SpecialTileKind::Stairs { dest_floor: FLOOR_OUTSIDE, kind: StairsKind::UpStairs }
    );
    assert_eq!(
        m.tile(Vec2d(2, 2)).special,
        SpecialTileKind::Stairs { dest_floor: 1, kind: StairsKind::DownStairs }
    );
}

#[test]
fn deepest_floor_has_no_down_stairs() {
    let gm = open_map(3, 3, Vec2d(0, 0), Some(Vec2d(2, 2)));
    let m = MapBuilder::new(3, 3).floor(5).deepest_floor(true).build(gm);
    for y in 0..3 {
        for x in 0..3 {
            if let SpecialTileKind::Stairs { kind, .. } = m.tile(Vec2d(x, y)).special {
                assert_eq!(kind, StairsKind::UpStairs);
            }
        }
    }
    assert_eq!(
        m.tile(Vec2d(0, 0)).special,
        SpecialTileKind::Stairs { dest_floor: 4, kind: StairsKind::UpStairs }
    );
}

#[test]
fn no_exit_means_no_down_stairs() {
    let gm = open_map(2, 2, Vec2d(1, 0), None);
    let m = MapBuilder::new(2, 2).floor(2).build(gm);
    assert_eq!(m.tile(Vec2d(0, 0)).special, SpecialTileKind::Plain);
    assert_eq!(m.tile(Vec2d(1, 1)).special, SpecialTileKind::Plain);
    assert_eq!(
        m.tile(Vec2d(1, 0)).special,
        SpecialTileKind::Stairs { dest_floor: 1, kind: StairsKind::UpStairs }
    );
}

#[test]
fn builder_settings_reach_the_map() {
    let gm = GeneratedMap::new(2, 1, vec![TileKind::Wall, TileKind::Floor], Vec2d(1, 0), None).unwrap();
    let m = MapBuilder::new(2, 1).tile(TileIdx(7)).wall(WallIdx(8)).build(gm);
    assert_eq!(m.tile(Vec2d(0, 0)).tile, TileIdx(7));
    assert_eq!(m.tile(Vec2d(0, 0)).wall.unwrap().idx, WallIdx(8));
    assert_eq!(m.tile(Vec2d(0, 0)).wall.unwrap().piece_pattern, 1 | 2 | 8 | 16 | 32 | 64 | 128);
    assert_eq!(m.tile(Vec2d(1, 0)).wall, None);
}

#[test]
fn generation_request_by_profile() {
    let b = MapBuilder::new(10, 20);
    let r = b.gen_request();
    assert_eq!((r.w, r.h), (10, 20));
    assert_eq!(r.algorithm, GenAlgorithm::Flat);
    let rooms = FloorGenParams { map_size: (40, 30), map_gen_kind: MapGenKind::Rooms };
    let r = b.floor_gen_id(rooms).gen_request();
    assert_eq!((r.w, r.h), (40, 30));
    assert_eq!(r.algorithm, GenAlgorithm::Rooms { min_room: 5, max_room: 8, n_room: 7 });
    let lattice = FloorGenParams { map_size: (16, 12), map_gen_kind: MapGenKind::Lattice };
    assert_eq!(
        b.floor_gen_id(lattice).gen_request().algorithm,
        GenAlgorithm::Lattice { nx: 5, ny: 4, min_room: 3, max_room: 7, door_percent: 50 }
    );
    let fractal = FloorGenParams { map_size: (8, 8), map_gen_kind: MapGenKind::Fractal };
    assert_eq!(b.floor_gen_id(fractal).gen_request().algorithm, GenAlgorithm::Fractal);
    let flat = FloorGenParams { map_size: (8, 9), map_gen_kind: MapGenKind::Flat };
    let fb = b.floor_gen_id(flat);
    assert_eq!((fb.w, fb.h), (8, 9));
    assert_eq!(fb.gen_request().algorithm, GenAlgorithm::Flat);
}
