use rusted_ruins::builder::{generated_map_to_map, GeneratedMap, TileKind};
use rusted_ruins::chara::{CharaId, SiteId};
use rusted_ruins::geom::{Direction, HDirection, VDirection, Vec2d};
use rusted_ruins::map::{MapId, TileIdx, TileMap, WallIdx};

fn mid() -> MapId {
    MapId { sid: SiteId::AutoGenDungeon { n: 0 }, floor: 1 }
}

fn on_map(n: u32) -> CharaId {
    CharaId::OnMap { mid: mid(), n }
}

fn right() -> Direction {
    Direction::new(HDirection::Right, VDirection::Center)
}

/// A 3 by 3 map whose right column is wall.
fn walled_map() -> TileMap {
    let cells = vec![TileKind::Floor, TileKind::Floor, TileKind::Wall, TileKind::Floor, TileKind::Floor, TileKind::Wall, TileKind::Floor, TileKind::Floor, TileKind::Wall];
    let gm = GeneratedMap::new(3, 3, cells, Vec2d(0, 0), None).unwrap();
    generated_map_to_map(gm, TileIdx(1), WallIdx(2), 1, true)
}

#[test]
fn new_map_is_empty() {
    let m = TileMap::new(4, 3);
    assert_eq!(m.w(), 4);
    assert_eq!(m.h(), 3);
    assert!(m.iter_charaid().is_empty());
    assert_eq!(m.get_chara(Vec2d(3, 2)), None);
    assert_eq!(m.tile(Vec2d(1, 1)).tile, TileIdx(0));
    assert_eq!(m.player_pos(), Vec2d(0, 0));
}

#[test]
fn inside_and_movable_bounds() {
    let m = walled_map();
    assert!(m.is_inside(Vec2d(0, 0)));
    assert!(m.is_inside(Vec2d(2, 2)));
    assert!(!m.is_inside(Vec2d(-1, 0)));
    assert!(!m.is_inside(Vec2d(0, -1)));
    assert!(!m.is_inside(Vec2d(3, 0)));
    assert!(!m.is_inside(Vec2d(0, 3)));
    assert!(m.is_movable(Vec2d(1, 1)));
    assert!(!m.is_movable(Vec2d(2, 1)));
    assert!(!m.is_movable(Vec2d(-1, 1)));
}

#[test]
fn add_chara_and_locate() {
    let mut m = TileMap::new(4, 4);
    assert!(m.add_chara(Vec2d(2, 3), CharaId::Player));
    assert_eq!(m.chara_pos(CharaId::Player), Some(Vec2d(2, 3)));
    assert_eq!(m.get_chara(Vec2d(2, 3)), Some(CharaId::Player));
    assert_eq!(m.iter_charaid(), &[CharaId::Player][..]);
    // taken tile, and a second copy of a resident, are refused
    assert!(!m.add_chara(Vec2d(2, 3), on_map(0)));
    assert!(!m.add_chara(Vec2d(0, 0), CharaId::Player));
    assert_eq!(m.iter_charaid().len(), 1);
    assert_eq!(m.chara_pos(on_map(0)), None);
}

#[test]
fn occupancy_matches_residents() {
    let mut m = TileMap::new(3, 2);
    assert!(m.add_chara(Vec2d(0, 0), on_map(0)));
    assert!(m.add_chara(Vec2d(2, 1), on_map(1)));
    assert!(m.move_chara(on_map(0), Direction::new(HDirection::Right, VDirection::Down)));
    for y in 0..2 {
        for x in 0..3 {
            let p = Vec2d(x, y);
            if let Some(id) = m.get_chara(p) {
                assert!(m.iter_charaid().contains(&id));
                assert_eq!(m.chara_pos(id), Some(p));
            }
        }
    }
    for id in m.iter_charaid() {
        let p = m.chara_pos(*id).unwrap();
        assert_eq!(m.get_chara(p), Some(*id));
    }
    assert_eq!(m.chara_pos(on_map(0)), Some(Vec2d(1, 1)));
}

#[test]
fn move_onto_wall_changes_nothing() {
    let mut m = walled_map();
    assert!(m.add_chara(Vec2d(1, 1), CharaId::Player));
    let before_src = *m.tile(Vec2d(1, 1));
    let before_dst = *m.tile(Vec2d(2, 1));
    assert!(!m.move_chara(CharaId::Player, right()));
    assert_eq!(*m.tile(Vec2d(1, 1)), before_src);
    assert_eq!(*m.tile(Vec2d(2, 1)), before_dst);
    assert_eq!(m.chara_pos(CharaId::Player), Some(Vec2d(1, 1)));
}

#[test]
fn move_off_the_map_fails() {
    let mut m = TileMap::new(2, 2);
    assert!(m.add_chara(Vec2d(1, 0), CharaId::Player));
    assert!(!m.move_chara(CharaId::Player, right()));
    assert!(!m.move_chara(CharaId::Player, Direction::new(HDirection::Center, VDirection::Up)));
    assert!(!m.move_chara(on_map(5), right()));
    assert_eq!(m.chara_pos(CharaId::Player), Some(Vec2d(1, 0)));
}

#[test]
fn move_onto_open_tile() {
    let mut m = walled_map();
    assert!(m.add_chara(Vec2d(0, 1), CharaId::Player));
    assert!(m.move_chara(CharaId::Player, right()));
    assert_eq!(m.get_chara(Vec2d(0, 1)), None);
    assert_eq!(m.get_chara(Vec2d(1, 1)), Some(CharaId::Player));
    assert_eq!(m.tile(Vec2d(1, 1)).tile, TileIdx(1));
}

#[test]
fn move_onto_occupied_tile_swaps() {
    let mut m = TileMap::new(3, 1);
    assert!(m.add_chara(Vec2d(0, 0), CharaId::Player));
    assert!(m.add_chara(Vec2d(1, 0), on_map(0)));
    assert!(m.move_chara(CharaId::Player, right()));
    assert_eq!(m.get_chara(Vec2d(0, 0)), Some(on_map(0)));
    assert_eq!(m.get_chara(Vec2d(1, 0)), Some(CharaId::Player));
    assert_eq!(m.iter_charaid().len(), 2);
}

#[test]
fn freed_onmap_number_is_reused() {
    let mut m = TileMap::new(4, 4);
    assert_eq!(m.search_empty_onmap_charaid_n(), Some(0));
    for n in 0..4u32 {
        assert!(m.add_chara(Vec2d(n as i32, 0), on_map(n)));
    }
    assert_eq!(m.search_empty_onmap_charaid_n(), Some(4));
    assert!(m.remove_chara(on_map(2)));
    assert_eq!(m.get_chara(Vec2d(2, 0)), None);
    assert_eq!(m.iter_charaid(), &[on_map(0), on_map(1), on_map(3)][..]);
    assert_eq!(m.search_empty_onmap_charaid_n(), Some(2));
    assert!(!m.remove_chara(on_map(2)));
}

#[test]
fn other_identities_do_not_take_numbers() {
    let mut m = TileMap::new(2, 2);
    assert!(m.add_chara(Vec2d(0, 0), CharaId::Player));
    assert!(m.add_chara(Vec2d(1, 0), CharaId::OnSite { sid: SiteId::Start, n: 0 }));
    assert_eq!(m.search_empty_onmap_charaid_n(), Some(0));
}
