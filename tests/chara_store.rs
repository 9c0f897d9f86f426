use rusted_ruins::chara::{
    Chara, CharaAttrRevision, CharaBaseAttr, CharaHolder, CharaId, CharaKind, CharaTable, Relationship,
    SiteId,
};
use rusted_ruins::map::MapId;

fn mid(floor: u32) -> MapId {
    MapId { sid: SiteId::AutoGenDungeon { n: 1 }, floor }
}

fn named(name: &str, hp: i32) -> Chara {
    let mut c = Chara::default();
    c.name = Some(name.to_string());
    c.hp = hp;
    c
}

#[test]
fn revise_adds_each_field() {
    let base = CharaBaseAttr { base_hp: 100, str: 10, vit: 11, dex: 12, int: 13, wil: 14, cha: 15, spd: 16 };
    let rev = CharaAttrRevision { hp: -20, str: 1, vit: -2, dex: 3, int: -4, wil: 5, cha: -6, spd: 7 };
    let r = base.revise(rev);
    assert_eq!(r.base_hp, 80);
    assert_eq!(r.str, 11);
    assert_eq!(r.vit, 9);
    assert_eq!(r.dex, 15);
    assert_eq!(r.int, 9);
    assert_eq!(r.wil, 19);
    assert_eq!(r.cha, 9);
    assert_eq!(r.spd, 23);
}

#[test]
fn chara_default_values() {
    let c = Chara::default();
    assert!(c.name.is_none());
    assert_eq!(c.hp, 100);
    assert_eq!(c.level, 0);
    assert_eq!(c.rel, Relationship::NEUTRAL);
    assert!(c.trigger_talk.is_none());
}

#[test]
fn chara_id_kind() {
    assert_eq!(CharaId::Player.kind(), CharaKind::Player);
    assert_eq!(CharaId::OnSite { sid: SiteId::Start, n: 0 }.kind(), CharaKind::OnSite);
    assert_eq!(CharaId::OnMap { mid: mid(0), n: 0 }.kind(), CharaKind::OnMap);
}

#[test]
fn table_insert_get_remove() {
    let mut t = CharaTable::new();
    let a = CharaId::OnMap { mid: mid(1), n: 0 };
    let b = CharaId::OnMap { mid: mid(1), n: 1 };
    assert!(!t.contains(a));
    t.insert(a, named("a", 10));
    t.insert(b, named("b", 20));
    assert_eq!(t.get(a).unwrap().hp, 10);
    assert_eq!(t.get(b).unwrap().hp, 20);
    t.insert(a, named("a2", 11));
    assert_eq!(t.get(a).unwrap().hp, 11);
    assert_eq!(t.get(a).unwrap().name.as_deref(), Some("a2"));
    t.get_mut(b).hp = 25;
    assert_eq!(t.get(b).unwrap().hp, 25);
    let removed = t.remove(a).unwrap();
    assert_eq!(removed.hp, 11);
    assert!(t.get(a).is_none());
    assert!(t.remove(a).is_none());
    assert!(t.contains(b));
    assert!(t.only_on_map());
    t.insert(CharaId::Player, Chara::default());
    assert!(!t.only_on_map());
}

#[test]
fn holder_routes_by_variant() {
    let mut h = CharaHolder::new();
    let p = CharaId::Player;
    let s = CharaId::OnSite { sid: SiteId::Town { n: 2 }, n: 3 };
    let m = CharaId::OnMap { mid: mid(2), n: 0 };
    h.add(p, named("player", 50));
    h.add(s, named("citizen", 30));
    h.add(m, named("monster", 5));
    assert_eq!(h.get(p).hp, 50);
    assert_eq!(h.get(s).hp, 30);
    assert_eq!(h.get(m).hp, 5);
    h.get_mut(m).hp = 4;
    assert_eq!(h.get(m).hp, 4);
    h.remove_chara(s);
    assert_eq!(h.get(p).hp, 50);
    // the on-map partition held only the monster
    let old = h.replace_on_map_chara(CharaTable::new());
    assert_eq!(old.get(m).unwrap().hp, 4);
    assert!(old.get(p).is_none());
}

#[test]
fn partition_swap_returns_previous_contents() {
    let mut h = CharaHolder::new();
    let m0 = CharaId::OnMap { mid: mid(3), n: 0 };
    let m1 = CharaId::OnMap { mid: mid(3), n: 1 };
    let n0 = CharaId::OnMap { mid: mid(4), n: 0 };
    h.add(m0, named("m0", 1));
    h.add(m1, named("m1", 2));
    h.add(CharaId::Player, named("player", 99));
    let mut next = CharaTable::new();
    next.insert(n0, named("n0", 7));
    let old = h.replace_on_map_chara(next);
    assert_eq!(old.get(m0).unwrap().hp, 1);
    assert_eq!(old.get(m0).unwrap().name.as_deref(), Some("m0"));
    assert_eq!(old.get(m1).unwrap().hp, 2);
    assert!(old.get(n0).is_none());
    assert!(old.get(CharaId::Player).is_none());
    assert_eq!(h.get(n0).hp, 7);
    assert_eq!(h.get(CharaId::Player).hp, 99);
}
