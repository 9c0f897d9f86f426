use vstd::prelude::*;
use crate::chara::{CharaId, SiteId};
use vstd::arithmetic::div_mod::{lemma_div_pos_is_pos, lemma_fundamental_div_mod};
use crate::geom::{hdir_dx, vdir_dy, Direction, Vec2d};

verus! {

/// A map is addressed by its site and its floor number.
#[derive(Clone, Copy, PartialEq, Eq, Structural, Hash, Debug)]
pub struct MapId {
    pub sid: SiteId,
    pub floor: u32,
}

/// Destination of the up-stairs of floor 0: the outside of the dungeon.
pub const FLOOR_OUTSIDE: u32 = 0xFFFF_FFFF;

/// Index of a base tile template.
#[derive(Clone, Copy, PartialEq, Eq, Structural, Hash, Debug)]
pub struct TileIdx(pub u32);

/// Index of a wall template.
#[derive(Clone, Copy, PartialEq, Eq, Structural, Hash, Debug)]
pub struct WallIdx(pub u32);

/// A wall template with the raw 8-bit mask of neighbouring walls (see
/// `piece_pattern` in the builder); the piece of the template that is drawn
/// is picked from this mask when the map is rendered.
#[derive(Clone, Copy, PartialEq, Eq, Structural, Hash, Debug)]
pub struct WallIdxPP {
    pub idx: WallIdx,
    pub piece_pattern: u8,
}

#[derive(Clone, Copy, PartialEq, Eq, Structural, Hash, Debug)]
pub enum StairsKind {
    UpStairs,
    DownStairs,
}

/// A special object on a tile.
#[derive(Clone, Copy, PartialEq, Eq, Structural, Hash, Debug)]
pub enum SpecialTileKind {
    Plain,
    Stairs { dest_floor: u32, kind: StairsKind },
}

#[derive(Clone, Copy, PartialEq, Eq, Structural, Debug)]
pub struct TileInfo {
    /// Base tile type
    pub tile: TileIdx,
    /// A tile that holds a wall cannot be walked on
    pub wall: Option<WallIdxPP>,
    /// The character standing on this tile
    pub chara: Option<CharaId>,
    pub special: SpecialTileKind,
}

pub open spec fn default_tile() -> TileInfo {
    TileInfo { tile: TileIdx(0), wall: None, chara: None, special: SpecialTileKind::Plain }
}

pub open spec fn with_chara(t: TileInfo, c: Option<CharaId>) -> TileInfo {
    TileInfo { tile: t.tile, wall: t.wall, chara: c, special: t.special }
}

impl Default for TileInfo {
    fn default() -> (r: TileInfo)
        ensures
            r == default_tile(),
    {
        TileInfo { tile: TileIdx(0), wall: None, chara: None, special: SpecialTileKind::Plain }
    }
}

/// The number of an on-map identity.
pub open spec fn onmap_n(id: CharaId) -> Option<u32> {
    match id {
        CharaId::OnMap { n, .. } => Some(n),
        _ => None,
    }
}

/// Whether some on-map identity among `ids` carries number `n`.
pub open spec fn onmap_n_used(ids: Seq<CharaId>, n: u32) -> bool {
    exists|i: int| 0 <= i < ids.len() && #[trigger] onmap_n(ids[i]) == Some(n)
}

/// The position one step from `p` in direction `d`.
pub open spec fn moved(p: Vec2d, d: Direction) -> Vec2d {
    Vec2d((p.0 + hdir_dx(d.hdir)) as i32, (p.1 + vdir_dy(d.vdir)) as i32)
}

pub proof fn lemma_grid_index_bound(w: int, h: int, x: int, y: int)
    requires
        0 <= x < w,
        0 <= y < h,
    ensures
        0 <= y * w + x < w * h,
{
    assert(0 <= y * w) by (nonlinear_arith)
        requires
            0 <= y,
            0 <= w,
    ;
    assert(y * w + x < w * h) by (nonlinear_arith)
        requires
            0 <= x < w,
            0 <= y < h,
    ;
}

pub proof fn lemma_grid_index_injective(w: int, x1: int, y1: int, x2: int, y2: int)
    requires
        0 <= x1 < w,
        0 <= x2 < w,
        0 <= y1,
        0 <= y2,
        y1 * w + x1 == y2 * w + x2,
    ensures
        x1 == x2,
        y1 == y2,
{
    if y1 < y2 {
        assert(y1 * w + w <= y2 * w) by (nonlinear_arith)
            requires
                y1 < y2,
                0 <= w,
        ;
    } else if y2 < y1 {
        assert(y2 * w + w <= y1 * w) by (nonlinear_arith)
            requires
                y2 < y1,
                0 <= w,
        ;
    }
}

pub proof fn lemma_grid_position(w: int, h: int, i: int)
    requires
        0 <= i < w * h,
        0 <= w <= i32::MAX,
        0 <= h <= i32::MAX,
    ensures
        0 <= i % w < w,
        0 <= i / w < h,
        (i / w) * w + i % w == i,
{
    if w == 0 {
        assert(w * h == 0);
    }
    lemma_fundamental_div_mod(i, w);
    lemma_div_pos_is_pos(i, w);
    assert(0 <= i % w < w) by (nonlinear_arith)
        requires
            w > 0,
            0 <= i,
    ;
    assert((i / w) * w == w * (i / w)) by (nonlinear_arith);
    assert(i / w < h) by (nonlinear_arith)
        requires
            i == w * (i / w) + (i % w),
            0 <= i % w,
            i < w * h,
            w > 0,
    ;
}

/// One floor or area: a grid of tiles and the characters that live on it.
#[derive(Clone, Debug)]
pub struct TileMap {
    w: u32,
    h: u32,
    tile: Vec<TileInfo>,
    player_pos: Vec2d,
    entrance: Vec2d,
    /// Characters on this map
    charaid: Vec<CharaId>,
}

impl TileMap {
    pub closed spec fn width(&self) -> int {
        self.w as int
    }

    pub closed spec fn height(&self) -> int {
        self.h as int
    }

    /// The tiles in row-major order.
    pub closed spec fn tiles(&self) -> Seq<TileInfo> {
        self.tile@
    }

    /// The identities resident on this map, in order of arrival.
    pub closed spec fn residents(&self) -> Seq<CharaId> {
        self.charaid@
    }

    /// Where the player starts on this map.
    pub closed spec fn start_pos(&self) -> Vec2d {
        self.player_pos
    }

    /// Where the up-stairs lead in.
    pub closed spec fn entrance_pos(&self) -> Vec2d {
        self.entrance
    }

    pub open spec fn inside(&self, p: Vec2d) -> bool {
        0 <= p.0 < self.width() && 0 <= p.1 < self.height()
    }

    pub open spec fn index(&self, p: Vec2d) -> int {
        p.1 * self.width() + p.0
    }

    pub open spec fn tile_at(&self, p: Vec2d) -> TileInfo {
        self.tiles()[self.index(p)]
    }

    pub open spec fn movable(&self, p: Vec2d) -> bool {
        self.inside(p) && self.tile_at(p).wall is None
    }

    /// Where `id` stands, if on any tile.
    pub open spec fn locate(&self, id: CharaId) -> Option<Vec2d> {
        if exists|p: Vec2d| self.inside(p) && #[trigger] self.tile_at(p).chara == Some(id) {
            Some(choose|p: Vec2d| self.inside(p) && #[trigger] self.tile_at(p).chara == Some(id))
        } else {
            None
        }
    }

    /// The grid matches the size, and tile occupants and residents
    /// correspond one to one.
    pub open spec fn wf(&self) -> bool {
        &&& self.tiles().len() == self.width() * self.height()
        &&& self.width() <= i32::MAX
        &&& self.height() <= i32::MAX
        &&& self.residents().no_duplicates()
        &&& forall|i: int|
            0 <= i < self.tiles().len() && (#[trigger] self.tiles()[i]).chara is Some
                ==> self.residents().contains(self.tiles()[i].chara->0)
        &&& forall|i: int, j: int|
            0 <= i < self.tiles().len() && 0 <= j < self.tiles().len() && (
            #[trigger] self.tiles()[i]).chara is Some && self.tiles()[i].chara == (
            #[trigger] self.tiles()[j]).chara ==> i == j
        &&& forall|id: CharaId|
            #[trigger] self.residents().contains(id) ==> exists|i: int|
                0 <= i < self.tiles().len() && (#[trigger] self.tiles()[i]).chara == Some(id)
    }

    /// The same size, residents and marked positions.
    pub open spec fn same_frame(&self, other: &TileMap) -> bool {
        &&& self.width() == other.width()
        &&& self.height() == other.height()
        &&& self.residents() == other.residents()
        &&& self.start_pos() == other.start_pos()
        &&& self.entrance_pos() == other.entrance_pos()
    }

    pub proof fn lemma_tile_index(&self, p: Vec2d)
        requires
            self.wf(),
            self.inside(p),
        ensures
            0 <= self.index(p) < self.tiles().len(),
    {
        lemma_grid_index_bound(self.width(), self.height(), p.0 as int, p.1 as int);
    }

    /// Every tile index belongs to a position on the grid.
    pub proof fn lemma_index_position(&self, i: int) -> (p: Vec2d)
        requires
            self.wf(),
            0 <= i < self.tiles().len(),
        ensures
            self.inside(p),
            self.index(p) == i,
    {
        lemma_grid_position(self.width(), self.height(), i);
        Vec2d((i % self.width()) as i32, (i / self.width()) as i32)
    }

    pub proof fn lemma_locate_unique(&self, p: Vec2d, id: CharaId)
        requires
            self.wf(),
            self.inside(p),
            self.tile_at(p).chara == Some(id),
        ensures
            self.locate(id) == Some(p),
    {
        assert(self.inside(p) && self.tile_at(p).chara == Some(id));
        let q = choose|q: Vec2d| self.inside(q) && #[trigger] self.tile_at(q).chara == Some(id);
        self.lemma_tile_index(p);
        self.lemma_tile_index(q);
        assert(self.tiles()[self.index(p)].chara == self.tiles()[self.index(q)].chara);
        lemma_grid_index_injective(self.width(), p.0 as int, p.1 as int, q.0 as int, q.1 as int);
    }

    /// A tile holds `id` exactly when `id` is a resident of the map and
    /// locating `id` gives that tile's position.
    pub proof fn lemma_occupancy_symmetry(&self, p: Vec2d, id: CharaId)
        requires
            self.wf(),
            self.inside(p),
        ensures
            (self.tile_at(p).chara == Some(id)) == (self.residents().contains(id) && self.locate(
                id,
            ) == Some(p)),
    {
        self.lemma_tile_index(p);
        if self.tile_at(p).chara == Some(id) {
            self.lemma_locate_unique(p, id);
            assert(self.tiles()[self.index(p)].chara is Some);
        }
    }
}

impl TileMap {
    /// A map of `w` by `h` default tiles with nobody on it.
    pub fn new(w: u32, h: u32) -> (r: TileMap)
        requires
            w <= i32::MAX,
            h <= i32::MAX,
            w * h <= usize::MAX,
        ensures
            r.wf(),
            r.width() == w,
            r.height() == h,
            r.residents().len() == 0,
            r.start_pos() == Vec2d(0, 0),
            r.entrance_pos() == Vec2d(0, 0),
            forall|p: Vec2d| r.inside(p) ==> #[trigger] r.tile_at(p) == default_tile(),
    {
        let n: usize = (w as usize) * (h as usize);
        let mut tile: Vec<TileInfo> = Vec::new();
        let mut i: usize = 0;
        while i < n
            invariant
                i <= n,
                tile@.len() == i,
                forall|j: int| 0 <= j < i ==> #[trigger] tile@[j] == default_tile(),
            decreases n - i,
        {
            tile.push(TileInfo::default());
            i = i + 1;
        }
        let r = TileMap {
            w,
            h,
            tile,
            player_pos: Vec2d(0, 0),
            entrance: Vec2d(0, 0),
            charaid: Vec::new(),
        };
        assert forall|p: Vec2d| r.inside(p) implies #[trigger] r.tile_at(p) == default_tile() by {
            lemma_grid_index_bound(w as int, h as int, p.0 as int, p.1 as int);
        }
        r
    }

    pub fn w(&self) -> (r: u32)
        ensures
            r == self.width(),
    {
        self.w
    }

    pub fn h(&self) -> (r: u32)
        ensures
            r == self.height(),
    {
        self.h
    }

    pub fn player_pos(&self) -> (r: Vec2d)
        ensures
            r == self.start_pos(),
    {
        self.player_pos
    }

    pub fn entrance(&self) -> (r: Vec2d)
        ensures
            r == self.entrance_pos(),
    {
        self.entrance
    }

    fn index_of(&self, pos: Vec2d) -> (r: usize)
        requires
            self.wf(),
            self.inside(pos),
        ensures
            r == self.index(pos),
            r < self.tiles().len(),
    {
        let len = self.tile.len();
        proof {
            self.lemma_tile_index(pos);
            assert(0 <= (pos.1 as int) * (self.w as int)) by (nonlinear_arith)
                requires
                    0 <= pos.1,
            ;
        }
        (pos.1 as usize) * (self.w as usize) + (pos.0 as usize)
    }

    /// The tile at `pos`.
    pub fn tile(&self, pos: Vec2d) -> (r: &TileInfo)
        requires
            self.wf(),
            self.inside(pos),
        ensures
            *r == self.tile_at(pos),
    {
        let i = self.index_of(pos);
        &self.tile[i]
    }

    /// The character standing at `pos`, if any.
    pub fn get_chara(&self, pos: Vec2d) -> (r: Option<CharaId>)
        requires
            self.wf(),
            self.inside(pos),
        ensures
            r == self.tile_at(pos).chara,
    {
        let i = self.index_of(pos);
        self.tile[i].chara
    }

    /// The residents of this map, in order of arrival.
    pub fn iter_charaid(&self) -> (r: &[CharaId])
        ensures
            r@ == self.residents(),
    {
        self.charaid.as_slice()
    }

    /// Whether `pos` lies on the grid.
    pub fn is_inside(&self, pos: Vec2d) -> (r: bool)
        ensures
            r == self.inside(pos),
    {
        pos.0 >= 0 && pos.1 >= 0 && (pos.0 as u32) < self.w && (pos.1 as u32) < self.h
    }

    /// Whether a character may step onto `pos`: it lies on the grid and
    /// holds no wall. An occupant does not block at this level.
    pub fn is_movable(&self, pos: Vec2d) -> (r: bool)
        requires
            self.wf(),
        ensures
            r == self.movable(pos),
    {
        if !self.is_inside(pos) {
            return false;
        }
        let i = self.index_of(pos);
        self.tile[i].wall.is_none()
    }

    fn is_resident(&self, id: CharaId) -> (r: bool)
        ensures
            r == self.residents().contains(id),
    {
        let mut i: usize = 0;
        while i < self.charaid.len()
            invariant
                i <= self.charaid@.len(),
                forall|j: int| 0 <= j < i ==> self.charaid@[j] != id,
            decreases self.charaid@.len() - i,
        {
            if self.charaid[i] == id {
                return true;
            }
            i = i + 1;
        }
        false
    }

    /// Puts a new resident on the free tile `pos`. Nothing changes, and the
    /// result is false, where `pos` is taken or `id` already lives here.
    pub fn add_chara(&mut self, pos: Vec2d, id: CharaId) -> (r: bool)
        requires
            old(self).wf(),
            old(self).inside(pos),
        ensures
            final(self).wf(),
            r == (old(self).tile_at(pos).chara is None && !old(self).residents().contains(id)),
            !r ==> *final(self) == *old(self),
            r ==> final(self).residents() == old(self).residents().push(id),
            r ==> final(self).tile_at(pos) == with_chara(old(self).tile_at(pos), Some(id)),
            r ==> forall|q: Vec2d|
                final(self).inside(q) && q != pos ==> #[trigger] final(self).tile_at(q)
                    == old(self).tile_at(q),
            final(self).width() == old(self).width(),
            final(self).height() == old(self).height(),
            final(self).start_pos() == old(self).start_pos(),
            final(self).entrance_pos() == old(self).entrance_pos(),
    {
        let i = self.index_of(pos);
        if self.tile[i].chara.is_some() || self.is_resident(id) {
            return false;
        }
        let t = self.tile[i];
        let ghost old_map = *self;
        self.charaid.push(id);
        self.tile.set(i, TileInfo { tile: t.tile, wall: t.wall, chara: Some(id), special: t.special });
        proof {
            let n = self.tiles().len();
            assert(self.residents() == old_map.residents().push(id));
            assert forall|j: int|
                0 <= j < n && (#[trigger] self.tiles()[j]).chara is Some implies self.residents().contains(
                self.tiles()[j].chara->0) by {
                if j != i {
                    assert(old_map.tiles()[j] == self.tiles()[j]);
                    assert(old_map.residents().contains(self.tiles()[j].chara->0));
                    let k = choose|k: int| 0 <= k < old_map.residents().len() && old_map.residents()[k] == self.tiles()[j].chara->0;
                    assert(self.residents()[k] == self.tiles()[j].chara->0);
                } else {
                    assert(self.residents()[old_map.residents().len() as int] == id);
                }
            }
            assert forall|a: int, b: int|
                0 <= a < n && 0 <= b < n && (#[trigger] self.tiles()[a]).chara is Some
                    && self.tiles()[a].chara == (#[trigger] self.tiles()[b]).chara implies a == b by {
                if a != i && b != i {
                    assert(old_map.tiles()[a] == self.tiles()[a]);
                    assert(old_map.tiles()[b] == self.tiles()[b]);
                } else if a != i {
                    assert(old_map.tiles()[a] == self.tiles()[a]);
                    assert(old_map.residents().contains(old_map.tiles()[a].chara->0));
                } else if b != i {
                    assert(old_map.tiles()[b] == self.tiles()[b]);
                    assert(old_map.residents().contains(old_map.tiles()[b].chara->0));
                }
            }
            assert forall|x: CharaId| #[trigger] self.residents().contains(x) implies exists|j: int|
                0 <= j < n && (#[trigger] self.tiles()[j]).chara == Some(x) by {
                if x == id {
                    assert(self.tiles()[i as int].chara == Some(x));
                } else {
                    let k = choose|k: int| 0 <= k < self.residents().len() && self.residents()[k] == x;
                    assert(k < old_map.residents().len());
                    assert(old_map.residents()[k] == x);
                    assert(old_map.residents().contains(x));
                    let j = choose|j: int| 0 <= j < n && (#[trigger] old_map.tiles()[j]).chara == Some(x);
                    assert(j != i);
                    assert(self.tiles()[j] == old_map.tiles()[j]);
                }
            }
            assert forall|q: Vec2d| self.inside(q) && q != pos implies #[trigger] self.tile_at(q)
                == old_map.tile_at(q) by {
                self.lemma_tile_index(q);
                if self.index(q) == self.index(pos) {
                    lemma_grid_index_injective(self.width(), q.0 as int, q.1 as int, pos.0 as int, pos.1 as int);
                }
            }
        }
        true
    }

    /// Where character `cid` stands: the grid is scanned row by row.
    pub fn chara_pos(&self, cid: CharaId) -> (r: Option<Vec2d>)
        requires
            self.wf(),
        ensures
            r == self.locate(cid),
    {
        let mut y: u32 = 0;
        while y < self.h
            invariant
                self.wf(),
                y <= self.h,
                forall|q: Vec2d|
                    self.inside(q) && q.1 < y ==> #[trigger] self.tile_at(q).chara != Some(cid),
            decreases self.h - y,
        {
            let mut x: u32 = 0;
            while x < self.w
                invariant
                    self.wf(),
                    y < self.h,
                    x <= self.w,
                    forall|q: Vec2d|
                        self.inside(q) && (q.1 < y || (q.1 == y && q.0 < x)) ==> #[trigger] self.tile_at(
                            q,
                        ).chara != Some(cid),
                decreases self.w - x,
            {
                let p = Vec2d(x as i32, y as i32);
                let i = self.index_of(p);
                if self.tile[i].chara == Some(cid) {
                    proof {
                        self.lemma_locate_unique(p, cid);
                    }
                    return Some(p);
                }
                x = x + 1;
            }
            y = y + 1;
        }
        None
    }

    /// Moves character `cid` one step in direction `dir`, exchanging the
    /// occupants of the two tiles in a single step. Where `cid` is not on the
    /// map or the destination cannot be walked on, nothing changes and the
    /// result is false.
    pub fn move_chara(&mut self, cid: CharaId, dir: Direction) -> (r: bool)
        requires
            old(self).wf(),
        ensures
            final(self).wf(),
            final(self).same_frame(old(self)),
            r == (old(self).locate(cid) is Some && old(self).movable(
                moved(old(self).locate(cid)->0, dir),
            )),
            !r ==> *final(self) == *old(self),
            r ==> ({
                let p = old(self).locate(cid)->0;
                let q = moved(p, dir);
                &&& final(self).tile_at(q) == with_chara(old(self).tile_at(q), Some(cid))
                &&& p != q ==> final(self).tile_at(p) == with_chara(
                    old(self).tile_at(p),
                    old(self).tile_at(q).chara,
                )
                &&& forall|s: Vec2d|
                    final(self).inside(s) && s != p && s != q ==> #[trigger] final(self).tile_at(s)
                        == old(self).tile_at(s)
            }),
    {
        let p = match self.chara_pos(cid) {
            Some(p) => p,
            None => {
                return false;
            },
        };
        let d = dir.as_vec();
        proof {
            assert(self.inside(p) && self.tile_at(p).chara == Some(cid));
        }
        let new_p = Vec2d(p.0 + d.0, p.1 + d.1);
        assert(new_p == moved(p, dir));
        if !self.is_movable(new_p) {
            return false;
        }
        let i = self.index_of(p);
        let j = self.index_of(new_p);
        let ghost old_map = *self;
        let a = self.tile[i];
        let b = self.tile[j];
        self.tile.set(i, TileInfo { tile: a.tile, wall: a.wall, chara: b.chara, special: a.special });
        let b2 = self.tile[j];
        self.tile.set(j, TileInfo { tile: b2.tile, wall: b2.wall, chara: a.chara, special: b2.special });
        proof {
            let n = self.tiles().len();
            assert(a.chara == Some(cid));
            assert(forall|k: int| 0 <= k < n && k != i && k != j ==> #[trigger] self.tiles()[k] == old_map.tiles()[k]);
            if i == j {
                assert(self.tiles() =~= old_map.tiles());
            } else {
                assert(self.tiles()[i as int].chara == old_map.tiles()[j as int].chara);
                assert(self.tiles()[j as int].chara == old_map.tiles()[i as int].chara);
                assert forall|k: int|
                    0 <= k < n && (#[trigger] self.tiles()[k]).chara is Some implies self.residents().contains(
                    self.tiles()[k].chara->0) by {
                    if k == i {
                        assert(old_map.tiles()[j as int].chara is Some);
                    } else if k == j {
                        assert(old_map.tiles()[i as int].chara is Some);
                    } else {
                        assert(old_map.tiles()[k].chara is Some);
                    }
                }
                assert forall|a1: int, b1: int|
                    0 <= a1 < n && 0 <= b1 < n && (#[trigger] self.tiles()[a1]).chara is Some
                        && self.tiles()[a1].chara == (#[trigger] self.tiles()[b1]).chara implies a1 == b1 by {
                    let oa = if a1 == i { j as int } else if a1 == j { i as int } else { a1 };
                    let ob = if b1 == i { j as int } else if b1 == j { i as int } else { b1 };
                    assert(old_map.tiles()[oa].chara == self.tiles()[a1].chara);
                    assert(old_map.tiles()[ob].chara == self.tiles()[b1].chara);
                    assert(old_map.tiles()[oa].chara is Some);
                }
                assert forall|x: CharaId| #[trigger] self.residents().contains(x) implies exists|k: int|
                    0 <= k < n && (#[trigger] self.tiles()[k]).chara == Some(x) by {
                    assert(old_map.residents().contains(x));
                    let k = choose|k: int| 0 <= k < n && (#[trigger] old_map.tiles()[k]).chara == Some(x);
                    let nk = if k == i { j as int } else if k == j { i as int } else { k };
                    assert(self.tiles()[nk].chara == Some(x));
                }
            }
            assert forall|s: Vec2d|
                self.inside(s) && s != p && s != new_p implies #[trigger] self.tile_at(s)
                    == old_map.tile_at(s) by {
                self.lemma_tile_index(s);
                if self.index(s) == i {
                    lemma_grid_index_injective(self.width(), s.0 as int, s.1 as int, p.0 as int, p.1 as int);
                }
                if self.index(s) == j {
                    lemma_grid_index_injective(self.width(), s.0 as int, s.1 as int, new_p.0 as int, new_p.1 as int);
                }
            }
            if p != new_p {
                if i == j {
                    lemma_grid_index_injective(self.width(), p.0 as int, p.1 as int, new_p.0 as int, new_p.1 as int);
                }
            }
        }
        true
    }

    /// Takes character `cid` off the map: off its tile and out of the
    /// residents. Where `cid` does not live here, nothing changes and the
    /// result is false.
    pub fn remove_chara(&mut self, cid: CharaId) -> (r: bool)
        requires
            old(self).wf(),
        ensures
            final(self).wf(),
            r == old(self).residents().contains(cid),
            !r ==> *final(self) == *old(self),
            r ==> exists|k: int|
                0 <= k < old(self).residents().len() && old(self).residents()[k] == cid
                    && final(self).residents() == old(self).residents().remove(k),
            r ==> ({
                let p = old(self).locate(cid)->0;
                &&& old(self).locate(cid) is Some
                &&& final(self).tile_at(p) == with_chara(old(self).tile_at(p), None)
                &&& forall|s: Vec2d|
                    final(self).inside(s) && s != p ==> #[trigger] final(self).tile_at(s)
                        == old(self).tile_at(s)
            }),
            final(self).width() == old(self).width(),
            final(self).height() == old(self).height(),
            final(self).start_pos() == old(self).start_pos(),
            final(self).entrance_pos() == old(self).entrance_pos(),
    {
        let mut k: usize = 0;
        let mut found = false;
        while !found && k < self.charaid.len()
            invariant
                k <= self.charaid@.len(),
                found ==> k < self.charaid@.len() && self.charaid@[k as int] == cid,
                forall|j: int| 0 <= j < k ==> self.charaid@[j] != cid,
            decreases self.charaid@.len() - k + (if found { 0int } else { 1int }),
        {
            if self.charaid[k] == cid {
                found = true;
            } else {
                k = k + 1;
            }
        }
        if !found {
            return false;
        }
        let p = match self.chara_pos(cid) {
            Some(p) => p,
            None => {
                proof {
                    assert(self.residents().contains(cid));
                    let i = choose|i: int| 0 <= i < self.tiles().len() && (#[trigger] self.tiles()[i]).chara == Some(cid);
                    let q = self.lemma_index_position(i);
                    assert(self.tile_at(q).chara == Some(cid));
                }
                return false;
            },
        };
        proof {
            assert(self.inside(p) && self.tile_at(p).chara == Some(cid));
        }
        let i = self.index_of(p);
        let ghost old_map = *self;
        let t = self.tile[i];
        self.tile.set(i, TileInfo { tile: t.tile, wall: t.wall, chara: None, special: t.special });
        self.charaid.remove(k);
        proof {
            let n = self.tiles().len();
            let olds = old_map.residents();
            let news = self.residents();
            assert(news == olds.remove(k as int));
            assert(forall|j: int| 0 <= j < k ==> #[trigger] news[j] == olds[j]);
            assert(forall|j: int| k <= j < news.len() ==> #[trigger] news[j] == olds[j + 1]);
            assert forall|a: int, b: int| 0 <= a < b < news.len() implies news[a] != news[b] by {
                let oa = if a < k { a } else { a + 1 };
                let ob = if b < k { b } else { b + 1 };
                assert(olds[oa] == news[a]);
                assert(olds[ob] == news[b]);
            }
            assert(news.no_duplicates());
            assert forall|x: CharaId| olds.contains(x) && x != cid implies #[trigger] news.contains(x) by {
                let j = choose|j: int| 0 <= j < olds.len() && olds[j] == x;
                if j < k {
                    assert(news[j] == x);
                } else {
                    assert(j != k);
                    assert(news[j - 1] == x);
                }
            }
            assert forall|x: CharaId| #[trigger] news.contains(x) implies olds.contains(x) && x != cid by {
                let j = choose|j: int| 0 <= j < news.len() && news[j] == x;
                let oj = if j < k { j } else { j + 1 };
                assert(olds[oj] == x);
                assert(olds[k as int] == cid);
            }
            assert forall|j: int|
                0 <= j < n && (#[trigger] self.tiles()[j]).chara is Some implies news.contains(
                self.tiles()[j].chara->0) by {
                assert(j != i);
                assert(old_map.tiles()[j] == self.tiles()[j]);
                assert(olds.contains(self.tiles()[j].chara->0));
                assert(self.tiles()[j].chara != Some(cid));
            }
            assert forall|a: int, b: int|
                0 <= a < n && 0 <= b < n && (#[trigger] self.tiles()[a]).chara is Some
                    && self.tiles()[a].chara == (#[trigger] self.tiles()[b]).chara implies a == b by {
                assert(a != i && b != i);
                assert(old_map.tiles()[a] == self.tiles()[a]);
                assert(old_map.tiles()[b] == self.tiles()[b]);
            }
            assert forall|x: CharaId| #[trigger] news.contains(x) implies exists|j: int|
                0 <= j < n && (#[trigger] self.tiles()[j]).chara == Some(x) by {
                assert(olds.contains(x));
                let j = choose|j: int| 0 <= j < n && (#[trigger] old_map.tiles()[j]).chara == Some(x);
                assert(j != i);
                assert(self.tiles()[j] == old_map.tiles()[j]);
            }
            old_map.lemma_locate_unique(p, cid);
            assert forall|s: Vec2d| self.inside(s) && s != p implies #[trigger] self.tile_at(s)
                == old_map.tile_at(s) by {
                self.lemma_tile_index(s);
                if self.index(s) == i {
                    lemma_grid_index_injective(self.width(), s.0 as int, s.1 as int, p.0 as int, p.1 as int);
                }
            }
        }
        true
    }

    /// The smallest number that no on-map identity among the residents
    /// carries, or `None` where every `u32` is taken.
    pub fn search_empty_onmap_charaid_n(&self) -> (r: Option<u32>)
        ensures
            match r {
                Some(n) => !onmap_n_used(self.residents(), n) && forall|m: u32|
                    m < n ==> #[trigger] onmap_n_used(self.residents(), m),
                None => forall|m: u32| #[trigger] onmap_n_used(self.residents(), m),
            },
    {
        let mut n: u32 = 0;
        loop
            invariant
                forall|m: u32| m < n ==> #[trigger] onmap_n_used(self.residents(), m),
            decreases u32::MAX - n,
        {
            let mut used = false;
            let mut i: usize = 0;
            while i < self.charaid.len()
                invariant
                    i <= self.charaid@.len(),
                    !used ==> forall|j: int| 0 <= j < i ==> #[trigger] onmap_n(self.charaid@[j]) != Some(n),
                    used ==> onmap_n_used(self.residents(), n),
                decreases self.charaid@.len() - i,
            {
                if let CharaId::OnMap { n: m, .. } = self.charaid[i] {
                    if m == n {
                        assert(onmap_n(self.charaid@[i as int]) == Some(n));
                        used = true;
                    }
                }
                i = i + 1;
            }
            if !used {
                return Some(n);
            }
            if n == u32::MAX {
                return None;
            }
            n = n + 1;
        }
    }
}

impl TileMap {
    proof fn lemma_wf_same_charas(&self, old_map: &TileMap)
        requires
            old_map.wf(),
            self.tiles().len() == old_map.tiles().len(),
            self.width() == old_map.width(),
            self.height() == old_map.height(),
            self.residents() == old_map.residents(),
            forall|i: int|
                0 <= i < self.tiles().len() ==> (#[trigger] self.tiles()[i]).chara
                    == old_map.tiles()[i].chara,
        ensures
            self.wf(),
    {
        let n = self.tiles().len();
        assert forall|i: int|
            0 <= i < n && (#[trigger] self.tiles()[i]).chara is Some implies self.residents().contains(
            self.tiles()[i].chara->0) by {
            assert(old_map.tiles()[i].chara is Some);
        }
        assert forall|a: int, b: int|
            0 <= a < n && 0 <= b < n && (#[trigger] self.tiles()[a]).chara is Some
                && self.tiles()[a].chara == (#[trigger] self.tiles()[b]).chara implies a == b by {
            assert(old_map.tiles()[a].chara == self.tiles()[a].chara);
            assert(old_map.tiles()[b].chara == self.tiles()[b].chara);
        }
        assert forall|x: CharaId| #[trigger] self.residents().contains(x) implies exists|j: int|
            0 <= j < n && (#[trigger] self.tiles()[j]).chara == Some(x) by {
            let j = choose|j: int| 0 <= j < n && (#[trigger] old_map.tiles()[j]).chara == Some(x);
            assert(self.tiles()[j].chara == Some(x));
        }
    }

    /// Replaces the tile at `pos` by `t`, which keeps its occupant.
    fn replace_tile(&mut self, pos: Vec2d, t: TileInfo)
        requires
            old(self).wf(),
            old(self).inside(pos),
            t.chara == old(self).tile_at(pos).chara,
        ensures
            final(self).wf(),
            final(self).same_frame(old(self)),
            final(self).tile_at(pos) == t,
            forall|q: Vec2d|
                final(self).inside(q) && q != pos ==> #[trigger] final(self).tile_at(q)
                    == old(self).tile_at(q),
    {
        let i = self.index_of(pos);
        let ghost old_map = *self;
        self.tile.set(i, t);
        proof {
            self.lemma_wf_same_charas(&old_map);
            assert forall|q: Vec2d| self.inside(q) && q != pos implies #[trigger] self.tile_at(q)
                == old_map.tile_at(q) by {
                self.lemma_tile_index(q);
                if self.index(q) == i {
                    lemma_grid_index_injective(self.width(), q.0 as int, q.1 as int, pos.0 as int, pos.1 as int);
                }
            }
        }
    }

    /// Sets the base tile and the wall at `pos`.
    pub(crate) fn set_terrain(&mut self, pos: Vec2d, tile: TileIdx, wall: Option<WallIdxPP>)
        requires
            old(self).wf(),
            old(self).inside(pos),
        ensures
            final(self).wf(),
            final(self).same_frame(old(self)),
            final(self).tile_at(pos) == (TileInfo {
                tile,
                wall,
                chara: old(self).tile_at(pos).chara,
                special: old(self).tile_at(pos).special,
            }),
            forall|q: Vec2d|
                final(self).inside(q) && q != pos ==> #[trigger] final(self).tile_at(q)
                    == old(self).tile_at(q),
    {
        let t = *self.tile(pos);
        self.replace_tile(pos, TileInfo { tile, wall, chara: t.chara, special: t.special });
    }

    /// Sets the special object at `pos`.
    pub(crate) fn set_special(&mut self, pos: Vec2d, special: SpecialTileKind)
        requires
            old(self).wf(),
            old(self).inside(pos),
        ensures
            final(self).wf(),
            final(self).same_frame(old(self)),
            final(self).tile_at(pos) == (TileInfo {
                tile: old(self).tile_at(pos).tile,
                wall: old(self).tile_at(pos).wall,
                chara: old(self).tile_at(pos).chara,
                special,
            }),
            forall|q: Vec2d|
                final(self).inside(q) && q != pos ==> #[trigger] final(self).tile_at(q)
                    == old(self).tile_at(q),
    {
        let t = *self.tile(pos);
        self.replace_tile(pos, TileInfo { tile: t.tile, wall: t.wall, chara: t.chara, special });
    }

    pub(crate) fn set_entrance(&mut self, pos: Vec2d)
        ensures
            final(self).entrance_pos() == pos,
            final(self).width() == old(self).width(),
            final(self).height() == old(self).height(),
            final(self).tiles() == old(self).tiles(),
            final(self).residents() == old(self).residents(),
            final(self).start_pos() == old(self).start_pos(),
    {
        self.entrance = pos;
    }
}

} // verus!
