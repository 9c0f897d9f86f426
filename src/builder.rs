use vstd::prelude::*;
use crate::geom::Vec2d;
use crate::map::{
    default_tile, SpecialTileKind, StairsKind, TileIdx, TileInfo, TileMap, WallIdx, WallIdxPP,
    FLOOR_OUTSIDE,
};

verus! {

/// How a map generator classifies a cell.
#[derive(Clone, Copy, PartialEq, Eq, Structural, Debug)]
pub enum TileKind {
    Floor,
    Wall,
}

/// The layout a map generator produced: a classification of every cell,
/// an entrance cell and perhaps an exit cell.
#[derive(Clone, Debug)]
pub struct GeneratedMap {
    w: u32,
    h: u32,
    tile: Vec<TileKind>,
    entrance: Vec2d,
    exit: Option<Vec2d>,
}

pub open spec fn on_grid(p: Vec2d, w: u32, h: u32) -> bool {
    0 <= p.0 < w && 0 <= p.1 < h
}

impl GeneratedMap {
    pub closed spec fn width(&self) -> int {
        self.w as int
    }

    pub closed spec fn height(&self) -> int {
        self.h as int
    }

    /// The cells in row-major order.
    pub closed spec fn kinds(&self) -> Seq<TileKind> {
        self.tile@
    }

    pub closed spec fn entrance_pos(&self) -> Vec2d {
        self.entrance
    }

    pub closed spec fn exit_pos(&self) -> Option<Vec2d> {
        self.exit
    }

    pub open spec fn inside(&self, p: Vec2d) -> bool {
        0 <= p.0 < self.width() && 0 <= p.1 < self.height()
    }

    pub open spec fn kind_at(&self, p: Vec2d) -> TileKind {
        self.kinds()[p.1 * self.width() + p.0]
    }

    /// Whether the cell at (x, y) is a wall; cells beyond the edge count as
    /// walls.
    pub open spec fn wall_or_edge(&self, x: int, y: int) -> bool {
        if 0 <= x < self.width() && 0 <= y < self.height() {
            self.kinds()[y * self.width() + x] == TileKind::Wall
        } else {
            true
        }
    }

    pub open spec fn wf(&self) -> bool {
        &&& self.kinds().len() == self.width() * self.height()
        &&& self.width() <= i32::MAX
        &&& self.height() <= i32::MAX
        &&& self.inside(self.entrance_pos())
        &&& self.exit_pos() is Some ==> self.inside(self.exit_pos()->0)
    }

    /// A layout of `w` by `h` cells given row by row. `None` where the cells
    /// do not fill the grid exactly, a side exceeds `i32::MAX`, or the
    /// entrance or the exit lies off the grid.
    pub fn new(w: u32, h: u32, tile: Vec<TileKind>, entrance: Vec2d, exit: Option<Vec2d>) -> (r:
        Option<GeneratedMap>)
        ensures
            r is Some == (tile@.len() == w * h && w <= i32::MAX && h <= i32::MAX && on_grid(
                entrance,
                w,
                h,
            ) && (exit is Some ==> on_grid(exit->0, w, h))),
            r is Some ==> ({
                let g = r->0;
                &&& g.wf()
                &&& g.width() == w
                &&& g.height() == h
                &&& g.kinds() == tile@
                &&& g.entrance_pos() == entrance
                &&& g.exit_pos() == exit
            }),
    {
        let len = tile.len();
        if w > 0x7fff_ffff || h > 0x7fff_ffff {
            return None;
        }
        proof {
            assert((w as int) * (h as int) <= 0x7fff_ffff * 0x7fff_ffff) by (nonlinear_arith)
                requires
                    w <= 0x7fff_ffff,
                    h <= 0x7fff_ffff,
            ;
        }
        if len as u64 != (w as u64) * (h as u64) {
            return None;
        }
        if !(entrance.0 >= 0 && entrance.1 >= 0 && (entrance.0 as u32) < w && (entrance.1 as u32)
            < h) {
            return None;
        }
        if let Some(e) = exit {
            if !(e.0 >= 0 && e.1 >= 0 && (e.0 as u32) < w && (e.1 as u32) < h) {
                return None;
            }
        }
        Some(GeneratedMap { w, h, tile, entrance, exit })
    }

    pub fn w(&self) -> (r: u32)
        ensures
            r == self.width(),
    {
        self.w
    }

    pub fn h(&self) -> (r: u32)
        ensures
            r == self.height(),
    {
        self.h
    }

    /// The cell at (x, y); cells beyond the edge count as walls.
    fn is_wall_at(&self, x: i64, y: i64) -> (r: bool)
        requires
            self.wf(),
        ensures
            r == self.wall_or_edge(x as int, y as int),
    {
        if x < 0 || y < 0 || x >= self.w as i64 || y >= self.h as i64 {
            return true;
        }
        proof {
            crate::map::lemma_grid_index_bound(self.width(), self.height(), x as int, y as int);
            assert(0 <= (y as int) * (self.w as int)) by (nonlinear_arith)
                requires
                    0 <= y,
            ;
        }
        let len = self.tile.len();
        let i: usize = (y as usize) * (self.w as usize) + (x as usize);
        self.tile[i] == TileKind::Wall
    }
}

/// The pattern of neighbouring walls of cell `p`, one bit per direction:
/// up 1, up-right 2, right 4, down-right 8, down 16, down-left 32, left 64,
/// up-left 128. Cells beyond the edge count as walls.
pub open spec fn piece_pattern(gm: GeneratedMap, p: Vec2d) -> int {
    let x = p.0 as int;
    let y = p.1 as int;
    (if gm.wall_or_edge(x, y - 1) { 1int } else { 0int }) + (if gm.wall_or_edge(x + 1, y - 1) {
        2int
    } else {
        0int
    }) + (if gm.wall_or_edge(x + 1, y) { 4int } else { 0int }) + (if gm.wall_or_edge(x + 1, y + 1) {
        8int
    } else {
        0int
    }) + (if gm.wall_or_edge(x, y + 1) { 16int } else { 0int }) + (if gm.wall_or_edge(x - 1, y + 1) {
        32int
    } else {
        0int
    }) + (if gm.wall_or_edge(x - 1, y) { 64int } else { 0int }) + (if gm.wall_or_edge(x - 1, y - 1) {
        128int
    } else {
        0int
    })
}

/// Whether all eight neighbours of `p` are walls or beyond the edge.
pub open spec fn all_neighbours_wall(gm: GeneratedMap, p: Vec2d) -> bool {
    forall|dx: int, dy: int|
        -1 <= dx <= 1 && -1 <= dy <= 1 && !(dx == 0 && dy == 0) ==> #[trigger] gm.wall_or_edge(
            p.0 + dx,
            p.1 + dy,
        )
}

/// Whether all eight neighbours of `p` lie on the grid and are open.
pub open spec fn all_neighbours_open(gm: GeneratedMap, p: Vec2d) -> bool {
    forall|dx: int, dy: int|
        -1 <= dx <= 1 && -1 <= dy <= 1 && !(dx == 0 && dy == 0) ==> !#[trigger] gm.wall_or_edge(
            p.0 + dx,
            p.1 + dy,
        )
}

/// A wall enclosed by walls (or the edge) on all eight sides gets the full
/// pattern; a wall with open cells on all eight sides gets the empty one.
pub proof fn lemma_piece_pattern_extremes(gm: GeneratedMap, p: Vec2d)
    ensures
        all_neighbours_wall(gm, p) ==> piece_pattern(gm, p) == 255,
        all_neighbours_open(gm, p) ==> piece_pattern(gm, p) == 0,
{
    let x = p.0 as int;
    let y = p.1 as int;
    if all_neighbours_wall(gm, p) {
        assert(gm.wall_or_edge(x + 0, y + -1));
        assert(gm.wall_or_edge(x + 1, y + -1));
        assert(gm.wall_or_edge(x + 1, y + 0));
        assert(gm.wall_or_edge(x + 1, y + 1));
        assert(gm.wall_or_edge(x + 0, y + 1));
        assert(gm.wall_or_edge(x + -1, y + 1));
        assert(gm.wall_or_edge(x + -1, y + 0));
        assert(gm.wall_or_edge(x + -1, y + -1));
    }
    if all_neighbours_open(gm, p) {
        assert(!gm.wall_or_edge(x + 0, y + -1));
        assert(!gm.wall_or_edge(x + 1, y + -1));
        assert(!gm.wall_or_edge(x + 1, y + 0));
        assert(!gm.wall_or_edge(x + 1, y + 1));
        assert(!gm.wall_or_edge(x + 0, y + 1));
        assert(!gm.wall_or_edge(x + -1, y + 1));
        assert(!gm.wall_or_edge(x + -1, y + 0));
        assert(!gm.wall_or_edge(x + -1, y + -1));
    }
}

/// Computes the pattern of neighbouring walls of cell `p`.
pub fn wall_piece_pattern(gm: &GeneratedMap, p: Vec2d) -> (r: u8)
    requires
        gm.wf(),
        gm.inside(p),
    ensures
        r == piece_pattern(*gm, p),
{
    let x = p.0 as i64;
    let y = p.1 as i64;
    let mut bits: u8 = 0;
    if gm.is_wall_at(x, y - 1) {
        bits = bits + 1;
    }
    if gm.is_wall_at(x + 1, y - 1) {
        bits = bits + 2;
    }
    if gm.is_wall_at(x + 1, y) {
        bits = bits + 4;
    }
    if gm.is_wall_at(x + 1, y + 1) {
        bits = bits + 8;
    }
    if gm.is_wall_at(x, y + 1) {
        bits = bits + 16;
    }
    if gm.is_wall_at(x - 1, y + 1) {
        bits = bits + 32;
    }
    if gm.is_wall_at(x - 1, y) {
        bits = bits + 64;
    }
    if gm.is_wall_at(x - 1, y - 1) {
        bits = bits + 128;
    }
    bits
}

/// Where the up-stairs of floor `floor` lead.
pub open spec fn up_dest(floor: u32) -> u32 {
    if floor == 0 {
        FLOOR_OUTSIDE
    } else {
        (floor - 1) as u32
    }
}

/// Whether a down-stair is placed: the floor is not the deepest and the
/// generator produced an exit.
pub open spec fn has_exit_stairs(gm: GeneratedMap, is_deepest_floor: bool) -> bool {
    !is_deepest_floor && gm.exit_pos() is Some
}

/// The special object that map assembly puts at `p`.
pub open spec fn stairs_at(gm: GeneratedMap, floor: u32, is_deepest_floor: bool, p: Vec2d) -> SpecialTileKind {
    if has_exit_stairs(gm, is_deepest_floor) && gm.exit_pos() == Some(p) {
        SpecialTileKind::Stairs { dest_floor: (floor + 1) as u32, kind: StairsKind::DownStairs }
    } else if p == gm.entrance_pos() {
        SpecialTileKind::Stairs { dest_floor: up_dest(floor), kind: StairsKind::UpStairs }
    } else {
        SpecialTileKind::Plain
    }
}

/// The wall that map assembly puts at `p`.
pub open spec fn wall_at(gm: GeneratedMap, wall: WallIdx, p: Vec2d) -> Option<WallIdxPP> {
    if gm.kind_at(p) == TileKind::Wall {
        Some(WallIdxPP { idx: wall, piece_pattern: piece_pattern(gm, p) as u8 })
    } else {
        None
    }
}

/// `m` is the map assembled from layout `gm`.
pub open spec fn built_from(
    m: TileMap,
    gm: GeneratedMap,
    tile: TileIdx,
    wall: WallIdx,
    floor: u32,
    is_deepest_floor: bool,
) -> bool {
    &&& m.wf()
    &&& m.width() == gm.width()
    &&& m.height() == gm.height()
    &&& m.residents().len() == 0
    &&& m.start_pos() == Vec2d(0, 0)
    &&& m.entrance_pos() == gm.entrance_pos()
    &&& forall|p: Vec2d|
        m.inside(p) ==> #[trigger] m.tile_at(p) == (TileInfo {
            tile,
            wall: wall_at(gm, wall, p),
            chara: None,
            special: stairs_at(gm, floor, is_deepest_floor, p),
        })
}

/// Turns a generated layout into a map: every cell gets the base tile, wall
/// cells get the wall shaped by their neighbours, the entrance gets
/// up-stairs and, unless this is the deepest floor, the exit gets
/// down-stairs.
pub fn generated_map_to_map(
    gm: GeneratedMap,
    tile: TileIdx,
    wall: WallIdx,
    floor: u32,
    is_deepest_floor: bool,
) -> (r: TileMap)
    requires
        gm.wf(),
        has_exit_stairs(gm, is_deepest_floor) ==> floor < u32::MAX,
    ensures
        built_from(r, gm, tile, wall, floor, is_deepest_floor),
{
    let w = gm.w();
    let h = gm.h();
    let mut map = TileMap::new(w, h);
    let mut y: u32 = 0;
    while y < h
        invariant
            gm.wf(),
            w == gm.width(),
            h == gm.height(),
            y <= h,
            map.wf(),
            map.width() == w,
            map.height() == h,
            map.residents().len() == 0,
            map.start_pos() == Vec2d(0, 0),
            forall|q: Vec2d|
                map.inside(q) ==> #[trigger] map.tile_at(q) == (if q.1 < y {
                    TileInfo {
                        tile,
                        wall: wall_at(gm, wall, q),
                        chara: None,
                        special: SpecialTileKind::Plain,
                    }
                } else {
                    default_tile()
                }),
        decreases h - y,
    {
        let mut x: u32 = 0;
        while x < w
            invariant
                gm.wf(),
                w == gm.width(),
                h == gm.height(),
                y < h,
                x <= w,
                map.wf(),
                map.width() == w,
                map.height() == h,
                map.residents().len() == 0,
                map.start_pos() == Vec2d(0, 0),
                forall|q: Vec2d|
                    map.inside(q) ==> #[trigger] map.tile_at(q) == (if q.1 < y || (q.1 == y && q.0
                        < x) {
                        TileInfo {
                            tile,
                            wall: wall_at(gm, wall, q),
                            chara: None,
                            special: SpecialTileKind::Plain,
                        }
                    } else {
                        default_tile()
                    }),
            decreases w - x,
        {
            let p = Vec2d(x as i32, y as i32);
            let wall_here = if gm.is_wall_at(x as i64, y as i64) {
                Some(WallIdxPP { idx: wall, piece_pattern: wall_piece_pattern(&gm, p) })
            } else {
                None
            };
            map.set_terrain(p, tile, wall_here);
            x = x + 1;
        }
        y = y + 1;
    }
    let entrance = gm.entrance;
    let ghost plain = map;
    map.set_entrance(entrance);
    let dest_floor = if floor == 0 {
        FLOOR_OUTSIDE
    } else {
        floor - 1
    };
    map.set_special(
        entrance,
        SpecialTileKind::Stairs { dest_floor, kind: StairsKind::UpStairs },
    );
    if !is_deepest_floor {
        if let Some(exit) = gm.exit {
            map.set_special(
                exit,
                SpecialTileKind::Stairs { dest_floor: floor + 1, kind: StairsKind::DownStairs },
            );
        }
    }
    proof {
        assert forall|p: Vec2d| map.inside(p) implies #[trigger] map.tile_at(p) == (TileInfo {
            tile,
            wall: wall_at(gm, wall, p),
            chara: None,
            special: stairs_at(gm, floor, is_deepest_floor, p),
        }) by {
            assert(plain.inside(p));
            assert(plain.tile_at(p).special == SpecialTileKind::Plain);
        }
    }
    map
}

/// The stairs of an assembled map link only neighbouring floors: every
/// down-stair leads to `floor + 1` and exists only when this is not the
/// deepest floor, every up-stair leads to `floor - 1` (to the outside from
/// floor 0) and stands at the entrance, there is at most one down-stair, and
/// the entrance holds the up-stair unless the exit was placed on it.
pub proof fn lemma_floor_graph(
    m: TileMap,
    gm: GeneratedMap,
    tile: TileIdx,
    wall: WallIdx,
    floor: u32,
    is_deepest_floor: bool,
)
    requires
        gm.wf(),
        has_exit_stairs(gm, is_deepest_floor) ==> floor < u32::MAX,
        built_from(m, gm, tile, wall, floor, is_deepest_floor),
    ensures
        forall|p: Vec2d|
            m.inside(p) && (#[trigger] m.tile_at(p)).special is Stairs
                && m.tile_at(p).special->kind == StairsKind::DownStairs ==> !is_deepest_floor
                && m.tile_at(p).special->dest_floor == floor + 1,
        forall|p: Vec2d|
            m.inside(p) && (#[trigger] m.tile_at(p)).special is Stairs
                && m.tile_at(p).special->kind == StairsKind::UpStairs ==> p == gm.entrance_pos()
                && m.tile_at(p).special->dest_floor == (if floor == 0 {
                FLOOR_OUTSIDE
            } else {
                (floor - 1) as u32
            }),
        forall|p: Vec2d, q: Vec2d|
            m.inside(p) && m.inside(q) && (#[trigger] m.tile_at(p)).special is Stairs && (
            #[trigger] m.tile_at(q)).special is Stairs && m.tile_at(p).special->kind
                == StairsKind::DownStairs && m.tile_at(q).special->kind == StairsKind::DownStairs
                ==> p == q,
        gm.exit_pos() != Some(gm.entrance_pos()) || is_deepest_floor ==> m.tile_at(
            gm.entrance_pos(),
        ).special == (SpecialTileKind::Stairs {
            dest_floor: up_dest(floor),
            kind: StairsKind::UpStairs,
        }),
{
    assert(m.inside(gm.entrance_pos()));
}

/// The generation algorithm of a floor profile.
#[derive(Clone, Copy, PartialEq, Eq, Structural, Debug)]
pub enum MapGenKind {
    Flat,
    Fractal,
    Lattice,
    Rooms,
}

/// A named floor-generation profile: the map size and the algorithm.
#[derive(Clone, Copy, PartialEq, Eq, Debug)]
pub struct FloorGenParams {
    pub map_size: (u32, u32),
    pub map_gen_kind: MapGenKind,
}

/// An algorithm together with its parameters, as handed to a map generator.
#[derive(Clone, Copy, PartialEq, Eq, Structural, Debug)]
pub enum GenAlgorithm {
    /// No features
    Flat,
    Fractal,
    /// A lattice of `nx` by `ny` rooms whose sides lie between `min_room` and
    /// `max_room`; `door_percent` is the chance in percent of a door
    Lattice { nx: u32, ny: u32, min_room: u32, max_room: u32, door_percent: u32 },
    /// `n_room` rooms whose sides lie between `min_room` and `max_room`
    Rooms { min_room: u32, max_room: u32, n_room: u32 },
}

/// What a map generator is asked to produce.
#[derive(Clone, Copy, PartialEq, Eq, Structural, Debug)]
pub struct MapGenRequest {
    pub w: u32,
    pub h: u32,
    pub algorithm: GenAlgorithm,
}

pub open spec fn algorithm_of(kind: MapGenKind) -> GenAlgorithm {
    match kind {
        MapGenKind::Flat => GenAlgorithm::Flat,
        MapGenKind::Fractal => GenAlgorithm::Fractal,
        MapGenKind::Lattice => GenAlgorithm::Lattice {
            nx: 5,
            ny: 4,
            min_room: 3,
            max_room: 7,
            door_percent: 50,
        },
        MapGenKind::Rooms => GenAlgorithm::Rooms { min_room: 5, max_room: 8, n_room: 7 },
    }
}

/// Collects the settings of a map before it is generated and assembled.
#[derive(Clone, Copy, PartialEq, Eq, Debug)]
pub struct MapBuilder {
    pub w: u32,
    pub h: u32,
    pub floor: u32,
    pub is_deepest_floor: bool,
    pub floor_gen_params: Option<FloorGenParams>,
    pub tile: TileIdx,
    pub wall: WallIdx,
}

impl MapBuilder {
    /// A builder for a `w` by `h` flat map on floor 0.
    pub fn new(w: u32, h: u32) -> (r: MapBuilder)
        ensures
            r == (MapBuilder {
                w,
                h,
                floor: 0,
                is_deepest_floor: false,
                floor_gen_params: None,
                tile: TileIdx(0),
                wall: WallIdx(0),
            }),
    {
        MapBuilder {
            w,
            h,
            floor: 0,
            is_deepest_floor: false,
            floor_gen_params: None,
            tile: TileIdx(0),
            wall: WallIdx(0),
        }
    }

    /// Uses a floor-generation profile, which also gives the map size.
    pub fn floor_gen_id(self, params: FloorGenParams) -> (r: MapBuilder)
        ensures
            r == (MapBuilder {
                w: params.map_size.0,
                h: params.map_size.1,
                floor_gen_params: Some(params),
                ..self
            }),
    {
        MapBuilder {
            w: params.map_size.0,
            h: params.map_size.1,
            floor_gen_params: Some(params),
            ..self
        }
    }

    /// What the generator is to produce: the profile's algorithm, or a flat
    /// map where no profile was given.
    pub fn gen_request(&self) -> (r: MapGenRequest)
        ensures
            r.w == self.w,
            r.h == self.h,
            r.algorithm == (match self.floor_gen_params {
                Some(params) => algorithm_of(params.map_gen_kind),
                None => GenAlgorithm::Flat,
            }),
    {
        let algorithm = match self.floor_gen_params {
            Some(params) => match params.map_gen_kind {
                MapGenKind::Flat => GenAlgorithm::Flat,
                MapGenKind::Fractal => GenAlgorithm::Fractal,
                MapGenKind::Lattice => GenAlgorithm::Lattice {
                    nx: 5,
                    ny: 4,
                    min_room: 3,
                    max_room: 7,
                    door_percent: 50,
                },
                MapGenKind::Rooms => GenAlgorithm::Rooms { min_room: 5, max_room: 8, n_room: 7 },
            },
            None => GenAlgorithm::Flat,
        };
        MapGenRequest { w: self.w, h: self.h, algorithm }
    }

    /// Assembles the map from the layout that the generator produced for
    /// this builder's size.
    pub fn build(self, gm: GeneratedMap) -> (r: TileMap)
        requires
            gm.wf(),
            gm.width() == self.w,
            gm.height() == self.h,
            has_exit_stairs(gm, self.is_deepest_floor) ==> self.floor < u32::MAX,
        ensures
            built_from(r, gm, self.tile, self.wall, self.floor, self.is_deepest_floor),
            r.width() == self.w,
            r.height() == self.h,
    {
        generated_map_to_map(gm, self.tile, self.wall, self.floor, self.is_deepest_floor)
    }

    pub fn floor(self, floor: u32) -> (r: MapBuilder)
        ensures
            r == (MapBuilder { floor, ..self }),
    {
        MapBuilder { floor, ..self }
    }

    pub fn tile(self, tile: TileIdx) -> (r: MapBuilder)
        ensures
            r == (MapBuilder { tile, ..self }),
    {
        MapBuilder { tile, ..self }
    }

    pub fn wall(self, wall: WallIdx) -> (r: MapBuilder)
        ensures
            r == (MapBuilder { wall, ..self }),
    {
        MapBuilder { wall, ..self }
    }

    pub fn deepest_floor(self, is_deepest_floor: bool) -> (r: MapBuilder)
        ensures
            r == (MapBuilder { is_deepest_floor, ..self }),
    {
        MapBuilder { is_deepest_floor, ..self }
    }
}

} // verus!
