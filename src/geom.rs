use vstd::prelude::*;

verus! {

/// A position or a displacement on a tile grid.
#[derive(Clone, Copy, PartialEq, Eq, Structural, Hash, Debug)]
pub struct Vec2d(pub i32, pub i32);

impl Vec2d {
    pub fn new(x: i32, y: i32) -> (r: Vec2d)
        ensures
            r == Vec2d(x, y),
    {
        Vec2d(x, y)
    }
}

/// Horizontal component of a direction.
#[derive(Clone, Copy, PartialEq, Eq, Structural, Hash, Debug)]
pub enum HDirection {
    Left,
    Center,
    Right,
}

/// Vertical component of a direction.
#[derive(Clone, Copy, PartialEq, Eq, Structural, Hash, Debug)]
pub enum VDirection {
    Up,
    Center,
    Down,
}

/// One of the eight compass directions, or no direction at all.
#[derive(Clone, Copy, PartialEq, Eq, Structural, Hash, Debug)]
pub struct Direction {
    pub hdir: HDirection,
    pub vdir: VDirection,
}

pub open spec fn hdir_dx(h: HDirection) -> int {
    match h {
        HDirection::Left => -1,
        HDirection::Center => 0,
        HDirection::Right => 1,
    }
}

pub open spec fn vdir_dy(v: VDirection) -> int {
    match v {
        VDirection::Up => -1,
        VDirection::Center => 0,
        VDirection::Down => 1,
    }
}

impl Direction {
    pub fn new(hdir: HDirection, vdir: VDirection) -> (r: Direction)
        ensures
            r == (Direction { hdir, vdir }),
    {
        Direction { hdir, vdir }
    }

    /// The unit displacement of this direction.
    pub open spec fn spec_vec(self) -> Vec2d {
        Vec2d(hdir_dx(self.hdir) as i32, vdir_dy(self.vdir) as i32)
    }

    pub fn as_vec(&self) -> (r: Vec2d)
        ensures
            r == self.spec_vec(),
            r.0 as int == hdir_dx(self.hdir),
            r.1 as int == vdir_dy(self.vdir),
    {
        let x: i32 = match self.hdir {
            HDirection::Left => -1,
            HDirection::Center => 0,
            HDirection::Right => 1,
        };
        let y: i32 = match self.vdir {
            VDirection::Up => -1,
            VDirection::Center => 0,
            VDirection::Down => 1,
        };
        Vec2d(x, y)
    }
}

} // verus!
