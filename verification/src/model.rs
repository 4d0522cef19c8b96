//! The data that a generation run works on: map dimensions, walls, prefabs
//! and placed objects.

use vstd::prelude::*;

verus! {

/// The direction a wall is laid in, and the facing of a placed object.
#[derive(Clone, Copy, Debug, PartialEq, Eq, Structural)]
pub enum Orientation {
    Up,
    Down,
    Left,
    Right,
}

impl Orientation {
    /// The facing of a new map: every map faces right.
    pub fn get_random() -> (orientation: Orientation)
        ensures
            orientation == Orientation::Right,
    {
        Orientation::Right
    }
}

/// A reusable wall tile: `width` tiles long, `height` tiles deep, drawn as `render`.
#[derive(Clone, Copy, Debug, PartialEq, Eq, Structural)]
pub struct Prefab {
    pub width: u32,
    pub height: u32,
    pub render: char,
}

/// One side of the perimeter: it starts at (`x`, `y`) and runs for `length`
/// tiles in the direction `orientation`.
#[derive(Clone, Copy, Debug, PartialEq, Eq, Structural)]
pub struct Wall {
    pub x: u32,
    pub y: u32,
    pub length: u32,
    pub orientation: Orientation,
}

impl Wall {
    /// A wall can be filled when it is laid leftwards (advancing along x) or
    /// downwards (advancing along y) and its far end is still a coordinate.
    pub open spec fn well_formed(&self) -> bool {
        match self.orientation {
            Orientation::Left => self.x + self.length <= u32::MAX,
            Orientation::Down => self.y + self.length <= u32::MAX,
            _ => false,
        }
    }

    /// The coordinates of the tile `offset` tiles along the wall.
    pub open spec fn position_at(&self, offset: int) -> (int, int) {
        match self.orientation {
            Orientation::Left => (self.x + offset, self.y as int),
            _ => (self.x as int, self.y + offset),
        }
    }
}

/// A prefab placed on the map with its origin at (`x`, `y`).
#[derive(Clone, Copy, Debug, PartialEq, Eq, Structural)]
pub struct MapObject {
    pub x: u32,
    pub y: u32,
    pub orientation: Orientation,
    pub prefab: Prefab,
}

impl MapObject {
    /// Places a copy of `prefab` at (`x`, `y`).
    pub fn new(x: u32, y: u32, orientation: Orientation, prefab: &Prefab) -> (object: MapObject)
        ensures
            object == (MapObject { x, y, orientation, prefab: *prefab }),
    {
        MapObject { x, y, orientation, prefab: *prefab }
    }
}

/// A generated map: the four perimeter walls in the order top, left, bottom,
/// right, and the objects inside them.
#[derive(Debug, PartialEq, Eq)]
pub struct TileMap {
    pub walls: [Vec<MapObject>; 4],
    pub inside_objects: Vec<MapObject>,
}

/// The dimensions of the map, in tiles.
#[derive(Clone, Copy, Debug, PartialEq, Eq, Structural)]
pub struct MapSize {
    pub width: u32,
    pub height: u32,
}

impl MapSize {
    /// A map of `width` by `height` tiles.
    pub fn new(width: u32, height: u32) -> (size: MapSize)
        ensures
            size == (MapSize { width, height }),
    {
        MapSize { width, height }
    }

    /// The four sides of the perimeter in the order top, left, bottom, right.
    pub open spec fn perimeter(&self) -> Seq<Wall> {
        seq![
            Wall { x: 0, y: 0, length: self.width, orientation: Orientation::Left },
            Wall { x: 0, y: 0, length: self.height, orientation: Orientation::Down },
            Wall { x: 0, y: self.height, length: self.width, orientation: Orientation::Left },
            Wall { x: self.width, y: 0, length: self.height, orientation: Orientation::Down },
        ]
    }

    /// The four sides of the perimeter in the order top, left, bottom, right.
    pub fn walls(&self) -> (walls: Vec<Wall>)
        ensures
            walls@ == self.perimeter(),
    {
        vec![
            Wall { x: 0, y: 0, length: self.width, orientation: Orientation::Left },
            Wall { x: 0, y: 0, length: self.height, orientation: Orientation::Down },
            Wall { x: 0, y: self.height, length: self.width, orientation: Orientation::Left },
            Wall { x: self.width, y: 0, length: self.height, orientation: Orientation::Down },
        ]
    }
}

} // verus!
