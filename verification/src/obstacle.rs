use vstd::prelude::*;
use crate::body::Body;
use crate::data;
use crate::data::Dimension;
use crate::shape::{Rectangle, Region};
use crate::vector::{Frame, Point, Vec2, Vector, FIELD, REACH, SCREEN_HEIGHT, UNIT};

verus! {

/// `tiles` tiles of `size` screen units each, where that many screen units are
/// within the playing field.
pub fn span(tiles: u64, size: u32) -> (r: Option<i32>)
    ensures
        r.is_some() == (tiles * size <= FIELD),
        r.is_some() ==> r.unwrap() == tiles * size,
{
    assert(0 <= tiles * size <= u64::MAX * u32::MAX) by (nonlinear_arith)
        requires
            0 <= tiles <= u64::MAX,
            0 <= size <= u32::MAX,
    ;
    let wide: u128 = (tiles as u128) * (size as u128);
    if wide <= FIELD as u128 {
        Some(wide as i32)
    } else {
        None
    }
}

/// The tiles that ground is drawn with: by row, the top one apart, and by
/// column, the ends apart.
#[derive(Clone, Copy, Debug, PartialEq, Eq, Structural)]
pub enum Tile {
    TopLeft,
    TopCenter,
    TopRight,
    Left,
    Center,
    Right,
}

/// One run of solid ground: a grid of equal tiles. To the physics it is one
/// rectangle, however many tiles it is drawn with.
#[derive(Clone, Copy, Debug, PartialEq, Eq, Structural)]
pub struct Obstacle {
    /// Tiles across and down.
    pub count: Dimension,
    /// The size of one tile, in screen units.
    pub dims: Dimension,
    /// The top-left corner, in screen units.
    pub tl: Point,
}

impl Obstacle {
    /// The run lies within the playing field.
    pub open spec fn loadable(tile: Dimension, obstacle: data::Obstacle) -> bool {
        &&& (obstacle.bottom_left.x + obstacle.count.x) * tile.x <= FIELD
        &&& (obstacle.bottom_left.y + obstacle.count.y) * tile.y <= FIELD
    }

    /// The rectangle that the whole grid covers, in sub-units.
    pub open spec fn region(&self) -> Region {
        Region {
            top_left: Vector { x: self.tl.x * UNIT, y: self.tl.y * UNIT },
            dims: Vector {
                x: self.dims.x * self.count.x * UNIT,
                y: self.dims.y * self.count.y * UNIT,
            },
        }
    }

    /// The grid lies within the playing field.
    pub open spec fn wf(&self) -> bool {
        &&& -FIELD <= self.tl.x && self.tl.x + self.dims.x * self.count.x <= FIELD
        &&& -FIELD <= self.tl.y && self.tl.y + self.dims.y * self.count.y <= FIELD
    }

    /// The run of ground that `obstacle` describes on a grid of tiles of the
    /// size `tile`. Its left edge is `bottom_left.x` tiles from the left, and
    /// its top edge `bottom_left.y + count.y` tiles above the bottom of the
    /// screen.
    pub open spec fn loaded(tile: Dimension, obstacle: data::Obstacle) -> Obstacle {
        Obstacle {
            count: obstacle.count,
            dims: tile,
            tl: Point {
                x: (obstacle.bottom_left.x * tile.x) as i32,
                y: (SCREEN_HEIGHT - (obstacle.bottom_left.y + obstacle.count.y) * tile.y) as i32,
            },
        }
    }

    /// The run of ground that `obstacle` describes on the tile grid, with tiles
    /// of the size that `ground` gives: see [`Obstacle::loaded`]. `None` where
    /// it leaves the playing field.
    pub fn load(ground: &data::Ground, obstacle: &data::Obstacle) -> (r: Option<Obstacle>)
        ensures
            r == if Self::loadable(ground.out_size, *obstacle) {
                Some(Self::loaded(ground.out_size, *obstacle))
            } else {
                None
            },
            r.is_some() ==> {
                let o = r.unwrap();
                &&& o.wf()
                &&& o.tl.x == obstacle.bottom_left.x * ground.out_size.x
                &&& o.tl.y == SCREEN_HEIGHT - (obstacle.bottom_left.y + obstacle.count.y)
                    * ground.out_size.y
            },
    {
        let tile = ground.out_size;
        let right = span(obstacle.bottom_left.x as u64 + obstacle.count.x as u64, tile.x);
        let rise = span(obstacle.bottom_left.y as u64 + obstacle.count.y as u64, tile.y);
        proof {
            let (x, w, s) = (
                obstacle.bottom_left.x as int,
                obstacle.count.x as int,
                tile.x as int,
            );
            assert((x + w) * s == x * s + w * s && 0 <= x * s && 0 <= w * s) by (nonlinear_arith)
                requires
                    0 <= x,
                    0 <= w,
                    0 <= s,
            ;
            let (y, h, t) = (
                obstacle.bottom_left.y as int,
                obstacle.count.y as int,
                tile.y as int,
            );
            assert((y + h) * t == y * t + h * t && 0 <= y * t && 0 <= h * t) by (nonlinear_arith)
                requires
                    0 <= y,
                    0 <= h,
                    0 <= t,
            ;
            assert(s * w == w * s && t * h == h * t) by (nonlinear_arith);
        }
        match (right, rise) {
            (Some(_), Some(rise)) => {
                let left = span(obstacle.bottom_left.x as u64, tile.x);
                Some(
                    Obstacle {
                        count: obstacle.count,
                        dims: tile,
                        tl: Point { x: left.unwrap(), y: SCREEN_HEIGHT as i32 - rise },
                    },
                )
            },
            _ => None,
        }
    }

    /// The tile that column `i` of row `j` is drawn with. The last column is
    /// a right end, even where it is the first column too.
    pub open spec fn tile_at(&self, i: u32, j: u32) -> Tile {
        if j == 0 {
            if i == self.count.x - 1 {
                Tile::TopRight
            } else if i == 0 {
                Tile::TopLeft
            } else {
                Tile::TopCenter
            }
        } else if i == self.count.x - 1 {
            Tile::Right
        } else if i == 0 {
            Tile::Left
        } else {
            Tile::Center
        }
    }

    /// The tile that column `i` of row `j` is drawn with, and the frame it is
    /// drawn in: rows count downwards from the top of the grid.
    pub fn tile(&self, i: u32, j: u32) -> (r: (Tile, Frame))
        requires
            self.wf(),
            i < self.count.x,
            j < self.count.y,
        ensures
            r.0 == self.tile_at(i, j),
            r.1.x == self.tl.x + self.dims.x * i,
            r.1.y == self.tl.y + self.dims.y * j,
            r.1.w == self.dims.x,
            r.1.h == self.dims.y,
    {
        let kind = if j == 0 {
            if i == self.count.x - 1 {
                Tile::TopRight
            } else if i == 0 {
                Tile::TopLeft
            } else {
                Tile::TopCenter
            }
        } else if i == self.count.x - 1 {
            Tile::Right
        } else if i == 0 {
            Tile::Left
        } else {
            Tile::Center
        };
        assert(0 <= self.dims.x * i && self.dims.x * (i + 1) <= self.dims.x * self.count.x
            && self.dims.x * (i + 1) == self.dims.x * i + self.dims.x) by (nonlinear_arith)
            requires
                0 <= i < self.count.x,
                0 <= self.dims.x,
        ;
        assert(0 <= self.dims.y * j && self.dims.y * (j + 1) <= self.dims.y * self.count.y
            && self.dims.y * (j + 1) == self.dims.y * j + self.dims.y) by (nonlinear_arith)
            requires
                0 <= j < self.count.y,
                0 <= self.dims.y,
        ;
        let x: i64 = self.tl.x as i64 + (self.dims.x as i64) * (i as i64);
        let y: i64 = self.tl.y as i64 + (self.dims.y as i64) * (j as i64);
        (kind, Frame { x: x as i32, y: y as i32, w: self.dims.x as i32, h: self.dims.y as i32 })
    }

    /// The rectangle that the whole grid covers, in sub-units.
    pub fn rectangle(&self) -> (r: Rectangle)
        requires
            self.wf(),
        ensures
            r@ == self.region(),
            r@.bounded(),
            within_reach(r@),
    {
        assert(0 <= self.dims.x * self.count.x <= u64::MAX && 0 <= self.dims.y * self.count.y
            <= u64::MAX) by (nonlinear_arith)
            requires
                0 <= self.dims.x <= u32::MAX,
                0 <= self.count.x <= u32::MAX,
                0 <= self.dims.y <= u32::MAX,
                0 <= self.count.y <= u32::MAX,
        ;
        let w: u64 = (self.dims.x as u64) * (self.count.x as u64);
        let h: u64 = (self.dims.y as u64) * (self.count.y as u64);
        Rectangle {
            top_left: Vec2 { x: (self.tl.x as i64) * UNIT, y: (self.tl.y as i64) * UNIT },
            dims: Vec2 { x: (w as i64) * UNIT, y: (h as i64) * UNIT },
        }
    }

    /// The displacement that moves `object` off the obstacle: what its first
    /// overlapping part needs to leave the one rectangle of the whole grid.
    /// `None` where no part overlaps, and so for a grid without width or
    /// height.
    pub fn mtv(&self, object: &Body) -> (r: Option<Vec2>)
        requires
            self.wf(),
            object.wf(),
        ensures
            r.deep_view() == object@.mtv(self.region()),
            r.is_some() == object@.overlaps_region(self.region()),
    {
        let obstacle = self.rectangle();
        proof {
            object.lemma_overlaps_rectangle(&obstacle);
        }
        object.mtv(&obstacle)
    }
}

/// The region lies within the playing field.
pub open spec fn within_reach(r: Region) -> bool {
    &&& 0 <= r.dims.x && 0 <= r.dims.y
    &&& -REACH <= r.left() && r.right() <= REACH
    &&& -REACH <= r.top() && r.bottom() <= REACH
}

} // verus!
