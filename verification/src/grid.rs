//! Going through the cells of a tile layer in the order in which they are
//! drawn.

use crate::errors::{Error, Fault};
use crate::gid::GID;
use crate::layer::TileLayer;
use crate::math::ivec2;
use crate::tilemap::{Renderorder, TileMap};
use vstd::prelude::*;
use vstd::string::StringExecFns;

verus! {

/// The fault of going through tiles in an order other than right-down.
pub open spec fn unsupported_order() -> Fault {
    Fault::Unsupported("Only right-down renderorder is implemented right now"@)
}

/// The fault of a layer that has not one tile for each cell.
pub open spec fn broken_grid() -> Fault {
    Fault::Structure {
        tag: "layer"@,
        msg: "The tile data does not match the size of the layer"@,
    }
}

/// The cell at place `k`, counted row by row: its column and row, and its
/// tile.
pub open spec fn cell(layer: &TileLayer, k: int) -> (ivec2, Option<GID>) {
    (
        ivec2 { x: (k % (layer.size.x as int)) as i32, y: (k / (layer.size.x as int)) as i32 },
        layer.tiles@[k],
    )
}

/// All cells of `layer`, row by row from the top, each row from the left.
pub open spec fn cells(layer: &TileLayer) -> Seq<(ivec2, Option<GID>)> {
    Seq::new(layer.tiles@.len(), |k: int| cell(layer, k))
}

/// Going through a layer visits every cell of the grid once: the cell in
/// column `x` and row `y` is visited at place `y * width + x`, and there are
/// `width * height` places.
pub proof fn lemma_cells(layer: &TileLayer, x: int, y: int)
    requires
        layer.wf(),
        0 <= x < layer.size.x,
        0 <= y < layer.size.y,
    ensures
        cells(layer).len() == layer.size.x * layer.size.y,
        0 <= y * layer.size.x + x < cells(layer).len(),
        cells(layer)[y * layer.size.x + x] == (
            ivec2 { x: x as i32, y: y as i32 },
            layer.tiles@[y * layer.size.x + x],
        ),
{
    let w = layer.size.x as int;
    let h = layer.size.y as int;
    assert(0 <= y * w + x < w * h && (y * w + x) % w == x && (y * w + x) / w == y)
        by (nonlinear_arith)
        requires
            0 <= x < w,
            0 <= y < h,
    ;
}

/// An iterator over the cells of a tile layer.
pub struct TileIterator<'map, 'layer> {
    map: &'map TileMap,
    layer: &'layer TileLayer,
    index: usize,
}

impl<'map, 'layer> TileIterator<'map, 'layer> {
    #[verifier::type_invariant]
    spec fn well_formed(self) -> bool {
        self.layer.wf() && self.index <= self.layer.tiles@.len() && self.map.renderorder
            == Renderorder::RightDown
    }

    /// The cells that the iterator has yet to yield.
    pub closed spec fn remaining(&self) -> Seq<(ivec2, Option<GID>)> {
        cells(self.layer).skip(self.index as int)
    }

    /// An iterator at the first cell of `layer`. Only the order right-down
    /// is supported, and the layer must have one tile for each cell.
    pub fn new(map: &'map TileMap, layer: &'layer TileLayer) -> (r: Result<Self, Error>)
        ensures
            match r {
                Ok(iter) => map.renderorder == Renderorder::RightDown && layer.wf()
                    && iter.remaining() == cells(layer),
                Err(e) => if map.renderorder != Renderorder::RightDown {
                    e@ == unsupported_order()
                } else {
                    !layer.wf() && e@ == broken_grid()
                },
            },
    {
        match map.renderorder {
            Renderorder::RightDown => {},
            _ => {
                return Err(
                    Error::UnsupportedFeature(
                        String::from_str("Only right-down renderorder is implemented right now"),
                    ),
                );
            },
        }
        let width: i32 = layer.size.x;
        let height: i32 = layer.size.y;
        let fits: bool = width >= 0 && height >= 0 && {
            assert(0 <= width * height <= 0x4000_0000_0000_0000) by (nonlinear_arith)
                requires
                    0 <= width <= 0x7FFF_FFFF,
                    0 <= height <= 0x7FFF_FFFF,
            ;
            layer.tiles.len() as u128 == (width as u128) * (height as u128)
        };
        if !fits {
            return Err(
                Error::StructureError {
                    tag: String::from_str("layer"),
                    msg: String::from_str("The tile data does not match the size of the layer"),
                },
            );
        }
        assert(cells(layer).skip(0) =~= cells(layer));
        Ok(Self { map, layer, index: 0 })
    }

    /// The next cell: its column and row, and its tile.
    pub fn next(&mut self) -> (r: Option<(ivec2, Option<GID>)>)
        ensures
            match r {
                Some(item) => old(self).remaining().len() > 0 && item == old(self).remaining()[0]
                    && final(self).remaining() == old(self).remaining().drop_first(),
                None => old(self).remaining().len() == 0 && final(self).remaining().len() == 0,
            },
    {
        proof {
            use_type_invariant(&*self);
        }
        let k: usize = self.index;
        if k >= self.layer.tiles.len() {
            return None;
        }
        let width: usize = self.layer.size.x as usize;
        assert(width > 0 && k / width < self.layer.size.y && k % width < width) by (nonlinear_arith)
            requires
                0 <= k < self.layer.size.x * self.layer.size.y,
                0 <= self.layer.size.x,
                0 <= self.layer.size.y,
                width == self.layer.size.x,
        ;
        let pos = ivec2::new((k % width) as i32, (k / width) as i32);
        let item = (pos, self.layer.tiles[k]);
        let ghost before = self.remaining();
        self.index = k + 1;
        proof {
            assert(before[0] == cell(self.layer, k as int));
            assert(before.drop_first() =~= cells(self.layer).skip(k + 1));
        }
        Some(item)
    }
}

impl TileLayer {
    /// Iterate over the tiles inside of this layer in the order in which
    /// they would be rendered: the columns and rows of the cells with their
    /// tiles, `None` for an empty cell.
    ///
    /// Only the order right-down is implemented; for a map with another
    /// order this is an error, as it is for a layer that has not one tile
    /// for each cell.
    pub fn tiles_in_renderorder<'a, 'b>(&'b self, map: &'a TileMap) -> (r: Result<
        TileIterator<'a, 'b>,
        Error,
    >)
        ensures
            match r {
                Ok(iter) => map.renderorder == Renderorder::RightDown && self.wf()
                    && iter.remaining() == cells(self),
                Err(e) => if map.renderorder != Renderorder::RightDown {
                    e@ == unsupported_order()
                } else {
                    !self.wf() && e@ == broken_grid()
                },
            },
    {
        TileIterator::new(map, self)
    }
}

} // verus!
