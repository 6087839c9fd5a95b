//! Cutting a tileset's source image into numbered tiles.

use crate::classify::{is_tall, is_tall_tileset};
use crate::editor::TilesetDefinition;
use crate::model::{TileSource, Tileset, TilesetView};
use vstd::arithmetic::div_mod::lemma_fundamental_div_mod_converse;
use vstd::prelude::*;

verus! {

/// Number of tile rows: every grid row, or every second one for tall tiles.
pub open spec fn tile_rows(def: &TilesetDefinition) -> nat {
    if is_tall(def.identifier@) {
        ((def.c_hei + 1) / 2) as nat
    } else {
        def.c_hei as nat
    }
}

/// Number of tiles the tileset is cut into.
pub open spec fn tile_count(def: &TilesetDefinition) -> nat {
    (def.c_wid * tile_rows(def)) as nat
}

/// Whether every tile gets an index in `1..=255` and every pixel coordinate
/// of the image fits in 32 bits.
pub open spec fn fits(def: &TilesetDefinition) -> bool {
    &&& tile_count(def) <= 255
    &&& def.c_wid * def.tile_grid_size <= u32::MAX
    &&& def.c_hei * def.tile_grid_size <= u32::MAX
    &&& 2 * def.tile_grid_size <= u32::MAX
}

/// Tile `k` (counted from zero in row-major order) of the tileset: index
/// `k + 1`, cut at column `k % c_wid` and at row `k / c_wid`, or at twice that
/// row and twice as tall for tall tiles.
pub open spec fn source_of(def: &TilesetDefinition, k: int) -> TileSource {
    let w = def.tile_grid_size;
    let col = k % def.c_wid as int;
    let row = if is_tall(def.identifier@) {
        2 * (k / def.c_wid as int)
    } else {
        k / def.c_wid as int
    };
    TileSource {
        index: (k + 1) as u8,
        x: (col * w) as u32,
        y: (row * w) as u32,
        width: w,
        height: if is_tall(def.identifier@) {
            (2 * w) as u32
        } else {
            w
        },
    }
}

/// The tileset cut from `def` under the id `uuid`.
pub open spec fn tileset_of(def: &TilesetDefinition, uuid: String) -> TilesetView {
    TilesetView {
        uuid,
        src: def.rel_path,
        tiles: Seq::new(tile_count(def), |k: int| source_of(def, k)),
        tilt: is_tall(def.identifier@),
    }
}

/// Whether the tileset `def` can be numbered: see `fits`.
pub fn tileset_fits(def: &TilesetDefinition) -> (r: bool)
    ensures
        r == fits(def),
{
    let rows: u64 = if is_tall_tileset(def.identifier.as_str()) {
        (def.c_hei as u64 + 1) / 2
    } else {
        def.c_hei as u64
    };
    let w = def.tile_grid_size as u64;
    assert(def.c_wid * rows <= u32::MAX * u32::MAX) by (nonlinear_arith)
        requires def.c_wid <= u32::MAX, rows <= u32::MAX;
    assert(def.c_wid * w <= u32::MAX * u32::MAX) by (nonlinear_arith)
        requires def.c_wid <= u32::MAX, w <= u32::MAX;
    assert(def.c_hei * w <= u32::MAX * u32::MAX) by (nonlinear_arith)
        requires def.c_hei <= u32::MAX, w <= u32::MAX;
    def.c_wid as u64 * rows <= 255 && def.c_wid as u64 * w <= u32::MAX as u64 && def.c_hei as u64
        * w <= u32::MAX as u64 && 2 * w <= u32::MAX as u64
}

/// Cuts the tileset `def` into tiles numbered from 1 in row-major order, and
/// names the result `uuid`. With zero columns or rows it has no tiles.
pub fn build_tileset(def: &TilesetDefinition, uuid: String) -> (r: Tileset)
    requires
        fits(def),
    ensures
        r@ == tileset_of(def, uuid),
{
    let tall = is_tall_tileset(def.identifier.as_str());
    let rows: u32 = if tall {
        ((def.c_hei as u64 + 1) / 2) as u32
    } else {
        def.c_hei
    };
    let cols = def.c_wid;
    let w = def.tile_grid_size;
    let height: u32 = if tall {
        2 * w
    } else {
        w
    };
    let mut tiles: Vec<TileSource> = Vec::new();
    let mut lr: u32 = 0;
    while lr < rows
        invariant
            rows == tile_rows(def),
            cols == def.c_wid,
            w == def.tile_grid_size,
            tall == is_tall(def.identifier@),
            height == (if tall { 2 * w } else { w as int }),
            fits(def),
            0 <= lr <= rows,
            tiles@.len() == lr * cols,
            forall|k: int| 0 <= k < tiles@.len() ==> tiles@[k] == source_of(def, k),
        decreases rows - lr,
    {
        let row: u32 = if tall {
            2 * lr
        } else {
            lr
        };
        assert(row < def.c_hei);
        let mut col: u32 = 0;
        while col < cols
            invariant
                rows == tile_rows(def),
                cols == def.c_wid,
                w == def.tile_grid_size,
                tall == is_tall(def.identifier@),
                height == (if tall { 2 * w } else { w as int }),
                fits(def),
                0 <= lr < rows,
                row == (if tall { 2 * lr } else { lr as int }),
                row < def.c_hei,
                0 <= col <= cols,
                tiles@.len() == lr * cols + col,
                forall|k: int| 0 <= k < tiles@.len() ==> tiles@[k] == source_of(def, k),
            decreases cols - col,
        {
            proof {
                assert(lr * cols + col < cols * rows) by (nonlinear_arith)
                    requires lr < rows, col < cols;
                assert(tile_count(def) == cols * rows);
            }
            let k: u64 = lr as u64 * cols as u64 + col as u64;
            proof {
                lemma_fundamental_div_mod_converse(k as int, cols as int, lr as int, col as int);
                assert(col * w <= cols * w) by (nonlinear_arith)
                    requires col <= cols;
                assert(row * w <= def.c_hei * w) by (nonlinear_arith)
                    requires row <= def.c_hei;
            }
            let entry = TileSource {
                index: (k + 1) as u8,
                x: col * w,
                y: row * w,
                width: w,
                height,
            };
            tiles.push(entry);
            col += 1;
        }
        proof {
            assert((lr + 1) * cols == lr * cols + cols) by (nonlinear_arith);
        }
        lr += 1;
    }
    assert(rows * cols == cols * rows) by (nonlinear_arith);
    let r = Tileset { uuid, src: def.rel_path.clone(), tiles, tilt: tall };
    assert(r@.tiles =~= tileset_of(def, r.uuid).tiles);
    r
}


/// An ordinary tileset of `c_wid × c_hei` cells is cut into exactly
/// `c_wid × c_hei` tiles, numbered 1 to `c_wid × c_hei` (0 is never used): index 1 is cut at the origin, and the tile at column
/// `col` and row `row` has index `row * c_wid + col + 1` and is cut at
/// `(col * w, row * w)` with size `(w, w)`, `w` being the tile size.
pub proof fn lemma_ordinary_indexing(def: &TilesetDefinition, uuid: String, col: int, row: int)
    requires
        !is_tall(def.identifier@),
        fits(def),
        0 <= col < def.c_wid,
        0 <= row < def.c_hei,
    ensures
        tileset_of(def, uuid).tiles.len() == def.c_wid * def.c_hei,
        forall|k: int|
            0 <= k < tileset_of(def, uuid).tiles.len() ==> (#[trigger] tileset_of(
                def,
                uuid,
            ).tiles[k]).index == k + 1,
        tileset_of(def, uuid).tiles[0] == (TileSource {
            index: 1,
            x: 0,
            y: 0,
            width: def.tile_grid_size,
            height: def.tile_grid_size,
        }),
        tileset_of(def, uuid).tiles[row * def.c_wid + col] == (TileSource {
            index: (row * def.c_wid + col + 1) as u8,
            x: (col * def.tile_grid_size) as u32,
            y: (row * def.tile_grid_size) as u32,
            width: def.tile_grid_size,
            height: def.tile_grid_size,
        }),
{
    let c = def.c_wid as int;
    let k = row * c + col;
    assert(k < c * def.c_hei) by (nonlinear_arith)
        requires 0 <= col < c, 0 <= row < def.c_hei, k == row * c + col;
    assert(0 <= k) by (nonlinear_arith)
        requires 0 <= col, 0 <= row, 0 < c, k == row * c + col;
    lemma_fundamental_div_mod_converse(k, c, row, col);
    lemma_fundamental_div_mod_converse(0, c, 0, 0);
    assert(0 < c * def.c_hei) by (nonlinear_arith)
        requires 0 < c, 0 < def.c_hei;
}

/// A tall tileset with an even number of rows is cut into exactly
/// `c_wid × c_hei / 2` tiles, each `w` wide and `2 * w` tall.
pub proof fn lemma_tall_halving(def: &TilesetDefinition, uuid: String)
    requires
        is_tall(def.identifier@),
        fits(def),
        def.c_hei % 2 == 0,
    ensures
        tileset_of(def, uuid).tiles.len() == def.c_wid * (def.c_hei / 2),
        forall|k: int|
            0 <= k < tileset_of(def, uuid).tiles.len() ==> {
                &&& (#[trigger] tileset_of(def, uuid).tiles[k]).width == def.tile_grid_size
                &&& tileset_of(def, uuid).tiles[k].height == 2 * def.tile_grid_size
            },
{
    assert((def.c_hei + 1) / 2 == def.c_hei / 2);
}

/// In a tall tileset only even grid rows start a tile: the tile whose top
/// lies at column `col` and even row `row` has index `(row / 2) * c_wid + col + 1`
/// and is cut at `(col * w, row * w)` with size `(w, 2 * w)`.
pub proof fn lemma_tall_indexing(def: &TilesetDefinition, uuid: String, col: int, row: int)
    requires
        is_tall(def.identifier@),
        fits(def),
        0 <= col < def.c_wid,
        0 <= row < def.c_hei,
        row % 2 == 0,
    ensures
        tileset_of(def, uuid).tiles[(row / 2) * def.c_wid + col] == (TileSource {
            index: ((row / 2) * def.c_wid + col + 1) as u8,
            x: (col * def.tile_grid_size) as u32,
            y: (row * def.tile_grid_size) as u32,
            width: def.tile_grid_size,
            height: (2 * def.tile_grid_size) as u32,
        }),
{
    let c = def.c_wid as int;
    let lr = row / 2;
    let k = lr * c + col;
    assert(lr < (def.c_hei + 1) / 2);
    assert(0 <= k < c * ((def.c_hei + 1) / 2)) by (nonlinear_arith)
        requires 0 <= col < c, 0 <= lr < (def.c_hei + 1) / 2, k == lr * c + col;
    lemma_fundamental_div_mod_converse(k, c, lr, col);
    assert(2 * lr == row);
}

} // verus!
