//! Which tiles a viewport shows.

use vstd::prelude::*;
use vstd::arithmetic::power2::pow2;
use crate::MAX_ZOOM;
use crate::TileId;
use crate::arith::div_floor;
use crate::arith::pow2_i64;
use crate::projection::half_unit_span;
use crate::projection::half_unit_span_at;
use crate::projection::lemma_span_bounds;
use crate::projection::tile_span;
use crate::projection::GeoPos;
use crate::projection::MapProjection;
use crate::projection::ScreenPos;
use crate::projection::WORLD_SIZE;

verus! {

/// The number of tile columns, and of tile rows, at `zoom`.
pub open spec fn tiles_across(zoom: u8) -> int {
    pow2(zoom as nat) as int
}

/// The index of the tile that holds the world coordinate `c` at `zoom`. The far
/// edge of the world belongs to the last tile.
pub open spec fn tile_index(c: int, zoom: u8) -> int {
    if c / tile_span(zoom) >= tiles_across(zoom) {
        tiles_across(zoom) - 1
    } else {
        c / tile_span(zoom)
    }
}

/// The first tile index along one axis that the view reaches: the tile under the
/// near edge of the view, or the nearest tile of the world.
///
/// `c` is the center in world units and `view` the size of the widget in screen
/// units.
pub open spec fn first_visible(c: int, view: int, zoom: u8) -> int {
    let near = (c - view * half_unit_span(zoom)) / tile_span(zoom);
    if near < 0 {
        0
    } else if near > tiles_across(zoom) - 1 {
        tiles_across(zoom) - 1
    } else {
        near
    }
}

/// The last tile index along one axis that the view reaches: the tile that
/// begins at or beyond the far edge of the view, which gives a margin of up to
/// one tile, or the last tile of the world.
pub open spec fn last_visible(c: int, view: int, zoom: u8) -> int {
    let far = (c + view * half_unit_span(zoom) + tile_span(zoom) - 1) / tile_span(zoom);
    if far > tiles_across(zoom) - 1 {
        tiles_across(zoom) - 1
    } else {
        far
    }
}

impl MapProjection {
    /// The tile in column `col` and row `row`, with the screen position of its
    /// top-left corner.
    pub open spec fn placed_tile(self, col: int, row: int) -> (TileId, ScreenPos) {
        (
            TileId { z: self.zoom, x: col as u32, y: row as u32 },
            self.project_spec(
                GeoPos {
                    x: (col * tile_span(self.zoom)) as i64,
                    y: (row * tile_span(self.zoom)) as i64,
                },
            ),
        )
    }

    /// The first and last visible column.
    pub open spec fn visible_columns(self) -> (int, int) {
        (
            first_visible(self.center.x as int, self.widget_rect.spec_width(), self.zoom),
            last_visible(self.center.x as int, self.widget_rect.spec_width(), self.zoom),
        )
    }

    /// The first and last visible row.
    pub open spec fn visible_rows(self) -> (int, int) {
        (
            first_visible(self.center.y as int, self.widget_rect.spec_height(), self.zoom),
            last_visible(self.center.y as int, self.widget_rect.spec_height(), self.zoom),
        )
    }

    /// The visible tiles of column `col`, from the first visible row down to
    /// `rows` rows.
    pub open spec fn column_tiles(self, col: int, rows: int) -> Seq<(TileId, ScreenPos)> {
        Seq::new(rows as nat, |j: int| self.placed_tile(col, self.visible_rows().0 + j))
    }

    /// The visible tiles of the first `cols` visible columns, column by column.
    pub open spec fn leading_tiles(self, cols: int) -> Seq<(TileId, ScreenPos)>
        decreases cols,
    {
        if cols <= 0 {
            Seq::empty()
        } else {
            self.leading_tiles(cols - 1) + self.column_tiles(
                self.visible_columns().0 + cols - 1,
                self.visible_rows().1 - self.visible_rows().0 + 1,
            )
        }
    }

    /// Every tile of the world whose square meets the widget rectangle, with a
    /// margin of up to one tile to the right and below, ordered by column and
    /// then by row.
    pub open spec fn visible_tiles_spec(self) -> Seq<(TileId, ScreenPos)> {
        self.leading_tiles(self.visible_columns().1 - self.visible_columns().0 + 1)
    }

    /// The tile under the center of the viewport.
    pub open spec fn center_tile(self) -> TileId {
        TileId {
            z: self.zoom,
            x: tile_index(self.center.x as int, self.zoom) as u32,
            y: tile_index(self.center.y as int, self.zoom) as u32,
        }
    }
}

/// The bounds that the visible range along one axis keeps: it is never empty, it
/// lies within the world, and it holds the tile under the center.
pub proof fn lemma_visible_range(c: int, view: int, zoom: u8)
    requires
        0 <= c <= WORLD_SIZE,
        0 <= view <= 0x1000_0000,
        zoom <= MAX_ZOOM,
    ensures
        0 <= first_visible(c, view, zoom) <= tile_index(c, zoom) <= last_visible(c, view, zoom)
            < tiles_across(zoom) <= 0x8_0000,
        tile_span(zoom) * tiles_across(zoom) == WORLD_SIZE,
{
    lemma_span_bounds(zoom);
    vstd::arithmetic::power2::lemma2_to64();
    if zoom < 19 {
        vstd::arithmetic::power2::lemma_pow2_strictly_increases(zoom as nat, 19);
    }
    let t = tile_span(zoom);
    let n = tiles_across(zoom);
    let h = half_unit_span(zoom);
    let e = view * h;
    assert(0 <= e) by (nonlinear_arith)
        requires
            e == view * h,
            0 <= view,
            0 <= h,
    ;
    assert(t * n == WORLD_SIZE);
    assert((c - e) / t <= c / t && 0 <= c / t <= (c + e + t - 1) / t && (c / t >= n ==> c == t
        * n)) by (nonlinear_arith)
        requires
            0 <= e,
            0 <= c <= t * n,
            t > 0,
            n > 0,
    ;
}

/// The first visible tile index along one axis.
fn first_visible_index(c: i64, view: i64, zoom: u8) -> (r: i64)
    requires
        0 <= c <= WORLD_SIZE,
        0 <= view <= 0x1000_0000,
        zoom <= MAX_ZOOM,
    ensures
        r == first_visible(c as int, view as int, zoom),
{
    let h: i64 = half_unit_span_at(zoom);
    assert(0 <= view * h <= 0x1000_0000 * 0x80_0000) by (nonlinear_arith)
        requires
            0 <= view <= 0x1000_0000,
            0 <= h <= 0x80_0000,
    ;
    let near: i64 = div_floor(c - view * h, 0x2_0000 * h);
    let n: i64 = pow2_i64(zoom);
    if near < 0 {
        0
    } else if near > n - 1 {
        n - 1
    } else {
        near
    }
}

/// The last visible tile index along one axis.
fn last_visible_index(c: i64, view: i64, zoom: u8) -> (r: i64)
    requires
        0 <= c <= WORLD_SIZE,
        0 <= view <= 0x1000_0000,
        zoom <= MAX_ZOOM,
    ensures
        r == last_visible(c as int, view as int, zoom),
{
    let h: i64 = half_unit_span_at(zoom);
    assert(0 <= view * h <= 0x1000_0000 * 0x80_0000) by (nonlinear_arith)
        requires
            0 <= view <= 0x1000_0000,
            0 <= h <= 0x80_0000,
    ;
    let far: i64 = div_floor(c + view * h + 0x2_0000 * h - 1, 0x2_0000 * h);
    let n: i64 = pow2_i64(zoom);
    if far > n - 1 {
        n - 1
    } else {
        far
    }
}

/// Returns the visible tiles, each with the screen position of its top-left
/// corner.
pub fn visible_tiles(projection: &MapProjection) -> (tiles: Vec<(TileId, ScreenPos)>)
    requires
        projection.wf(),
    ensures
        tiles@ == projection.visible_tiles_spec(),
        forall|i: int| 0 <= i < tiles@.len() ==> (#[trigger] tiles@[i]).1.wf(),
{
    proof {
        lemma_visible_positions(*projection);
    }
    let zoom: u8 = projection.zoom;
    let h: i64 = half_unit_span_at(zoom);
    let span: i64 = 0x2_0000 * h;
    let w: i64 = projection.widget_rect.width();
    let t: i64 = projection.widget_rect.height();
    let col_first: i64 = first_visible_index(projection.center.x, w, zoom);
    let col_last: i64 = last_visible_index(projection.center.x, w, zoom);
    let row_first: i64 = first_visible_index(projection.center.y, t, zoom);
    let row_last: i64 = last_visible_index(projection.center.y, t, zoom);
    proof {
        lemma_visible_range(projection.center.x as int, w as int, zoom);
        lemma_visible_range(projection.center.y as int, t as int, zoom);
    }
    let ghost rows: int = row_last - row_first + 1;
    let mut tiles: Vec<(TileId, ScreenPos)> = Vec::new();
    let mut col: i64 = col_first;
    while col <= col_last
        invariant
            projection.wf(),
            zoom == projection.zoom,
            span == tile_span(zoom),
            (col_first as int, col_last as int) == projection.visible_columns(),
            (row_first as int, row_last as int) == projection.visible_rows(),
            rows == row_last - row_first + 1,
            0 <= col_first <= col <= col_last + 1,
            col_last < tiles_across(zoom) <= 0x8_0000,
            0 <= row_first <= row_last < tiles_across(zoom),
            tile_span(zoom) * tiles_across(zoom) == WORLD_SIZE,
            tiles@ == projection.leading_tiles(col - col_first),
        decreases col_last + 1 - col,
    {
        let ghost before: Seq<(TileId, ScreenPos)> = tiles@;
        let mut row: i64 = row_first;
        while row <= row_last
            invariant
                projection.wf(),
                zoom == projection.zoom,
                span == tile_span(zoom),
                (row_first as int, row_last as int) == projection.visible_rows(),
                0 <= col <= col_last < tiles_across(zoom) <= 0x8_0000,
                0 <= row_first <= row <= row_last + 1,
                row_last < tiles_across(zoom),
                tile_span(zoom) * tiles_across(zoom) == WORLD_SIZE,
                tiles@ == before + projection.column_tiles(col as int, row - row_first),
            decreases row_last + 1 - row,
        {
            proof {
                lemma_corner_in_world(col as int, zoom);
                lemma_corner_in_world(row as int, zoom);
            }
            let corner = GeoPos { x: col * span, y: row * span };
            let pos = projection.project(corner);
            tiles.push((TileId { z: zoom, x: col as u32, y: row as u32 }, pos));
            assert(tiles@ =~= before + projection.column_tiles(col as int, row + 1 - row_first));
            row = row + 1;
        }
        assert(tiles@ == projection.leading_tiles(col + 1 - col_first));
        col = col + 1;
    }
    tiles
}

/// The top-left corner of every tile of the world lies within the world.
proof fn lemma_corner_in_world(index: int, zoom: u8)
    requires
        0 <= index < tiles_across(zoom),
        tile_span(zoom) * tiles_across(zoom) == WORLD_SIZE,
        zoom <= MAX_ZOOM,
    ensures
        0 <= index * tile_span(zoom) <= WORLD_SIZE,
{
    lemma_span_bounds(zoom);
    let t = tile_span(zoom);
    let n = tiles_across(zoom);
    assert(0 <= index * t <= t * n) by (nonlinear_arith)
        requires
            0 <= index < n,
            t > 0,
    ;
}

/// The visible tiles always include the tile under the center of the viewport.
pub proof fn lemma_center_tile_is_visible(projection: MapProjection)
    requires
        projection.wf(),
    ensures
        exists|i: int|
            0 <= i < projection.visible_tiles_spec().len()
                && (#[trigger] projection.visible_tiles_spec()[i]).0 == projection.center_tile(),
{
    let zoom = projection.zoom;
    lemma_visible_range(
        projection.center.x as int,
        projection.widget_rect.spec_width(),
        zoom,
    );
    lemma_visible_range(
        projection.center.y as int,
        projection.widget_rect.spec_height(),
        zoom,
    );
    let (col_first, col_last) = projection.visible_columns();
    let col = tile_index(projection.center.x as int, zoom);
    let row = tile_index(projection.center.y as int, zoom);
    lemma_leading_tiles_hold(projection, col_last - col_first + 1, col, row);
    let all = projection.visible_tiles_spec();
    let i = choose|i: int| 0 <= i < all.len() && #[trigger] all[i] == projection.placed_tile(col, row);
    assert(all[i].0 == projection.center_tile());
}

/// The tiles of the first `cols` visible columns hold every visible tile of
/// those columns.
proof fn lemma_leading_tiles_hold(projection: MapProjection, cols: int, col: int, row: int)
    requires
        projection.visible_columns().0 <= col < projection.visible_columns().0 + cols,
        projection.visible_rows().0 <= row <= projection.visible_rows().1,
    ensures
        exists|i: int|
            0 <= i < projection.leading_tiles(cols).len() && #[trigger] projection.leading_tiles(
                cols,
            )[i] == projection.placed_tile(col, row),
    decreases cols,
{
    let first = projection.visible_columns().0;
    let rows = projection.visible_rows().1 - projection.visible_rows().0 + 1;
    let head = projection.leading_tiles(cols - 1);
    let tail = projection.column_tiles(first + cols - 1, rows);
    if col == first + cols - 1 {
        let j = row - projection.visible_rows().0;
        assert(tail[j] == projection.placed_tile(col, row));
        assert(projection.leading_tiles(cols)[head.len() + j] == tail[j]);
    } else {
        lemma_leading_tiles_hold(projection, cols - 1, col, row);
        let i = choose|i: int|
            0 <= i < head.len() && #[trigger] head[i] == projection.placed_tile(col, row);
        assert(projection.leading_tiles(cols)[i] == head[i]);
    }
}

/// Every visible tile is a tile of the viewport's zoom level, with a column and
/// a row that exist at that level, and is drawn at a screen position within the
/// limit.
pub proof fn lemma_visible_positions(projection: MapProjection)
    requires
        projection.wf(),
    ensures
        forall|i: int|
            0 <= i < projection.visible_tiles_spec().len() ==> {
                let tile = #[trigger] projection.visible_tiles_spec()[i];
                &&& tile.1.wf()
                &&& tile.0.z == projection.zoom
                &&& tile.0.x < tiles_across(projection.zoom)
                &&& tile.0.y < tiles_across(projection.zoom)
            },
{
    let (first, last) = projection.visible_columns();
    lemma_leading_positions(projection, last - first + 1);
}

/// The same of the tiles of the first `cols` visible columns.
proof fn lemma_leading_positions(projection: MapProjection, cols: int)
    requires
        projection.wf(),
        cols <= projection.visible_columns().1 - projection.visible_columns().0 + 1,
    ensures
        forall|i: int|
            0 <= i < projection.leading_tiles(cols).len() ==> {
                let tile = #[trigger] projection.leading_tiles(cols)[i];
                &&& tile.1.wf()
                &&& tile.0.z == projection.zoom
                &&& tile.0.x < tiles_across(projection.zoom)
                &&& tile.0.y < tiles_across(projection.zoom)
            },
    decreases cols,
{
    if cols > 0 {
        lemma_leading_positions(projection, cols - 1);
        let (first, last) = projection.visible_columns();
        let (row_first, row_last) = projection.visible_rows();
        let head = projection.leading_tiles(cols - 1);
        let col = first + cols - 1;
        let tail = projection.column_tiles(col, row_last - row_first + 1);
        lemma_visible_range(
            projection.center.x as int,
            projection.widget_rect.spec_width(),
            projection.zoom,
        );
        lemma_visible_range(
            projection.center.y as int,
            projection.widget_rect.spec_height(),
            projection.zoom,
        );
        assert forall|i: int| 0 <= i < projection.leading_tiles(cols).len() implies {
            let tile = #[trigger] projection.leading_tiles(cols)[i];
            &&& tile.1.wf()
            &&& tile.0.z == projection.zoom
            &&& tile.0.x < tiles_across(projection.zoom)
            &&& tile.0.y < tiles_across(projection.zoom)
        } by {
            if i < head.len() {
                assert(projection.leading_tiles(cols)[i] == head[i]);
            } else {
                let j = i - head.len();
                assert(projection.leading_tiles(cols)[i] == tail[j]);
            }
        }
    }
}

} // verus!
