//! Positions on the map and on the screen, and the projector between them.
//!
//! A geographic position is held as a point of the Web-Mercator plane, measured
//! in world units: the plane is `WORLD_SIZE` units wide and high. Longitude maps
//! linearly onto `x` (-180 degrees is 0, +180 degrees is `WORLD_SIZE`) and latitude
//! maps through the Mercator formula onto `y` (the northern limit, about 85.0511
//! degrees, is 0 and the southern limit is `WORLD_SIZE`). The conversion between
//! degrees and world units is the caller's; everything after it is exact.
//!
//! Screen positions are held in screen units, of which there are 256 to the
//! pixel, so that a pointer between two pixels and a radius of a pixel and a
//! half have their place. At zoom level `z` the world is `256 * 2^z` pixels
//! wide, which is `2^(16 + z)` screen units, so one screen unit spans
//! `2^(24 - z)` world units and half a screen unit spans `2^(23 - z)`.

use vstd::prelude::*;
use vstd::arithmetic::power2::pow2;
use vstd::arithmetic::power2::lemma2_to64;
use vstd::arithmetic::power2::lemma_pow2_strictly_increases;
use vstd::arithmetic::power2::lemma_pow2_unfold;
use crate::MAX_ZOOM;
use crate::arith::clamp_i64;
use crate::arith::clamp_int;
use crate::arith::div_floor;
use crate::arith::pow2_i64;

verus! {

/// The width and height of the Web-Mercator plane in world units.
pub const WORLD_SIZE: i64 = 0x100_0000_0000;

/// The number of screen units to the pixel.
pub const UNITS_PER_PIXEL: i32 = 256;

/// The edge length of a map tile in screen units.
pub const TILE_UNITS: i32 = 0x1_0000;

/// The largest absolute value of a screen coordinate that the geometry handles,
/// in screen units: two million pixels.
pub const SCREEN_LIMIT: i32 = 0x2000_0000;

/// The largest absolute value of a coordinate of a widget rectangle, in screen
/// units.
pub const RECT_LIMIT: i32 = 0x0800_0000;

/// A geographical position, in world units on the Web-Mercator plane.
#[derive(Clone, Copy, Debug, PartialEq, Eq, Structural)]
pub struct GeoPos {
    /// Eastward distance from the antimeridian.
    pub x: i64,
    /// Southward distance from the northern limit of the projection.
    pub y: i64,
}

impl GeoPos {
    /// Whether the position lies within the projected world: longitude between
    /// -180 and 180 degrees and latitude within the Mercator limits.
    pub open spec fn in_world(self) -> bool {
        0 <= self.x <= WORLD_SIZE && 0 <= self.y <= WORLD_SIZE
    }

    /// The nearest position within the world.
    pub open spec fn clamped(self) -> GeoPos {
        GeoPos {
            x: clamp_int(self.x as int, 0, WORLD_SIZE as int) as i64,
            y: clamp_int(self.y as int, 0, WORLD_SIZE as int) as i64,
        }
    }

    /// Tests whether the position lies within the projected world.
    pub fn is_in_world(&self) -> (r: bool)
        ensures
            r == self.in_world(),
    {
        0 <= self.x && self.x <= WORLD_SIZE && 0 <= self.y && self.y <= WORLD_SIZE
    }

    /// Moves the position onto the nearest point of the world.
    pub fn clamp_to_world(self) -> (r: GeoPos)
        ensures
            r == self.clamped(),
            r.in_world(),
            self.in_world() ==> r == self,
    {
        GeoPos { x: clamp_i64(self.x, 0, WORLD_SIZE), y: clamp_i64(self.y, 0, WORLD_SIZE) }
    }
}

impl From<(i64, i64)> for GeoPos {
    /// The position with the given `x` and `y`.
    fn from(pair: (i64, i64)) -> (pos: GeoPos) {
        GeoPos { x: pair.0, y: pair.1 }
    }
}

impl vstd::std_specs::convert::FromSpecImpl<(i64, i64)> for GeoPos {
    open spec fn obeys_from_spec() -> bool {
        true
    }

    open spec fn from_spec(pair: (i64, i64)) -> GeoPos {
        GeoPos { x: pair.0, y: pair.1 }
    }
}

impl From<GeoPos> for (i64, i64) {
    /// The `x` and `y` of the position.
    fn from(pos: GeoPos) -> (pair: (i64, i64)) {
        (pos.x, pos.y)
    }
}

impl vstd::std_specs::convert::FromSpecImpl<GeoPos> for (i64, i64) {
    open spec fn obeys_from_spec() -> bool {
        true
    }

    open spec fn from_spec(pos: GeoPos) -> (i64, i64) {
        (pos.x, pos.y)
    }
}

/// A position on the screen, in screen units: 256 to the pixel.
#[derive(Clone, Copy, Debug, PartialEq, Eq, Structural)]
pub struct ScreenPos {
    /// Screen units to the right of the origin.
    pub x: i32,
    /// Screen units below the origin.
    pub y: i32,
}

impl ScreenPos {
    /// Whether both coordinates are within `SCREEN_LIMIT` of the origin.
    pub open spec fn wf(self) -> bool {
        -SCREEN_LIMIT <= self.x <= SCREEN_LIMIT && -SCREEN_LIMIT <= self.y <= SCREEN_LIMIT
    }

    /// Tests whether both coordinates are within `SCREEN_LIMIT` of the origin.
    pub fn is_valid(&self) -> (r: bool)
        ensures
            r == self.wf(),
    {
        -SCREEN_LIMIT <= self.x && self.x <= SCREEN_LIMIT && -SCREEN_LIMIT <= self.y && self.y
            <= SCREEN_LIMIT
    }
}

/// The rectangle that the map widget occupies on the screen.
#[derive(Clone, Copy, Debug, PartialEq, Eq, Structural)]
pub struct ScreenRect {
    /// The top-left corner.
    pub min: ScreenPos,
    /// The bottom-right corner.
    pub max: ScreenPos,
}

impl ScreenRect {
    /// Whether the corners are ordered and within `RECT_LIMIT` of the origin.
    pub open spec fn wf(self) -> bool {
        &&& -RECT_LIMIT <= self.min.x <= self.max.x <= RECT_LIMIT
        &&& -RECT_LIMIT <= self.min.y <= self.max.y <= RECT_LIMIT
    }

    /// The width in screen units.
    pub open spec fn spec_width(&self) -> int {
        self.max.x - self.min.x
    }

    /// The height in screen units.
    pub open spec fn spec_height(&self) -> int {
        self.max.y - self.min.y
    }

    /// The center, rounded down to whole screen units.
    pub open spec fn spec_center(&self) -> ScreenPos {
        ScreenPos {
            x: ((self.min.x + self.max.x) / 2) as i32,
            y: ((self.min.y + self.max.y) / 2) as i32,
        }
    }

    /// Whether `p` lies within the rectangle, edges included.
    pub open spec fn spec_contains(&self, p: ScreenPos) -> bool {
        self.min.x <= p.x <= self.max.x && self.min.y <= p.y <= self.max.y
    }

    /// Tests whether the corners are ordered and within `RECT_LIMIT` of the origin.
    pub fn is_valid(&self) -> (r: bool)
        ensures
            r == self.wf(),
    {
        -RECT_LIMIT <= self.min.x && self.min.x <= self.max.x && self.max.x <= RECT_LIMIT
            && -RECT_LIMIT <= self.min.y && self.min.y <= self.max.y && self.max.y <= RECT_LIMIT
    }

    /// The width in screen units.
    pub fn width(&self) -> (w: i64)
        ensures
            w == self.spec_width(),
    {
        self.max.x as i64 - self.min.x as i64
    }

    /// The height in screen units.
    pub fn height(&self) -> (h: i64)
        ensures
            h == self.spec_height(),
    {
        self.max.y as i64 - self.min.y as i64
    }

    /// The center, rounded down to whole screen units.
    #[verifier::when_used_as_spec(spec_center)]
    pub fn center(&self) -> (c: ScreenPos)
        ensures
            c == self.spec_center(),
    {
        let sx: i64 = self.min.x as i64 + self.max.x as i64;
        let sy: i64 = self.min.y as i64 + self.max.y as i64;
        ScreenPos { x: div_floor(sx, 2) as i32, y: div_floor(sy, 2) as i32 }
    }

    /// Whether `p` lies within the rectangle, edges included.
    #[verifier::when_used_as_spec(spec_contains)]
    pub fn contains(&self, p: ScreenPos) -> (r: bool)
        ensures
            r == self.spec_contains(p),
    {
        self.min.x <= p.x && p.x <= self.max.x && self.min.y <= p.y && p.y <= self.max.y
    }
}

/// The number of world units that half a screen unit spans at `zoom`.
pub open spec fn half_unit_span(zoom: u8) -> int {
    pow2((23 - zoom) as nat) as int
}

/// The number of world units that a screen unit spans at `zoom`.
pub open spec fn unit_span(zoom: u8) -> int {
    2 * half_unit_span(zoom)
}

/// The number of world units that a tile spans at `zoom`: a tile is 256 pixels
/// wide, which is 2^17 half screen units.
pub open spec fn tile_span(zoom: u8) -> int {
    0x2_0000 * half_unit_span(zoom)
}

/// The spans are powers of two between 16 and 2^23 world units, halving with
/// each zoom level, and the tiles of a level cover the world exactly.
pub proof fn lemma_span_bounds(zoom: u8)
    requires
        zoom <= MAX_ZOOM,
    ensures
        16 <= half_unit_span(zoom) <= 0x80_0000,
        zoom < MAX_ZOOM ==> half_unit_span(zoom) == 2 * half_unit_span((zoom + 1) as u8),
        tile_span(zoom) * pow2(zoom as nat) == WORLD_SIZE,
{
    lemma2_to64();
    if zoom < 19 {
        lemma_pow2_strictly_increases(4, (23 - zoom) as nat);
        lemma_pow2_unfold((23 - zoom) as nat);
    }
    if zoom > 0 {
        lemma_pow2_strictly_increases((23 - zoom) as nat, 23);
    }
    vstd::arithmetic::power2::lemma_pow2_adds((23 - zoom) as nat, zoom as nat);
    assert(0x2_0000 * pow2((23 - zoom) as nat) * pow2(zoom as nat) == 0x2_0000 * (pow2((23 - zoom) as nat)
        * pow2(zoom as nat))) by (nonlinear_arith);
}

/// The number of world units that half a screen unit spans at `zoom`.
pub fn half_unit_span_at(zoom: u8) -> (h: i64)
    requires
        zoom <= MAX_ZOOM,
    ensures
        h == half_unit_span(zoom),
        16 <= h <= 0x80_0000,
{
    proof {
        lemma_span_bounds(zoom);
    }
    pow2_i64(23 - zoom)
}

/// A helper for converting between geographical and screen coordinates, for one
/// snapshot of the viewport.
#[derive(Clone, Copy, Debug, PartialEq, Eq, Structural)]
pub struct MapProjection {
    /// The zoom level of the viewport.
    pub zoom: u8,
    /// The position shown at the center of the widget.
    pub center: GeoPos,
    /// The rectangle that the widget occupies on the screen.
    pub widget_rect: ScreenRect,
}

impl MapProjection {
    /// Whether the zoom level is in range, the center lies within the world and
    /// the widget rectangle is well formed.
    pub open spec fn wf(self) -> bool {
        &&& self.zoom <= MAX_ZOOM
        &&& self.center.in_world()
        &&& self.widget_rect.wf()
    }

    /// One coordinate of the screen position of a position: the offset from
    /// the viewport's center, scaled to screen units and measured from the
    /// center of the widget rectangle, before it is held within the screen's
    /// limit. Offsets are taken in half screen units, so that a rectangle of odd
    /// size has an exact center, and the result is rounded down to whole units.
    pub open spec fn project_axis_spec(geo: int, center: int, lo: int, hi: int, h: int) -> int {
        (lo + hi + (geo - center) / h) / 2
    }

    /// Whether `geo` is drawn within the screen's limit, so that its screen
    /// position is its true place and not the nearest place on the limit.
    pub open spec fn shows(self, geo: GeoPos) -> bool {
        let h = half_unit_span(self.zoom);
        let r = self.widget_rect;
        &&& -SCREEN_LIMIT <= Self::project_axis_spec(
            geo.x as int,
            self.center.x as int,
            r.min.x as int,
            r.max.x as int,
            h,
        ) <= SCREEN_LIMIT
        &&& -SCREEN_LIMIT <= Self::project_axis_spec(
            geo.y as int,
            self.center.y as int,
            r.min.y as int,
            r.max.y as int,
            h,
        ) <= SCREEN_LIMIT
    }

    /// The screen position of `geo`: the offset from the viewport's center,
    /// scaled to screen units and measured from the center of the widget
    /// rectangle. A position that would be drawn beyond the screen's limit, two
    /// million pixels from the origin, is drawn on the limit.
    pub open spec fn project_spec(self, geo: GeoPos) -> ScreenPos {
        let h = half_unit_span(self.zoom);
        let r = self.widget_rect;
        ScreenPos {
            x: clamp_int(
                Self::project_axis_spec(geo.x as int, self.center.x as int, r.min.x as int, r.max.x as int, h),
                -SCREEN_LIMIT as int,
                SCREEN_LIMIT as int,
            ) as i32,
            y: clamp_int(
                Self::project_axis_spec(geo.y as int, self.center.y as int, r.min.y as int, r.max.y as int, h),
                -SCREEN_LIMIT as int,
                SCREEN_LIMIT as int,
            ) as i32,
        }
    }

    /// The position shown at the screen position `p`: the exact inverse of the
    /// scaling in `project_spec`, without clamping to the world.
    pub open spec fn unproject_spec(self, p: ScreenPos) -> GeoPos {
        let h = half_unit_span(self.zoom);
        let r = self.widget_rect;
        GeoPos {
            x: (self.center.x + (2 * p.x - r.min.x - r.max.x) * h) as i64,
            y: (self.center.y + (2 * p.y - r.min.y - r.max.y) * h) as i64,
        }
    }

    /// Creates a new `MapProjection`.
    pub fn new(zoom: u8, center: GeoPos, widget_rect: ScreenRect) -> (p: Self)
        ensures
            p.zoom == zoom,
            p.center == center,
            p.widget_rect == widget_rect,
    {
        Self { zoom, center, widget_rect }
    }

    /// Tests whether the projection is well formed.
    pub fn is_valid(&self) -> (r: bool)
        ensures
            r == self.wf(),
    {
        self.zoom <= MAX_ZOOM && self.center.is_in_world() && self.widget_rect.is_valid()
    }

    /// Projects a geographical coordinate to a screen coordinate.
    pub fn project(&self, geo_pos: GeoPos) -> (p: ScreenPos)
        requires
            self.wf(),
            geo_pos.in_world(),
        ensures
            p == self.project_spec(geo_pos),
            p.wf(),
    {
        let h: i64 = half_unit_span_at(self.zoom);
        let x: i64 = project_axis(
            geo_pos.x,
            self.center.x,
            self.widget_rect.min.x,
            self.widget_rect.max.x,
            h,
        );
        let y: i64 = project_axis(
            geo_pos.y,
            self.center.y,
            self.widget_rect.min.y,
            self.widget_rect.max.y,
            h,
        );
        ScreenPos {
            x: clamp_i64(x, -(SCREEN_LIMIT as i64), SCREEN_LIMIT as i64) as i32,
            y: clamp_i64(y, -(SCREEN_LIMIT as i64), SCREEN_LIMIT as i64) as i32,
        }
    }

    /// Un-projects a screen coordinate to a geographical coordinate.
    pub fn unproject(&self, screen_pos: ScreenPos) -> (g: GeoPos)
        requires
            self.wf(),
            screen_pos.wf(),
        ensures
            g == self.unproject_spec(screen_pos),
    {
        let h: i64 = half_unit_span_at(self.zoom);
        let r = &self.widget_rect;
        let dx: i64 = 2 * (screen_pos.x as i64) - r.min.x as i64 - r.max.x as i64;
        let dy: i64 = 2 * (screen_pos.y as i64) - r.min.y as i64 - r.max.y as i64;
        assert(-0x8000_0000 * 0x80_0000 <= dx * h <= 0x8000_0000 * 0x80_0000) by (nonlinear_arith)
            requires
                -0x8000_0000 <= dx <= 0x8000_0000,
                0 <= h <= 0x80_0000,
        ;
        assert(-0x8000_0000 * 0x80_0000 <= dy * h <= 0x8000_0000 * 0x80_0000) by (nonlinear_arith)
            requires
                -0x8000_0000 <= dy <= 0x8000_0000,
                0 <= h <= 0x80_0000,
        ;
        GeoPos { x: self.center.x + dx * h, y: self.center.y + dy * h }
    }
}

/// One axis of `MapProjection::project`, before it is held within the limit.
fn project_axis(geo: i64, center: i64, lo: i32, hi: i32, h: i64) -> (p: i64)
    requires
        0 <= geo <= WORLD_SIZE,
        0 <= center <= WORLD_SIZE,
        -RECT_LIMIT <= lo <= hi <= RECT_LIMIT,
        16 <= h,
    ensures
        p == MapProjection::project_axis_spec(geo as int, center as int, lo as int, hi as int, h as int),
{
    let d: i64 = geo - center;
    let k: i64 = div_floor(d, h);
    assert(-0x10_0000_0000 <= k <= 0x10_0000_0000) by (nonlinear_arith)
        requires
            k == (d as int) / (h as int),
            -0x100_0000_0000 <= d <= 0x100_0000_0000,
            16 <= h,
    ;
    div_floor(lo as i64 + hi as i64 + k, 2)
}

/// Projecting a screen position's own geographical position gives the screen
/// position back, exactly, wherever that geographical position lies within the
/// world.
pub proof fn lemma_project_unproject(proj: MapProjection, p: ScreenPos)
    requires
        proj.wf(),
        p.wf(),
        proj.unproject_spec(p).in_world(),
    ensures
        proj.project_spec(proj.unproject_spec(p)) == p,
        proj.shows(proj.unproject_spec(p)),
{
    lemma_span_bounds(proj.zoom);
    let h = half_unit_span(proj.zoom);
    let r = proj.widget_rect;
    let dx = 2 * p.x - r.min.x - r.max.x;
    let dy = 2 * p.y - r.min.y - r.max.y;
    assert((dx * h) / h == dx && -0x8000_0000 * 0x80_0000 <= dx * h <= 0x8000_0000 * 0x80_0000)
        by (nonlinear_arith)
        requires
            0 < h <= 0x80_0000,
            -0x8000_0000 <= dx <= 0x8000_0000,
    ;
    assert((dy * h) / h == dy && -0x8000_0000 * 0x80_0000 <= dy * h <= 0x8000_0000 * 0x80_0000)
        by (nonlinear_arith)
        requires
            0 < h <= 0x80_0000,
            -0x8000_0000 <= dy <= 0x8000_0000,
    ;
    let g = proj.unproject_spec(p);
    assert(g.x - proj.center.x == dx * h);
    assert(g.y - proj.center.y == dy * h);
}

/// Every position of the world that lies within a million and a half pixels
/// of the viewport's center, along each axis, is drawn within the screen's
/// limit. Up to zoom level 12 that is the whole world.
pub proof fn lemma_near_positions_are_shown(proj: MapProjection, g: GeoPos)
    requires
        proj.wf(),
        g.in_world(),
        proj.zoom <= 12 || {
            &&& -0x1800_0000 * unit_span(proj.zoom) <= g.x - proj.center.x <= 0x1800_0000 * unit_span(proj.zoom)
            &&& -0x1800_0000 * unit_span(proj.zoom) <= g.y - proj.center.y <= 0x1800_0000 * unit_span(proj.zoom)
        },
    ensures
        proj.shows(g),
{
    lemma_span_bounds(proj.zoom);
    let h = half_unit_span(proj.zoom);
    let dx = g.x - proj.center.x;
    let dy = g.y - proj.center.y;
    if proj.zoom <= 12 {
        lemma2_to64();
        if proj.zoom < 12 {
            lemma_pow2_strictly_increases(11, (23 - proj.zoom) as nat);
        }
        assert(h >= 0x800);
        assert(-0x3000_0000 <= dx / h <= 0x3000_0000 && -0x3000_0000 <= dy / h <= 0x3000_0000)
            by (nonlinear_arith)
            requires
                -0x100_0000_0000 <= dx <= 0x100_0000_0000,
                -0x100_0000_0000 <= dy <= 0x100_0000_0000,
                h >= 0x800,
        ;
    } else {
        assert(-0x3000_0000 <= dx / h <= 0x3000_0000 && -0x3000_0000 <= dy / h <= 0x3000_0000)
            by (nonlinear_arith)
            requires
                -0x1800_0000 * (2 * h) <= dx <= 0x1800_0000 * (2 * h),
                -0x1800_0000 * (2 * h) <= dy <= 0x1800_0000 * (2 * h),
                h >= 16,
        ;
    }
}

/// Un-projecting the screen position of a geographical position gives the
/// position back up to rounding: it comes back less than one screen unit's
/// span, a 256th of a pixel, to the north-west of itself. This holds of every
/// position of the world that is drawn within the screen's limit.
pub proof fn lemma_unproject_project(proj: MapProjection, g: GeoPos)
    requires
        proj.wf(),
        g.in_world(),
        proj.shows(g),
    ensures
        g.x - unit_span(proj.zoom) < proj.unproject_spec(proj.project_spec(g)).x <= g.x,
        g.y - unit_span(proj.zoom) < proj.unproject_spec(proj.project_spec(g)).y <= g.y,
{
    lemma_span_bounds(proj.zoom);
    let h = half_unit_span(proj.zoom);
    let r = proj.widget_rect;
    lemma_axis_round_trip(g.x as int, proj.center.x as int, r.min.x as int, r.max.x as int, h);
    lemma_axis_round_trip(g.y as int, proj.center.y as int, r.min.y as int, r.max.y as int, h);
}

/// One axis of `lemma_unproject_project`, over the integers.
proof fn lemma_axis_round_trip(geo: int, center: int, lo: int, hi: int, h: int)
    requires
        0 <= geo <= WORLD_SIZE,
        0 <= center <= WORLD_SIZE,
        -RECT_LIMIT <= lo <= hi <= RECT_LIMIT,
        16 <= h <= 0x80_0000,
    ensures
        ({
            let p = MapProjection::project_axis_spec(geo, center, lo, hi, h);
            let back = center + (2 * p - lo - hi) * h;
            geo - 2 * h < back <= geo
        }),
{
    let d = geo - center;
    let k = d / h;
    let p = (lo + hi + k) / 2;
    assert(k * h <= d < k * h + h) by (nonlinear_arith)
        requires
            k == d / h,
            16 <= h,
    ;
    let e = 2 * p - lo - hi;
    assert(k - 1 <= e <= k);
    assert(k * h - h <= e * h <= k * h) by (nonlinear_arith)
        requires
            k - 1 <= e <= k,
            h > 0,
    ;
}

/// The center of the viewport is drawn at the center of the widget rectangle.
pub proof fn lemma_project_center(proj: MapProjection)
    requires
        proj.wf(),
    ensures
        proj.project_spec(proj.center) == proj.widget_rect.spec_center(),
{
    lemma_span_bounds(proj.zoom);
    let h = half_unit_span(proj.zoom);
    assert(0int / h == 0) by (nonlinear_arith)
        requires
            h > 0,
    ;
}

} // verus!
