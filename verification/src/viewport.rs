//! The viewport controller: the center and zoom level of the map, and how
//! panning and zooming change them.

use vstd::prelude::*;
use vstd::arithmetic::power2::pow2;
use crate::MAX_ZOOM;
use crate::MIN_ZOOM;
use crate::arith::clamp_i64;
use crate::arith::clamp_int;
use crate::arith::pow2_i64;
use crate::input::PointerInput;
use crate::projection::half_unit_span;
use crate::projection::half_unit_span_at;
use crate::projection::lemma_span_bounds;
use crate::projection::GeoPos;
use crate::projection::MapProjection;
use crate::projection::ScreenPos;
use crate::projection::ScreenRect;
use crate::projection::UNITS_PER_PIXEL;
use crate::projection::WORLD_SIZE;

verus! {

/// The width and height of the world in pixels at `zoom`.
pub open spec fn world_pixel_size(zoom: u8) -> int {
    pow2((8 + zoom) as nat) as int
}

/// The width and height of the world in screen units at `zoom`.
pub open spec fn world_unit_size(zoom: u8) -> int {
    UNITS_PER_PIXEL * world_pixel_size(zoom)
}

/// One axis of a pan: the center moves against the drag, and is then held so
/// that the view does not reach past the edge of the world; where the world is
/// smaller than the view, the world is centered instead.
///
/// `c` is the center and `h` the span of half a screen unit, both in world
/// units; `delta` is the drag and `view` the size of the widget, both in screen
/// units.
pub open spec fn pan_axis(c: int, delta: int, view: int, h: int) -> int {
    let lo = view * h;
    let hi = WORLD_SIZE - view * h;
    if lo > hi {
        WORLD_SIZE / 2
    } else {
        clamp_int(c - 2 * delta * h, lo, hi)
    }
}

/// One axis of a zoom about a screen position: the new center is the position
/// under the pointer, less the pointer's offset from the middle of the widget at
/// the new scale, held within the world.
///
/// `c` is the center, `h_old` and `h_new` the spans of half a screen unit
/// before and after, all in world units; `off` is twice the pointer's offset
/// from the middle of the widget, in screen units.
pub open spec fn zoom_axis(c: int, off: int, h_old: int, h_new: int) -> int {
    clamp_int(c + off * h_old - off * h_new, 0, WORLD_SIZE as int)
}

/// The zoom level after a scroll of the wheel: one level in the direction of the
/// scroll, within the limits. Zooming out is refused where the world would
/// become narrower or lower than the widget.
pub open spec fn scroll_target(zoom: u8, scroll: int, rect: ScreenRect) -> u8 {
    if scroll > 0 {
        if zoom < MAX_ZOOM {
            (zoom + 1) as u8
        } else {
            zoom
        }
    } else if scroll < 0 {
        if zoom > MIN_ZOOM && world_unit_size((zoom - 1) as u8) >= rect.spec_width()
            && world_unit_size((zoom - 1) as u8) >= rect.spec_height() {
            (zoom - 1) as u8
        } else {
            zoom
        }
    } else {
        zoom
    }
}

/// The center and zoom level of the map.
#[derive(Clone, Copy, Debug, PartialEq, Eq, Structural)]
pub struct Viewport {
    /// The geographical center of the map.
    pub center: GeoPos,
    /// The zoom level of the map.
    pub zoom: u8,
}

impl Viewport {
    /// Whether the zoom level is within the limits and the center within the
    /// world.
    pub open spec fn wf(self) -> bool {
        self.zoom <= MAX_ZOOM && self.center.in_world()
    }

    /// The projector for this viewport in the widget rectangle `rect`.
    pub open spec fn projection(self, rect: ScreenRect) -> MapProjection {
        MapProjection { zoom: self.zoom, center: self.center, widget_rect: rect }
    }

    /// The viewport after a drag by `delta`, in screen units.
    pub open spec fn panned(self, delta: ScreenPos, rect: ScreenRect) -> Viewport {
        let h = half_unit_span(self.zoom);
        Viewport {
            center: GeoPos {
                x: pan_axis(self.center.x as int, delta.x as int, rect.spec_width(), h) as i64,
                y: pan_axis(self.center.y as int, delta.y as int, rect.spec_height(), h) as i64,
            },
            zoom: self.zoom,
        }
    }

    /// The viewport at `new_zoom`, with the position under the screen position
    /// `p` kept in place.
    pub open spec fn zoomed_about(self, new_zoom: u8, p: ScreenPos, rect: ScreenRect) -> Viewport {
        let h_old = half_unit_span(self.zoom);
        let h_new = half_unit_span(new_zoom);
        Viewport {
            center: GeoPos {
                x: zoom_axis(
                    self.center.x as int,
                    2 * p.x - rect.min.x - rect.max.x,
                    h_old,
                    h_new,
                ) as i64,
                y: zoom_axis(
                    self.center.y as int,
                    2 * p.y - rect.min.y - rect.max.y,
                    h_old,
                    h_new,
                ) as i64,
            },
            zoom: new_zoom,
        }
    }

    /// The viewport after a double click: one level closer, about the pointer.
    pub open spec fn double_clicked(self, input: PointerInput, rect: ScreenRect) -> Viewport {
        match input.interact_pointer_pos {
            Some(p) if input.double_clicked && self.zoom < MAX_ZOOM => self.zoomed_about(
                (self.zoom + 1) as u8,
                p,
                rect,
            ),
            _ => self,
        }
    }

    /// The viewport after the scroll wheel moved over the map.
    pub open spec fn scrolled(self, input: PointerInput, rect: ScreenRect) -> Viewport {
        match input.hover_pos {
            Some(p) if input.hovered && scroll_target(self.zoom, input.scroll as int, rect)
                != self.zoom => self.zoomed_about(
                scroll_target(self.zoom, input.scroll as int, rect),
                p,
                rect,
            ),
            _ => self,
        }
    }

    /// The viewport after one frame of input: a drag pans, then a double click
    /// zooms in, then the scroll wheel zooms in or out.
    pub open spec fn after_input(self, input: PointerInput, rect: ScreenRect) -> Viewport {
        let dragged = if input.dragged {
            self.panned(input.drag_delta, rect)
        } else {
            self
        };
        dragged.double_clicked(input, rect).scrolled(input, rect)
    }

    /// The geographical position under the pointer after one frame of input, if
    /// the pointer is over the map. It is read after a drag and a double click
    /// have moved the map and before the scroll wheel does.
    pub open spec fn pointer_position(self, input: PointerInput, rect: ScreenRect) -> Option<
        GeoPos,
    > {
        let dragged = if input.dragged {
            self.panned(input.drag_delta, rect)
        } else {
            self
        };
        match input.hover_pos {
            Some(p) if input.hovered => Some(
                dragged.double_clicked(input, rect).projection(rect).unproject_spec(p),
            ),
            _ => None,
        }
    }

    /// Tests whether the viewport is well formed.
    pub fn is_valid(&self) -> (r: bool)
        ensures
            r == self.wf(),
    {
        self.zoom <= MAX_ZOOM && self.center.is_in_world()
    }

    /// Moves the center against a drag of `delta`, in screen units.
    pub fn pan(&mut self, delta: ScreenPos, rect: &ScreenRect)
        requires
            old(self).wf(),
            delta.wf(),
            rect.wf(),
        ensures
            *final(self) == old(self).panned(delta, *rect),
            final(self).wf(),
    {
        let h: i64 = half_unit_span_at(self.zoom);
        let x: i64 = pan_one_axis(self.center.x, delta.x, rect.width(), h);
        let y: i64 = pan_one_axis(self.center.y, delta.y, rect.height(), h);
        self.center = GeoPos { x, y };
    }

    /// Changes the zoom level and keeps the position under `p` in place.
    pub fn zoom_about(&mut self, new_zoom: u8, p: ScreenPos, rect: &ScreenRect)
        requires
            old(self).wf(),
            new_zoom <= MAX_ZOOM,
            p.wf(),
            rect.wf(),
        ensures
            *final(self) == old(self).zoomed_about(new_zoom, p, *rect),
            final(self).wf(),
    {
        let h_old: i64 = half_unit_span_at(self.zoom);
        let h_new: i64 = half_unit_span_at(new_zoom);
        let off_x: i64 = 2 * (p.x as i64) - rect.min.x as i64 - rect.max.x as i64;
        let off_y: i64 = 2 * (p.y as i64) - rect.min.y as i64 - rect.max.y as i64;
        let x: i64 = zoom_one_axis(self.center.x, off_x, h_old, h_new);
        let y: i64 = zoom_one_axis(self.center.y, off_y, h_old, h_new);
        self.center = GeoPos { x, y };
        self.zoom = new_zoom;
    }

    /// Applies one frame of input and returns the geographical position under the
    /// pointer, if the pointer is over the map.
    pub fn handle_input(&mut self, input: &PointerInput, rect: &ScreenRect) -> (mouse_pos: Option<
        GeoPos,
    >)
        requires
            old(self).wf(),
            input.wf(),
            rect.wf(),
        ensures
            *final(self) == old(self).after_input(*input, *rect),
            mouse_pos == old(self).pointer_position(*input, *rect),
            final(self).wf(),
    {
        // Handle panning
        if input.dragged {
            self.pan(input.drag_delta, rect);
        }
        // Handle double-click to zoom and center

        if input.double_clicked && self.zoom < MAX_ZOOM {
            if let Some(pointer_pos) = input.interact_pointer_pos {
                let new_zoom: u8 = self.zoom + 1;
                self.zoom_about(new_zoom, pointer_pos, rect);
            }
        }
        // Handle zooming and mouse position

        if input.hovered {
            if let Some(pointer_pos) = input.hover_pos {
                let projection = MapProjection::new(self.zoom, self.center, *rect);
                let mouse_pos = projection.unproject(pointer_pos);
                let new_zoom: u8 = scroll_zoom(self.zoom, input.scroll, rect);
                if new_zoom != self.zoom {
                    self.zoom_about(new_zoom, pointer_pos, rect);
                }
                return Some(mouse_pos);
            }
        }
        None
    }
}

/// The width and height of the world in pixels at `zoom`.
pub fn world_pixels(zoom: u8) -> (r: i64)
    requires
        zoom <= MAX_ZOOM,
    ensures
        r == world_pixel_size(zoom),
        1 <= r <= 0x800_0000,
{
    proof {
        vstd::arithmetic::power2::lemma2_to64();
        if zoom < MAX_ZOOM {
            vstd::arithmetic::power2::lemma_pow2_strictly_increases((8 + zoom) as nat, 27);
        }
    }
    pow2_i64(8 + zoom)
}

/// The zoom level after a scroll of the wheel.
pub fn scroll_zoom(zoom: u8, scroll: i32, rect: &ScreenRect) -> (r: u8)
    requires
        zoom <= MAX_ZOOM,
        rect.wf(),
    ensures
        r == scroll_target(zoom, scroll as int, *rect),
        r <= MAX_ZOOM,
{
    if scroll > 0 {
        if zoom < MAX_ZOOM {
            zoom + 1
        } else {
            zoom
        }
    } else if scroll < 0 {
        if zoom > MIN_ZOOM {
            let world: i64 = UNITS_PER_PIXEL as i64 * world_pixels(zoom - 1);
            // If the world would become smaller than the widget, reject the zoom.
            if world >= rect.width() && world >= rect.height() {
                zoom - 1
            } else {
                zoom
            }
        } else {
            zoom
        }
    } else {
        zoom
    }
}

/// One axis of `Viewport::pan`.
fn pan_one_axis(c: i64, delta: i32, view: i64, h: i64) -> (r: i64)
    requires
        0 <= c <= WORLD_SIZE,
        -0x2000_0000 <= delta <= 0x2000_0000,
        0 <= view <= 0x1000_0000,
        16 <= h <= 0x80_0000,
    ensures
        r == pan_axis(c as int, delta as int, view as int, h as int),
        0 <= r <= WORLD_SIZE,
{
    assert(0 <= view * h <= 0x1000_0000 * 0x80_0000) by (nonlinear_arith)
        requires
            0 <= view <= 0x1000_0000,
            0 <= h <= 0x80_0000,
    ;
    assert(-0x2000_0000 * 0x80_0000 <= delta * h <= 0x2000_0000 * 0x80_0000) by (nonlinear_arith)
        requires
            -0x2000_0000 <= delta <= 0x2000_0000,
            0 <= h <= 0x80_0000,
    ;
    let half: i64 = view * h;
    let lo: i64 = half;
    let hi: i64 = WORLD_SIZE - half;
    if lo > hi {
        WORLD_SIZE / 2
    } else {
        let moved: i64 = c - 2 * (delta as i64 * h);
        assert(moved == c - 2 * delta * h) by (nonlinear_arith)
            requires
                moved == c - 2 * (delta * h),
        ;
        clamp_i64(moved, lo, hi)
    }
}

/// One axis of `Viewport::zoom_about`.
fn zoom_one_axis(c: i64, off: i64, h_old: i64, h_new: i64) -> (r: i64)
    requires
        0 <= c <= WORLD_SIZE,
        -0x8000_0000 <= off <= 0x8000_0000,
        16 <= h_old <= 0x80_0000,
        16 <= h_new <= 0x80_0000,
    ensures
        r == zoom_axis(c as int, off as int, h_old as int, h_new as int),
        0 <= r <= WORLD_SIZE,
{
    assert(-0x8000_0000 * 0x80_0000 <= off * h_old <= 0x8000_0000 * 0x80_0000) by (nonlinear_arith)
        requires
            -0x8000_0000 <= off <= 0x8000_0000,
            0 <= h_old <= 0x80_0000,
    ;
    assert(-0x8000_0000 * 0x80_0000 <= off * h_new <= 0x8000_0000 * 0x80_0000) by (nonlinear_arith)
        requires
            -0x8000_0000 <= off <= 0x8000_0000,
            0 <= h_new <= 0x80_0000,
    ;
    clamp_i64(c + off * h_old - off * h_new, 0, WORLD_SIZE)
}

/// Where the world is at least as large as the widget, a pan leaves the whole
/// view within the world; where it is smaller, the pan centers the world.
pub proof fn lemma_pan_stays_in_world(vp: Viewport, delta: ScreenPos, rect: ScreenRect)
    requires
        vp.wf(),
        delta.wf(),
        rect.wf(),
    ensures
        ({
            let h = half_unit_span(vp.zoom);
            let c = vp.panned(delta, rect).center;
            &&& vp.panned(delta, rect).zoom == vp.zoom
            &&& (2 * rect.spec_width() * h <= WORLD_SIZE ==> 0 <= c.x - rect.spec_width() * h
                && c.x + rect.spec_width() * h <= WORLD_SIZE)
            &&& (2 * rect.spec_width() * h > WORLD_SIZE ==> c.x == WORLD_SIZE / 2)
            &&& (2 * rect.spec_height() * h <= WORLD_SIZE ==> 0 <= c.y - rect.spec_height() * h
                && c.y + rect.spec_height() * h <= WORLD_SIZE)
            &&& (2 * rect.spec_height() * h > WORLD_SIZE ==> c.y == WORLD_SIZE / 2)
        }),
{
    lemma_span_bounds(vp.zoom);
    let h = half_unit_span(vp.zoom);
    let w = rect.spec_width();
    let t = rect.spec_height();
    assert(0 <= w * h <= 0x1000_0000 * 0x80_0000 && 0 <= t * h <= 0x1000_0000 * 0x80_0000 && 2 * w
        * h == 2 * (w * h) && 2 * t * h == 2 * (t * h)) by (nonlinear_arith)
        requires
            0 <= w <= 0x1000_0000,
            0 <= t <= 0x1000_0000,
            0 <= h <= 0x80_0000,
    ;
}

/// A zoom about a screen position keeps the geographical position under it
/// where it was, unless the new center had to be moved back into the world.
pub proof fn lemma_zoom_keeps_pointer_position(
    vp: Viewport,
    new_zoom: u8,
    p: ScreenPos,
    rect: ScreenRect,
)
    requires
        vp.wf(),
        new_zoom <= MAX_ZOOM,
        p.wf(),
        rect.wf(),
        ({
            let target = vp.projection(rect).unproject_spec(p);
            let h = half_unit_span(new_zoom);
            &&& 0 <= target.x - (2 * p.x - rect.min.x - rect.max.x) * h <= WORLD_SIZE
            &&& 0 <= target.y - (2 * p.y - rect.min.y - rect.max.y) * h <= WORLD_SIZE
        }),
    ensures
        vp.zoomed_about(new_zoom, p, rect).projection(rect).unproject_spec(p) == vp.projection(
            rect,
        ).unproject_spec(p),
{
    lemma_span_bounds(vp.zoom);
    lemma_span_bounds(new_zoom);
    let h_old = half_unit_span(vp.zoom);
    let h_new = half_unit_span(new_zoom);
    let off_x = 2 * p.x - rect.min.x - rect.max.x;
    let off_y = 2 * p.y - rect.min.y - rect.max.y;
    assert(-0x8000_0000 * 0x80_0000 <= off_x * h_old <= 0x8000_0000 * 0x80_0000
        && -0x8000_0000 * 0x80_0000 <= off_y * h_old <= 0x8000_0000 * 0x80_0000)
        by (nonlinear_arith)
        requires
            -0x8000_0000 <= off_x <= 0x8000_0000,
            -0x8000_0000 <= off_y <= 0x8000_0000,
            0 <= h_old <= 0x80_0000,
    ;
}

/// A frame in which the map is neither dragged nor double-clicked nor scrolled
/// leaves the viewport as it was.
pub proof fn lemma_quiet_frame_changes_nothing(vp: Viewport, input: PointerInput, rect: ScreenRect)
    requires
        !input.dragged,
        !input.double_clicked,
        input.scroll == 0 || !input.hovered || input.hover_pos is None,
    ensures
        vp.after_input(input, rect) == vp,
{
}

/// The zoom level moves by at most one level in a frame per gesture, never
/// leaves the limits, and does not move at all at a limit.
pub proof fn lemma_zoom_steps(vp: Viewport, input: PointerInput, rect: ScreenRect)
    requires
        vp.wf(),
    ensures
        vp.after_input(input, rect).zoom <= MAX_ZOOM,
        vp.zoom - 1 <= vp.after_input(input, rect).zoom <= vp.zoom + 2,
        scroll_target(MAX_ZOOM, 1, rect) == MAX_ZOOM,
        scroll_target(MIN_ZOOM, -1, rect) == MIN_ZOOM,
{
}

} // verus!
