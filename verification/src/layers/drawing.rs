//! A layer for freeform drawing on the map.

use vstd::prelude::*;
use crate::input::CursorIcon;
use crate::input::PointerInput;
use crate::layers::all_in_world;
use crate::layers::command_views;
use crate::layers::crossing_factor;
use crate::layers::crossing_factor_spec;
use crate::layers::dist_sq;
use crate::layers::distance_sq;
use crate::layers::dist_sq_to_segment;
use crate::layers::dist_sq_to_segment_spec;
use crate::layers::geo_under;
use crate::layers::lerp;
use crate::layers::lerp_spec;
use crate::layers::points_in_world;
use crate::layers::position_under;
use crate::layers::project_all;
use crate::layers::projected;
use crate::layers::DrawCommand;
use crate::layers::DrawCommandView;
use crate::layers::Layer;
use crate::projection::GeoPos;
use crate::projection::MapProjection;
use crate::projection::SCREEN_LIMIT;
use crate::projection::UNITS_PER_PIXEL;
use crate::projection::ScreenPos;
use crate::style::Color;
use crate::style::Stroke;

verus! {

/// A polyline on the map.
#[derive(Debug, PartialEq, Eq)]
pub struct Polyline(pub Vec<GeoPos>);

/// The mode of the `DrawingLayer`.
#[derive(Clone, Copy, Debug, PartialEq, Eq, Structural)]
pub enum DrawMode {
    /// The layer is not interactive.
    Disabled,
    /// The user can draw on the map.
    Draw,
    /// The user can erase drawings.
    Erase,
}

impl Default for DrawMode {
    fn default() -> (m: DrawMode)
        ensures
            m == DrawMode::Disabled,
    {
        DrawMode::Disabled
    }
}

/// Whether the eraser of squared radius `radius_sq` at `pointer` covers the
/// position `p`, as it is drawn.
pub open spec fn point_erased(projection: MapProjection, p: GeoPos, pointer: ScreenPos, radius_sq: int) -> bool {
    dist_sq(projection.project_spec(p), pointer) < radius_sq
}

/// Whether the eraser of squared radius `radius_sq` at `pointer` reaches the
/// segment from `a` to `b`, as it is drawn.
pub open spec fn segment_reached(
    projection: MapProjection,
    a: GeoPos,
    b: GeoPos,
    pointer: ScreenPos,
    radius_sq: int,
) -> bool {
    let d = dist_sq_to_segment_spec(pointer, projection.project_spec(a), projection.project_spec(b));
    d.0 < radius_sq * d.1
}

/// Where the segment from `a` to `b` is cut: the position of the point where
/// the drawn segment crosses the edge of the eraser, on its way in or, if
/// `leaving`, on its way out, held within the world.
pub open spec fn segment_cut(
    projection: MapProjection,
    a: GeoPos,
    b: GeoPos,
    pointer: ScreenPos,
    radius_sq: int,
    leaving: bool,
) -> GeoPos {
    let pa = projection.project_spec(a);
    let pb = projection.project_spec(b);
    let t = crossing_factor_spec(pa, pb, pointer, radius_sq, leaving);
    projection.unproject_spec(lerp_spec(pa, pb, t.0, t.1)).clamped()
}

/// The walk along a polyline while it is split: the pieces that are complete
/// and the piece that is being gathered.
pub struct SplitWalk {
    /// The complete pieces.
    pub done: Seq<Seq<GeoPos>>,
    /// The piece being gathered; empty while the walk is under the eraser.
    pub current: Seq<GeoPos>,
}

/// The walk before the first segment: the first point is gathered unless the
/// eraser covers it.
pub open spec fn split_start(first: GeoPos, first_erased: bool) -> SplitWalk {
    if first_erased {
        SplitWalk { done: Seq::empty(), current: Seq::empty() }
    } else {
        SplitWalk { done: Seq::empty(), current: seq![first] }
    }
}

/// The walk after one more segment, which ends in `next`.
///
/// `start_erased` and `end_erased` say whether the eraser covers the segment's
/// ends, `reached` whether it reaches the segment at all, and `cut_in` and
/// `cut_out` are where the segment enters and leaves the eraser.
///
/// A segment that enters the eraser closes the piece with the point of entry.
/// A segment that leaves it opens a piece with the point of exit and the
/// segment's end. A segment that has both ends outside and is reached does
/// both: it is cut twice. A segment that is not reached adds its end to the
/// piece, and a segment with both ends covered adds nothing.
pub open spec fn split_step(
    walk: SplitWalk,
    start_erased: bool,
    end_erased: bool,
    reached: bool,
    cut_in: GeoPos,
    cut_out: GeoPos,
    next: GeoPos,
) -> SplitWalk {
    if end_erased {
        if start_erased {
            walk
        } else {
            SplitWalk { done: walk.done.push(walk.current.push(cut_in)), current: Seq::empty() }
        }
    } else if start_erased {
        SplitWalk { done: walk.done, current: seq![cut_out, next] }
    } else if reached {
        SplitWalk { done: walk.done.push(walk.current.push(cut_in)), current: seq![cut_out, next] }
    } else {
        SplitWalk { done: walk.done, current: walk.current.push(next) }
    }
}

/// The walk after the first `n` segments of `polyline`.
pub open spec fn split_walk(
    polyline: Seq<GeoPos>,
    pointer: ScreenPos,
    radius_sq: int,
    projection: MapProjection,
    n: int,
) -> SplitWalk
    decreases n,
{
    if n <= 0 {
        split_start(polyline[0], point_erased(projection, polyline[0], pointer, radius_sq))
    } else {
        split_step(
            split_walk(polyline, pointer, radius_sq, projection, n - 1),
            point_erased(projection, polyline[n - 1], pointer, radius_sq),
            point_erased(projection, polyline[n], pointer, radius_sq),
            segment_reached(projection, polyline[n - 1], polyline[n], pointer, radius_sq),
            segment_cut(projection, polyline[n - 1], polyline[n], pointer, radius_sq, false),
            segment_cut(projection, polyline[n - 1], polyline[n], pointer, radius_sq, true),
            polyline[n],
        )
    }
}

/// The pieces that remain of `polyline` after the eraser of squared radius
/// `radius_sq` at `pointer` passed over it: the walk over all its segments, and
/// the last piece if it has two points or more. A polyline of fewer than two
/// points leaves nothing.
pub open spec fn split_spec(
    polyline: Seq<GeoPos>,
    pointer: ScreenPos,
    radius_sq: int,
    projection: MapProjection,
) -> Seq<Seq<GeoPos>> {
    if polyline.len() < 2 {
        Seq::empty()
    } else {
        let walk = split_walk(polyline, pointer, radius_sq, projection, polyline.len() - 1);
        if walk.current.len() > 1 {
            walk.done.push(walk.current)
        } else {
            walk.done
        }
    }
}

/// The views of the vectors of `lines`.
pub open spec fn line_views(lines: Seq<Vec<GeoPos>>) -> Seq<Seq<GeoPos>> {
    lines.map_values(|l: Vec<GeoPos>| l@)
}

/// Tests whether the eraser covers the position `p`, as it is drawn.
fn is_point_erased(projection: &MapProjection, p: GeoPos, pointer: ScreenPos, radius_sq: u64) -> (r: bool)
    requires
        projection.wf(),
        p.in_world(),
    ensures
        r == point_erased(*projection, p, pointer, radius_sq as int),
{
    distance_sq(projection.project(p), pointer) < radius_sq as u128
}

/// Tests whether the eraser reaches the drawn segment from `a` to `b`.
fn is_segment_reached(
    projection: &MapProjection,
    a: GeoPos,
    b: GeoPos,
    pointer: ScreenPos,
    radius_sq: u64,
) -> (r: bool)
    requires
        projection.wf(),
        a.in_world(),
        b.in_world(),
        pointer.wf(),
    ensures
        r == segment_reached(*projection, a, b, pointer, radius_sq as int),
{
    let pa = projection.project(a);
    let pb = projection.project(b);
    dist_sq_to_segment(pointer, pa, pb).is_below(radius_sq as u128)
}

/// Where the drawn segment from `a` to `b` is cut.
fn cut_segment(
    projection: &MapProjection,
    a: GeoPos,
    b: GeoPos,
    pointer: ScreenPos,
    radius_sq: u64,
    leaving: bool,
) -> (r: GeoPos)
    requires
        projection.wf(),
        a.in_world(),
        b.in_world(),
        pointer.wf(),
    ensures
        r == segment_cut(*projection, a, b, pointer, radius_sq as int, leaving),
        r.in_world(),
{
    let pa = projection.project(a);
    let pb = projection.project(b);
    let t = crossing_factor(pa, pb, pointer, radius_sq, leaving);
    let split_point_screen = lerp(pa, pb, t);
    projection.unproject(split_point_screen).clamp_to_world()
}

/// Splits a polyline into multiple polylines where the eraser, a disc of the
/// squared radius `erase_radius_sq` around `pointer_pos`, lies over it.
pub fn split_polyline_by_erase_circle(
    polyline: &Vec<GeoPos>,
    pointer_pos: ScreenPos,
    erase_radius_sq: u64,
    projection: &MapProjection,
) -> (pieces: Vec<Vec<GeoPos>>)
    requires
        projection.wf(),
        pointer_pos.wf(),
        all_in_world(polyline@),
    ensures
        line_views(pieces@) == split_spec(polyline@, pointer_pos, erase_radius_sq as int, *projection),
        forall|i: int| 0 <= i < pieces@.len() ==> all_in_world((#[trigger] pieces@[i])@),
{
    let mut new_polylines: Vec<Vec<GeoPos>> = Vec::new();
    if polyline.len() < 2 {
        assert(line_views(new_polylines@) =~= Seq::<Seq<GeoPos>>::empty());
        return new_polylines;
    }
    let mut current_line: Vec<GeoPos> = Vec::new();
    assert(polyline@[0].in_world());
    // Whether the walk is under the eraser at the point it has come to.
    let mut erased: bool = is_point_erased(projection, polyline[0], pointer_pos, erase_radius_sq);
    if !erased {
        current_line.push(polyline[0]);
    }
    let ghost r2: int = erase_radius_sq as int;
    let mut i: usize = 0;
    proof {
        assert(line_views(new_polylines@) =~= Seq::<Seq<GeoPos>>::empty());
        assert(current_line@ =~= split_walk(polyline@, pointer_pos, r2, *projection, 0).current);
    }
    while i < polyline.len() - 1
        invariant
            projection.wf(),
            pointer_pos.wf(),
            all_in_world(polyline@),
            polyline@.len() >= 2,
            r2 == erase_radius_sq as int,
            i <= polyline@.len() - 1,
            erased == point_erased(*projection, polyline@[i as int], pointer_pos, r2),
            line_views(new_polylines@) == split_walk(polyline@, pointer_pos, r2, *projection, i as int).done,
            current_line@ == split_walk(polyline@, pointer_pos, r2, *projection, i as int).current,
            forall|k: int| 0 <= k < new_polylines@.len() ==> all_in_world((#[trigger] new_polylines@[k])@),
            all_in_world(current_line@),
        decreases polyline@.len() - 1 - i,
    {
        let p1_geo: GeoPos = polyline[i];
        let p2_geo: GeoPos = polyline[i + 1];
        assert(polyline@[i as int].in_world() && polyline@[i + 1].in_world());
        let ghost done_before: Seq<Vec<GeoPos>> = new_polylines@;
        let end_erased = is_point_erased(projection, p2_geo, pointer_pos, erase_radius_sq);
        if end_erased {
            if !erased {
                // The segment enters the eraser: close the line where it does.
                let cut_in = cut_segment(projection, p1_geo, p2_geo, pointer_pos, erase_radius_sq, false);
                current_line.push(cut_in);
                let ghost piece: Seq<GeoPos> = current_line@;
                new_polylines.push(current_line);
                current_line = Vec::new();
                proof {
                    assert(line_views(new_polylines@) =~= line_views(done_before).push(piece));
                }
            }
        } else if erased {
            // The segment leaves the eraser: start a new line where it does.
            let cut_out = cut_segment(projection, p1_geo, p2_geo, pointer_pos, erase_radius_sq, true);
            current_line = Vec::new();
            current_line.push(cut_out);
            current_line.push(p2_geo);
            assert(current_line@ =~= seq![cut_out, p2_geo]);
        } else if is_segment_reached(projection, p1_geo, p2_geo, pointer_pos, erase_radius_sq) {
            // Both ends are outside, but the eraser lies over the middle: the
            // segment is cut where it enters and where it leaves.
            let cut_in = cut_segment(projection, p1_geo, p2_geo, pointer_pos, erase_radius_sq, false);
            let cut_out = cut_segment(projection, p1_geo, p2_geo, pointer_pos, erase_radius_sq, true);
            current_line.push(cut_in);
            let ghost piece: Seq<GeoPos> = current_line@;
            new_polylines.push(current_line);
            current_line = Vec::new();
            current_line.push(cut_out);
            current_line.push(p2_geo);
            proof {
                assert(line_views(new_polylines@) =~= line_views(done_before).push(piece));
                assert(current_line@ =~= seq![cut_out, p2_geo]);
            }
        } else {
            // Continue the line.
            current_line.push(p2_geo);
        }
        erased = end_erased;
        i = i + 1;
    }
    if current_line.len() > 1 {
        let ghost done_before: Seq<Vec<GeoPos>> = new_polylines@;
        let ghost piece: Seq<GeoPos> = current_line@;
        new_polylines.push(current_line);
        proof {
            assert(line_views(new_polylines@) =~= line_views(done_before).push(piece));
        }
    }
    new_polylines
}

/// The views of the polylines of `polylines`.
pub open spec fn polyline_views(polylines: Seq<Polyline>) -> Seq<Seq<GeoPos>> {
    polylines.map_values(|p: Polyline| p.0@)
}

/// The screen position one pixel to the right of `p`, or `p` itself at the
/// screen limit.
pub open spec fn right_of(p: ScreenPos) -> ScreenPos {
    if p.x <= SCREEN_LIMIT - UNITS_PER_PIXEL {
        ScreenPos { x: (p.x + UNITS_PER_PIXEL) as i32, y: p.y }
    } else {
        p
    }
}

/// The lines with `point` added to the last of them.
pub open spec fn extend_last(lines: Seq<Seq<GeoPos>>, point: GeoPos) -> Seq<Seq<GeoPos>> {
    lines.update(lines.len() - 1, lines.last().push(point))
}

/// The lines after a click: with shift held, the last line grows by the
/// position clicked; otherwise a new line begins there, one pixel long.
pub open spec fn after_click(lines: Seq<Seq<GeoPos>>, input: PointerInput, projection: MapProjection) -> Seq<
    Seq<GeoPos>,
> {
    match input.interact_pointer_pos {
        Some(p) if input.clicked => if lines.len() > 0 && input.shift {
            extend_last(lines, geo_under(projection, p))
        } else {
            lines.push(seq![geo_under(projection, p), geo_under(projection, right_of(p))])
        },
        _ => lines,
    }
}

/// The lines after a drag began: a new, empty line is opened.
pub open spec fn after_drag_start(lines: Seq<Seq<GeoPos>>, input: PointerInput) -> Seq<Seq<GeoPos>> {
    if input.drag_started {
        lines.push(Seq::empty())
    } else {
        lines
    }
}

/// The lines after a drag went on: the last line grows by the position under
/// the pointer.
pub open spec fn after_drag(lines: Seq<Seq<GeoPos>>, input: PointerInput, projection: MapProjection) -> Seq<
    Seq<GeoPos>,
> {
    match input.interact_pointer_pos {
        Some(p) if input.dragged && lines.len() > 0 => extend_last(lines, geo_under(projection, p)),
        _ => lines,
    }
}

/// The lines after one frame of input in draw mode.
pub open spec fn after_draw_input(
    lines: Seq<Seq<GeoPos>>,
    input: PointerInput,
    projection: MapProjection,
) -> Seq<Seq<GeoPos>> {
    after_drag(after_drag_start(after_click(lines, input, projection), input), input, projection)
}

/// What is left of the first `n` lines after the eraser passed: the pieces of
/// each line, in order.
pub open spec fn erased_lines(
    lines: Seq<Seq<GeoPos>>,
    pointer: ScreenPos,
    radius_sq: int,
    projection: MapProjection,
    n: int,
) -> Seq<Seq<GeoPos>>
    decreases n,
{
    if n <= 0 {
        Seq::empty()
    } else {
        erased_lines(lines, pointer, radius_sq, projection, n - 1) + split_spec(
            lines[n - 1],
            pointer,
            radius_sq,
            projection,
        )
    }
}

/// The lines after one frame of input in erase mode: a drag or a click erases
/// at the pointer, with the stroke's width as the eraser's radius.
pub open spec fn after_erase_input(
    lines: Seq<Seq<GeoPos>>,
    width: u32,
    input: PointerInput,
    projection: MapProjection,
) -> Seq<Seq<GeoPos>> {
    match input.interact_pointer_pos {
        Some(p) if input.dragged || input.clicked => erased_lines(
            lines,
            p,
            width * width,
            projection,
            lines.len() as int,
        ),
        _ => lines,
    }
}

/// The commands that draw the first `n` lines: a line of each that has two
/// points or more.
pub open spec fn drawn_lines(lines: Seq<Seq<GeoPos>>, projection: MapProjection, stroke: Stroke, n: int) -> Seq<
    DrawCommandView,
>
    decreases n,
{
    if n <= 0 {
        Seq::empty()
    } else if lines[n - 1].len() > 1 {
        drawn_lines(lines, projection, stroke, n - 1).push(
            DrawCommandView::Line { points: projected(projection, lines[n - 1]), stroke },
        )
    } else {
        drawn_lines(lines, projection, stroke, n - 1)
    }
}

/// Layer implementation that allows the user to draw polylines on the map.
pub struct DrawingLayer {
    /// The lines drawn so far.
    pub polylines: Vec<Polyline>,
    /// The stroke style for drawing aka line width and color.
    pub stroke: Stroke,
    /// The current drawing mode.
    pub draw_mode: DrawMode,
}

impl Default for DrawingLayer {
    fn default() -> (layer: DrawingLayer)
        ensures
            layer.lines() == Seq::<Seq<GeoPos>>::empty(),
            layer.stroke == (Stroke { width: 512, color: Color { r: 255, g: 0, b: 0, a: 255 } }),
            layer.draw_mode == DrawMode::Disabled,
            layer.wf(),
    {
        let layer = DrawingLayer {
            polylines: Vec::new(),
            stroke: Stroke::new(512, Color::red()),
            draw_mode: DrawMode::Disabled,
        };
        assert(layer.lines() =~= Seq::<Seq<GeoPos>>::empty());
        layer
    }
}

impl DrawingLayer {
    /// The lines of the layer, as sequences of positions.
    pub open spec fn lines(&self) -> Seq<Seq<GeoPos>> {
        polyline_views(self.polylines@)
    }

    /// Whether every position of every line lies within the world.
    pub open spec fn wf(&self) -> bool {
        forall|i: int| 0 <= i < self.polylines@.len() ==> all_in_world((#[trigger] self.polylines@[i]).0@)
    }

    /// Creates a new `DrawingLayer`.
    pub fn new(stroke: Stroke) -> (layer: Self)
        ensures
            layer.lines() == Seq::<Seq<GeoPos>>::empty(),
            layer.stroke == stroke,
            layer.draw_mode == DrawMode::Disabled,
            layer.wf(),
    {
        let layer = DrawingLayer { polylines: Vec::new(), stroke, draw_mode: DrawMode::Disabled };
        assert(layer.lines() =~= Seq::<Seq<GeoPos>>::empty());
        layer
    }

    /// Tests whether every position of every line lies within the world.
    pub fn is_valid(&self) -> (r: bool)
        ensures
            r == self.wf(),
    {
        let mut i: usize = 0;
        while i < self.polylines.len()
            invariant
                i <= self.polylines@.len(),
                forall|k: int| 0 <= k < i ==> all_in_world((#[trigger] self.polylines@[k]).0@),
            decreases self.polylines@.len() - i,
        {
            if !points_in_world(&self.polylines[i].0) {
                return false;
            }
            i = i + 1;
        }
        true
    }

    /// Adds `point` to the last line.
    fn push_to_last(&mut self, point: GeoPos)
        requires
            old(self).wf(),
            old(self).polylines@.len() > 0,
            point.in_world(),
        ensures
            final(self).wf(),
            final(self).lines() == extend_last(old(self).lines(), point),
            final(self).stroke == old(self).stroke,
            final(self).draw_mode == old(self).draw_mode,
    {
        let ghost before = self.polylines@;
        let mut last: Polyline = self.polylines.pop().unwrap();
        assert(all_in_world(before[before.len() - 1].0@));
        last.0.push(point);
        self.polylines.push(last);
        proof {
            assert(self.lines() =~= extend_last(polyline_views(before), point));
            assert forall|i: int| 0 <= i < self.polylines@.len() implies all_in_world(
                (#[trigger] self.polylines@[i]).0@,
            ) by {
                if i < before.len() - 1 {
                    assert(self.polylines@[i] == before[i]);
                }
            }
        }
    }

    /// Opens a new line through `points`.
    fn push_line(&mut self, points: Vec<GeoPos>)
        requires
            old(self).wf(),
            all_in_world(points@),
        ensures
            final(self).wf(),
            final(self).lines() == old(self).lines().push(points@),
            final(self).stroke == old(self).stroke,
            final(self).draw_mode == old(self).draw_mode,
    {
        let ghost before = self.polylines@;
        self.polylines.push(Polyline(points));
        proof {
            assert(self.lines() =~= polyline_views(before).push(points@));
            assert forall|i: int| 0 <= i < self.polylines@.len() implies all_in_world(
                (#[trigger] self.polylines@[i]).0@,
            ) by {
                if i < before.len() {
                    assert(self.polylines@[i] == before[i]);
                }
            }
        }
    }

    /// Handles one frame of input in draw mode. Returns whether the pointer is
    /// over the map: while drawing, the layer takes every interaction, so that
    /// the map does not pan or zoom.
    pub fn handle_draw_input(&mut self, input: &PointerInput, projection: &MapProjection) -> (handled: bool)
        requires
            old(self).wf(),
            input.wf(),
            projection.wf(),
        ensures
            final(self).wf(),
            final(self).lines() == after_draw_input(old(self).lines(), *input, *projection),
            final(self).stroke == old(self).stroke,
            final(self).draw_mode == old(self).draw_mode,
            handled == input.hovered,
    {
        if input.clicked {
            if let Some(pointer_pos) = input.interact_pointer_pos {
                let geo_pos = position_under(projection, pointer_pos);
                if self.polylines.len() > 0 && input.shift {
                    self.push_to_last(geo_pos);
                } else {
                    // No line to extend, so create a new one.
                    let beside = if pointer_pos.x <= SCREEN_LIMIT - UNITS_PER_PIXEL {
                        ScreenPos { x: pointer_pos.x + UNITS_PER_PIXEL, y: pointer_pos.y }
                    } else {
                        pointer_pos
                    };
                    let geo_pos2 = position_under(projection, beside);
                    let mut points: Vec<GeoPos> = Vec::new();
                    points.push(geo_pos);
                    points.push(geo_pos2);
                    assert(points@ =~= seq![geo_pos, geo_pos2]);
                    self.push_line(points);
                }
            }
        }
        if input.drag_started {
            let points: Vec<GeoPos> = Vec::new();
            assert(points@ =~= Seq::<GeoPos>::empty());
            self.push_line(points);
        }
        if input.dragged {
            if let Some(pointer_pos) = input.interact_pointer_pos {
                if self.polylines.len() > 0 {
                    let geo_pos = position_under(projection, pointer_pos);
                    self.push_to_last(geo_pos);
                }
            }
        }
        input.hovered
    }

    /// Handles one frame of input in erase mode. Returns whether the pointer is
    /// over the map.
    pub fn handle_erase_input(&mut self, input: &PointerInput, projection: &MapProjection) -> (handled: bool)
        requires
            old(self).wf(),
            input.wf(),
            projection.wf(),
        ensures
            final(self).wf(),
            final(self).lines() == after_erase_input(
                old(self).lines(),
                old(self).stroke.width,
                *input,
                *projection,
            ),
            final(self).stroke == old(self).stroke,
            final(self).draw_mode == old(self).draw_mode,
            handled == input.hovered,
    {
        if input.dragged || input.clicked {
            if let Some(pointer_pos) = input.interact_pointer_pos {
                self.erase_at(pointer_pos, projection);
            }
        }
        input.hovered
    }

    /// Erases what lies within the stroke's width of `pointer_pos`: every line
    /// is replaced by the pieces that the eraser leaves of it.
    pub fn erase_at(&mut self, pointer_pos: ScreenPos, projection: &MapProjection)
        requires
            old(self).wf(),
            pointer_pos.wf(),
            projection.wf(),
        ensures
            final(self).wf(),
            final(self).lines() == erased_lines(
                old(self).lines(),
                pointer_pos,
                old(self).stroke.width * old(self).stroke.width,
                *projection,
                old(self).lines().len() as int,
            ),
            final(self).stroke == old(self).stroke,
            final(self).draw_mode == old(self).draw_mode,
    {
        let erase_radius_screen: u64 = self.stroke.width as u64;
        assert(erase_radius_screen * erase_radius_screen <= 0xffff_ffff * 0xffff_ffff) by (nonlinear_arith)
            requires
                0 <= erase_radius_screen <= 0xffff_ffff,
        ;
        let erase_radius_sq: u64 = erase_radius_screen * erase_radius_screen;
        let ghost r2: int = erase_radius_sq as int;
        let ghost lines = self.lines();
        let mut kept: Vec<Polyline> = Vec::new();
        let mut i: usize = 0;
        assert(polyline_views(kept@) =~= Seq::<Seq<GeoPos>>::empty());
        while i < self.polylines.len()
            invariant
                self.wf(),
                pointer_pos.wf(),
                projection.wf(),
                lines == self.lines(),
                i <= self.polylines@.len(),
                r2 == erase_radius_sq as int,
                polyline_views(kept@) == erased_lines(lines, pointer_pos, r2, *projection, i as int),
                forall|k: int| 0 <= k < kept@.len() ==> all_in_world((#[trigger] kept@[k]).0@),
            decreases self.polylines@.len() - i,
        {
            assert(all_in_world(self.polylines@[i as int].0@));
            let mut pieces = split_polyline_by_erase_circle(
                &self.polylines[i].0,
                pointer_pos,
                erase_radius_sq,
                projection,
            );
            let ghost split = split_spec(lines[i as int], pointer_pos, r2, *projection);
            let ghost base = polyline_views(kept@);
            let ghost total: int = pieces@.len() as int;
            assert(line_views(pieces@).len() == pieces@.len());
            while pieces.len() > 0
                invariant
                    total == split.len(),
                    pieces@.len() <= total,
                    line_views(pieces@) == split.skip(total - pieces@.len()),
                    polyline_views(kept@) == base + split.take(total - pieces@.len()),
                    forall|k: int| 0 <= k < pieces@.len() ==> all_in_world((#[trigger] pieces@[k])@),
                    forall|k: int| 0 <= k < kept@.len() ==> all_in_world((#[trigger] kept@[k]).0@),
                decreases pieces@.len(),
            {
                let ghost rest_before = pieces@;
                let ghost kept_before = kept@;
                let piece: Vec<GeoPos> = pieces.remove(0);
                proof {
                    assert(rest_before[0] == piece);
                    assert(all_in_world(rest_before[0]@));
                    assert(line_views(rest_before)[0] == piece@);
                    assert(line_views(pieces@) =~= split.skip(total - pieces@.len())) by {
                        assert forall|k: int| 0 <= k < pieces@.len() implies line_views(pieces@)[k]
                            == split.skip(total - pieces@.len())[k] by {
                            assert(pieces@[k] == rest_before[k + 1]);
                            assert(line_views(rest_before)[k + 1] == rest_before[k + 1]@);
                        }
                    }
                    assert forall|k: int| 0 <= k < pieces@.len() implies all_in_world(
                        (#[trigger] pieces@[k])@,
                    ) by {
                        assert(pieces@[k] == rest_before[k + 1]);
                    }
                }
                kept.push(Polyline(piece));
                proof {
                    assert(polyline_views(kept@) =~= base + split.take(total - pieces@.len())) by {
                        assert(polyline_views(kept@) =~= polyline_views(kept_before).push(piece@));
                        assert(split.take(total - pieces@.len()) =~= split.take(
                            total - rest_before.len(),
                        ).push(piece@));
                    }
                    assert forall|k: int| 0 <= k < kept@.len() implies all_in_world(
                        (#[trigger] kept@[k]).0@,
                    ) by {
                        if k < kept_before.len() {
                            assert(kept@[k] == kept_before[k]);
                        }
                    }
                }
            }
            proof {
                assert(split.take(total) =~= split);
            }
            i = i + 1;
        }
        self.polylines = kept;
    }

    /// The shape that the pointer takes over the layer: a crosshair while
    /// drawing and a "not allowed" sign while erasing, where the pointer is over
    /// the map.
    pub open spec fn cursor_spec(&self, input: PointerInput) -> Option<CursorIcon> {
        if !input.hovered {
            None
        } else {
            match self.draw_mode {
                DrawMode::Disabled => None,
                DrawMode::Draw => Some(CursorIcon::Crosshair),
                DrawMode::Erase => Some(CursorIcon::NotAllowed),
            }
        }
    }

    /// The shape that the pointer takes over the layer.
    pub fn cursor_icon(&self, input: &PointerInput) -> (icon: Option<CursorIcon>)
        ensures
            icon == self.cursor_spec(*input),
    {
        if !input.hovered {
            return None;
        }
        match self.draw_mode {
            DrawMode::Disabled => None,
            DrawMode::Draw => Some(CursorIcon::Crosshair),
            DrawMode::Erase => Some(CursorIcon::NotAllowed),
        }
    }

    /// Draws the layer: a line for each polyline of two points or more.
    pub fn draw_lines(&self, projection: &MapProjection) -> (commands: Vec<DrawCommand>)
        requires
            self.wf(),
            projection.wf(),
        ensures
            command_views(commands@) == drawn_lines(
                self.lines(),
                *projection,
                self.stroke,
                self.lines().len() as int,
            ),
    {
        let mut commands: Vec<DrawCommand> = Vec::new();
        let mut i: usize = 0;
        assert(command_views(commands@) =~= Seq::<DrawCommandView>::empty());
        while i < self.polylines.len()
            invariant
                self.wf(),
                projection.wf(),
                i <= self.polylines@.len(),
                command_views(commands@) == drawn_lines(self.lines(), *projection, self.stroke, i as int),
            decreases self.polylines@.len() - i,
        {
            let polyline = &self.polylines[i];
            assert(self.lines()[i as int] == polyline.0@);
            if polyline.0.len() > 1 {
                assert(all_in_world(self.polylines@[i as int].0@));
                let screen_points = project_all(projection, &polyline.0);
                let ghost before = commands@;
                commands.push(DrawCommand::Line { points: screen_points, stroke: self.stroke });
                assert(command_views(commands@) =~= command_views(before).push(
                    DrawCommandView::Line { points: screen_points@, stroke: self.stroke },
                ));
            }
            i = i + 1;
        }
        commands
    }
}

impl Layer for DrawingLayer {
    open spec fn layer_wf(&self) -> bool {
        self.wf()
    }

    /// A disabled layer takes no input and stays as it is. In the other modes
    /// the layer takes the input while the pointer is over the map, and draws or
    /// erases as the mode says.
    open spec fn stepped(&self, after: &Self, input: PointerInput, projection: MapProjection, handled: bool) -> bool {
        &&& after.stroke == self.stroke
        &&& after.draw_mode == self.draw_mode
        &&& match self.draw_mode {
            DrawMode::Disabled => !handled && after.lines() == self.lines(),
            DrawMode::Draw => handled == input.hovered && after.lines() == after_draw_input(
                self.lines(),
                input,
                projection,
            ),
            DrawMode::Erase => handled == input.hovered && after.lines() == after_erase_input(
                self.lines(),
                self.stroke.width,
                input,
                projection,
            ),
        }
    }

    open spec fn drawn(&self, projection: MapProjection) -> Seq<DrawCommandView> {
        drawn_lines(self.lines(), projection, self.stroke, self.lines().len() as int)
    }

    fn handle_input(&mut self, input: &PointerInput, projection: &MapProjection) -> (handled: bool) {
        match self.draw_mode {
            DrawMode::Disabled => false,
            DrawMode::Draw => self.handle_draw_input(input, projection),
            DrawMode::Erase => self.handle_erase_input(input, projection),
        }
    }

    fn draw(&self, projection: &MapProjection) -> (commands: Vec<DrawCommand>) {
        self.draw_lines(projection)
    }
}

/// What holds of the walk at every step: the piece being gathered is empty
/// while the walk is under the eraser and holds a point otherwise, and every
/// complete piece has two points or more.
proof fn lemma_split_walk_shape(
    polyline: Seq<GeoPos>,
    pointer: ScreenPos,
    radius_sq: int,
    projection: MapProjection,
    n: int,
)
    ensures
        ({
            let walk = split_walk(polyline, pointer, radius_sq, projection, n);
            let at = if n <= 0 {
                polyline[0]
            } else {
                polyline[n]
            };
            &&& (point_erased(projection, at, pointer, radius_sq) ==> walk.current.len() == 0)
            &&& (!point_erased(projection, at, pointer, radius_sq) ==> walk.current.len() >= 1)
            &&& forall|k: int| 0 <= k < walk.done.len() ==> (#[trigger] walk.done[k]).len() >= 2
        }),
    decreases n,
{
    if n > 0 {
        lemma_split_walk_shape(polyline, pointer, radius_sq, projection, n - 1);
    }
}

/// Every piece that the eraser leaves has two points or more.
pub proof fn lemma_split_pieces_are_lines(
    polyline: Seq<GeoPos>,
    pointer: ScreenPos,
    radius_sq: int,
    projection: MapProjection,
)
    ensures
        forall|k: int|
            0 <= k < split_spec(polyline, pointer, radius_sq, projection).len() ==> (
            #[trigger] split_spec(polyline, pointer, radius_sq, projection)[k]).len() >= 2,
{
    if polyline.len() >= 2 {
        lemma_split_walk_shape(polyline, pointer, radius_sq, projection, polyline.len() - 1);
    }
}

/// An eraser that covers no point and reaches no segment changes nothing: the
/// polyline comes back whole, as one piece.
pub proof fn lemma_split_away_from_line(
    polyline: Seq<GeoPos>,
    pointer: ScreenPos,
    radius_sq: int,
    projection: MapProjection,
)
    requires
        polyline.len() >= 2,
        forall|i: int|
            0 <= i < polyline.len() ==> !point_erased(projection, #[trigger] polyline[i], pointer, radius_sq),
        forall|i: int|
            0 <= i < polyline.len() - 1 ==> !segment_reached(
                projection,
                #[trigger] polyline[i],
                polyline[i + 1],
                pointer,
                radius_sq,
            ),
    ensures
        split_spec(polyline, pointer, radius_sq, projection) == seq![polyline],
{
    lemma_walk_away_from_line(polyline, pointer, radius_sq, projection, polyline.len() - 1);
    let walk = split_walk(polyline, pointer, radius_sq, projection, polyline.len() - 1);
    assert(walk.current =~= polyline);
    assert(split_spec(polyline, pointer, radius_sq, projection) =~= seq![polyline]);
}

/// The walk of `lemma_split_away_from_line` after `n` segments.
proof fn lemma_walk_away_from_line(
    polyline: Seq<GeoPos>,
    pointer: ScreenPos,
    radius_sq: int,
    projection: MapProjection,
    n: int,
)
    requires
        polyline.len() >= 2,
        0 <= n <= polyline.len() - 1,
        forall|i: int|
            0 <= i < polyline.len() ==> !point_erased(projection, #[trigger] polyline[i], pointer, radius_sq),
        forall|i: int|
            0 <= i < polyline.len() - 1 ==> !segment_reached(
                projection,
                #[trigger] polyline[i],
                polyline[i + 1],
                pointer,
                radius_sq,
            ),
    ensures
        split_walk(polyline, pointer, radius_sq, projection, n) == (SplitWalk {
            done: Seq::empty(),
            current: polyline.take(n + 1),
        }),
    decreases n,
{
    if n > 0 {
        lemma_walk_away_from_line(polyline, pointer, radius_sq, projection, n - 1);
        assert(!point_erased(projection, polyline[n - 1], pointer, radius_sq));
        assert(!point_erased(projection, polyline[n], pointer, radius_sq));
        assert(!segment_reached(projection, polyline[n - 1], polyline[n - 1 + 1], pointer, radius_sq));
        assert(polyline.take(n).push(polyline[n]) =~= polyline.take(n + 1));
    } else {
        assert(!point_erased(projection, polyline[0int], pointer, radius_sq));
        assert(seq![polyline[0]] =~= polyline.take(1));
    }
}

/// An eraser that covers every point leaves nothing of the polyline.
pub proof fn lemma_split_whole_line_erased(
    polyline: Seq<GeoPos>,
    pointer: ScreenPos,
    radius_sq: int,
    projection: MapProjection,
)
    requires
        forall|i: int|
            0 <= i < polyline.len() ==> point_erased(projection, #[trigger] polyline[i], pointer, radius_sq),
    ensures
        split_spec(polyline, pointer, radius_sq, projection) == Seq::<Seq<GeoPos>>::empty(),
{
    if polyline.len() >= 2 {
        lemma_walk_whole_line_erased(polyline, pointer, radius_sq, projection, polyline.len() - 1);
    }
}

/// The walk of `lemma_split_whole_line_erased` after `n` segments.
proof fn lemma_walk_whole_line_erased(
    polyline: Seq<GeoPos>,
    pointer: ScreenPos,
    radius_sq: int,
    projection: MapProjection,
    n: int,
)
    requires
        polyline.len() >= 2,
        0 <= n <= polyline.len() - 1,
        forall|i: int|
            0 <= i < polyline.len() ==> point_erased(projection, #[trigger] polyline[i], pointer, radius_sq),
    ensures
        split_walk(polyline, pointer, radius_sq, projection, n) == (SplitWalk {
            done: Seq::empty(),
            current: Seq::empty(),
        }),
    decreases n,
{
    if n > 0 {
        lemma_walk_whole_line_erased(polyline, pointer, radius_sq, projection, n - 1);
        assert(point_erased(projection, polyline[n - 1], pointer, radius_sq));
        assert(point_erased(projection, polyline[n], pointer, radius_sq));
    } else {
        assert(point_erased(projection, polyline[0int], pointer, radius_sq));
    }
}

/// An eraser that covers the middle point of a line of three points, and
/// neither of its ends, leaves exactly two pieces of two points each: from the
/// first point to where the line enters the eraser, and from where it leaves
/// the eraser to the last point. The middle point is in neither.
pub proof fn lemma_split_around_middle_point(
    polyline: Seq<GeoPos>,
    pointer: ScreenPos,
    radius_sq: int,
    projection: MapProjection,
)
    requires
        polyline.len() == 3,
        !point_erased(projection, polyline[0], pointer, radius_sq),
        point_erased(projection, polyline[1], pointer, radius_sq),
        !point_erased(projection, polyline[2], pointer, radius_sq),
    ensures
        split_spec(polyline, pointer, radius_sq, projection) == seq![
            seq![polyline[0], segment_cut(projection, polyline[0], polyline[1], pointer, radius_sq, false)],
            seq![segment_cut(projection, polyline[1], polyline[2], pointer, radius_sq, true), polyline[2]],
        ],
{
    let w0 = split_walk(polyline, pointer, radius_sq, projection, 0);
    let w1 = split_walk(polyline, pointer, radius_sq, projection, 1);
    let w2 = split_walk(polyline, pointer, radius_sq, projection, 2);
    let cut_in = segment_cut(projection, polyline[0], polyline[1], pointer, radius_sq, false);
    let cut_out = segment_cut(projection, polyline[1], polyline[2], pointer, radius_sq, true);
    assert(w0.current =~= seq![polyline[0]]);
    assert(w0.current.push(cut_in) =~= seq![polyline[0], cut_in]);
    assert(w1.done =~= seq![seq![polyline[0], cut_in]]);
    assert(w1.current =~= Seq::<GeoPos>::empty());
    assert(w2.current =~= seq![cut_out, polyline[2]]);
    assert(split_spec(polyline, pointer, radius_sq, projection) =~= seq![
        seq![polyline[0], cut_in],
        seq![cut_out, polyline[2]],
    ]);
}

} // verus!
