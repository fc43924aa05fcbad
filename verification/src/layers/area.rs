//! A layer for placing polygons and circles on the map and editing them.

use vstd::prelude::*;
use crate::arith::isqrt;
use crate::input::CursorIcon;
use crate::input::PointerInput;
use crate::layers::all_in_world;
use crate::layers::command_views;
use crate::layers::copy_points;
use crate::layers::dist_sq;
use crate::layers::dist_sq_to_segment;
use crate::layers::dist_sq_to_segment_spec;
use crate::layers::distance_sq;
use crate::layers::geo_under;
use crate::layers::lerp;
use crate::layers::lerp_spec;
use crate::layers::points_in_world;
use crate::layers::position_under;
use crate::layers::project_all;
use crate::layers::projected;
use crate::layers::projection_factor;
use crate::layers::projection_factor_spec;
use crate::layers::segments_cross;
use crate::layers::segments_intersect;
use crate::layers::DrawCommand;
use crate::layers::DrawCommandView;
use crate::layers::Layer;
use crate::projection::GeoPos;
use crate::projection::MapProjection;
use crate::projection::ScreenPos;
use crate::style::Color;
use crate::style::Stroke;

verus! {

/// The number of corners with which a circle is drawn unless it names its own.
pub const DEFAULT_CIRCLE_POINTS: u32 = 64;

/// The mode of the `AreaLayer`.
#[derive(Clone, Copy, Debug, PartialEq, Eq, Structural)]
pub enum AreaMode {
    /// The layer is not interactive.
    Disabled,
    /// The user can add/remove/move nodes.
    Modify,
}

impl Default for AreaMode {
    fn default() -> (m: AreaMode)
        ensures
            m == AreaMode::Disabled,
    {
        AreaMode::Disabled
    }
}

/// The shape of an area on the map.
#[derive(Debug, PartialEq, Eq)]
pub enum AreaShape {
    /// A freeform polygon defined by a list of points.
    Polygon(Vec<GeoPos>),
    /// A circle defined by its center and radius.
    Circle {
        /// The geographical center of the circle.
        center: GeoPos,
        /// The radius of the circle in millimetres on the ground.
        radius: i64,
        /// The number of corners with which the circle is drawn, if it names one.
        points: Option<i64>,
    },
}

/// What an `AreaShape` holds, with a sequence for its vector.
pub enum ShapeView {
    /// A freeform polygon defined by a list of points.
    Polygon(Seq<GeoPos>),
    /// A circle defined by its center and radius.
    Circle { center: GeoPos, radius: i64, points: Option<i64> },
}

impl View for AreaShape {
    type V = ShapeView;

    open spec fn view(&self) -> ShapeView {
        match *self {
            AreaShape::Polygon(points) => ShapeView::Polygon(points@),
            AreaShape::Circle { center, radius, points } => ShapeView::Circle { center, radius, points },
        }
    }
}

impl ShapeView {
    /// Whether every position of the shape lies within the world, and a circle's
    /// radius is positive.
    pub open spec fn wf(self) -> bool {
        match self {
            ShapeView::Polygon(points) => all_in_world(points),
            ShapeView::Circle { center, radius, points } => center.in_world() && radius > 0,
        }
    }
}

/// An area on the map: a shape with the style in which it is drawn.
#[derive(Debug, PartialEq, Eq)]
pub struct Area {
    /// The shape of the area.
    pub shape: AreaShape,
    /// The stroke style for drawing the outline.
    pub stroke: Stroke,
    /// The fill color.
    pub fill: Color,
}

/// What an `Area` holds, with a sequence for its vector.
pub struct AreaView {
    /// The shape of the area.
    pub shape: ShapeView,
    /// The stroke style for drawing the outline.
    pub stroke: Stroke,
    /// The fill color.
    pub fill: Color,
}

impl View for Area {
    type V = AreaView;

    open spec fn view(&self) -> AreaView {
        AreaView { shape: self.shape@, stroke: self.stroke, fill: self.fill }
    }
}

impl Area {
    /// Tests whether every position of the area lies within the world, and a
    /// circle's radius is positive.
    pub fn is_valid(&self) -> (r: bool)
        ensures
            r == self@.shape.wf(),
    {
        match &self.shape {
            AreaShape::Polygon(points) => points_in_world(points),
            AreaShape::Circle { center, radius, points } => center.is_in_world() && *radius > 0,
        }
    }
}

/// Represents what part of an area is being dragged.
#[derive(Clone, Copy, Debug, PartialEq, Eq, Structural)]
pub enum DraggedObject {
    /// A corner of a polygon.
    PolygonNode { area_index: usize, node_index: usize },
    /// The center of a circle: dragging it moves the circle.
    CircleCenter { area_index: usize },
    /// The handle on the edge of a circle: dragging it resizes the circle.
    CircleRadius { area_index: usize },
}

/// The radius in screen units of a circle of `radius` millimetres, where a
/// screen unit spans `resolution` micrometres on the ground: the quotient,
/// rounded, and zero where the resolution is not known.
pub open spec fn radius_in_units(radius: i64, resolution: u32) -> int {
    if resolution == 0 || radius <= 0 {
        0
    } else if (1000 * radius + resolution / 2) / (resolution as int) > 0x4000_0000 {
        0x4000_0000
    } else {
        (1000 * radius + resolution / 2) / (resolution as int)
    }
}

/// Whether `pos` is close enough to the node at `node` to take hold of it: less
/// than three node radii away.
pub open spec fn node_hit(node: ScreenPos, pos: ScreenPos, node_radius: u32) -> bool {
    dist_sq(node, pos) < 9 * node_radius * node_radius
}

/// Whether `pos` is close enough to the edge of the circle around `center` to
/// take hold of it: its distance from the center differs from `radius` by less
/// than two node radii. The test compares squares, so that it needs no root.
pub open spec fn ring_hit(center: ScreenPos, radius: int, pos: ScreenPos, node_radius: u32) -> bool {
    let d2 = dist_sq(center, pos);
    let k = 2 * node_radius;
    d2 < (radius + k) * (radius + k) && (radius < k || d2 > (radius - k) * (radius - k))
}

/// Whether `pos` is close enough to the edge from corner `i` to the next corner
/// of the polygon `screen` to take hold of it: less than two node radii away.
pub open spec fn edge_hit(screen: Seq<ScreenPos>, i: int, pos: ScreenPos, node_radius: u32) -> bool {
    let d = dist_sq_to_segment_spec(pos, screen[i], screen[(i + 1) % (screen.len() as int)]);
    d.0 < 4 * node_radius * node_radius * d.1
}

/// Whether corner `i` is the corner of `screen` that `pos` takes hold of: it is
/// hit, no corner is nearer, and it is the first of those that are as near.
pub open spec fn is_nearest_node(screen: Seq<ScreenPos>, i: int, pos: ScreenPos, node_radius: u32) -> bool {
    &&& 0 <= i < screen.len()
    &&& node_hit(screen[i], pos, node_radius)
    &&& forall|j: int| 0 <= j < i ==> dist_sq(#[trigger] screen[j], pos) > dist_sq(screen[i], pos)
    &&& forall|j: int| i < j < screen.len() ==> dist_sq(#[trigger] screen[j], pos) >= dist_sq(screen[i], pos)
}

/// Whether edge `i` is the edge of `screen` that `pos` takes hold of: the first
/// edge that is hit.
pub open spec fn is_first_edge(screen: Seq<ScreenPos>, i: int, pos: ScreenPos, node_radius: u32) -> bool {
    &&& 0 <= i < screen.len()
    &&& edge_hit(screen, i, pos, node_radius)
    &&& forall|j: int| 0 <= j < i ==> !edge_hit(screen, j, pos, node_radius)
}

/// Tests whether `pos` takes hold of the node at `node`.
pub fn is_node_hit(node: ScreenPos, pos: ScreenPos, node_radius: u32) -> (r: bool)
    ensures
        r == node_hit(node, pos, node_radius),
{
    let r: u128 = node_radius as u128;
    assert(9 * r * r == 9 * node_radius * node_radius && 9 * r * r <= 9 * 0xffff_ffff * 0xffff_ffff)
        by (nonlinear_arith)
        requires
            r == node_radius,
            0 <= r <= 0xffff_ffff,
    ;
    distance_sq(node, pos) < 9 * r * r
}

/// Tests whether `pos` takes hold of the edge of the circle around `center`.
pub fn is_ring_hit(center: ScreenPos, radius: u32, pos: ScreenPos, node_radius: u32) -> (r: bool)
    ensures
        r == ring_hit(center, radius as int, pos, node_radius),
{
    let d2: u128 = distance_sq(center, pos);
    let k: u128 = 2 * (node_radius as u128);
    let big: u128 = radius as u128 + k;
    assert(big * big <= 0x3_0000_0000 * 0x3_0000_0000) by (nonlinear_arith)
        requires
            0 <= big <= 0x3_0000_0000,
    ;
    if d2 >= big * big {
        return false;
    }
    if (radius as u128) < k {
        return true;
    }
    let small: u128 = radius as u128 - k;
    assert(small * small <= 0x1_0000_0000 * 0x1_0000_0000) by (nonlinear_arith)
        requires
            0 <= small <= 0x1_0000_0000,
    ;
    d2 > small * small
}

/// The radius in screen units of a circle of `radius` millimetres at
/// `resolution` micrometres to the screen unit.
pub fn circle_radius_units(radius: i64, resolution: u32) -> (r: u32)
    ensures
        r == radius_in_units(radius, resolution),
{
    if resolution == 0 || radius <= 0 {
        return 0;
    }
    let n: u128 = 1000 * (radius as u128) + (resolution / 2) as u128;
    let q: u128 = n / (resolution as u128);
    if q > 0x4000_0000 {
        0x4000_0000
    } else {
        q as u32
    }
}

/// The corner of the polygon `screen` that `pos` takes hold of, if any.
pub fn find_nearest_node(screen: &Vec<ScreenPos>, pos: ScreenPos, node_radius: u32) -> (r: Option<usize>)
    ensures
        r == nearest_node(screen@, pos, node_radius),
        match r {
            Some(i) => is_nearest_node(screen@, i as int, pos, node_radius),
            None => forall|j: int| 0 <= j < screen@.len() ==> !node_hit(#[trigger] screen@[j], pos, node_radius),
        },
{
    let mut best: Option<usize> = None;
    let mut best_d: u128 = 0;
    let mut i: usize = 0;
    while i < screen.len()
        invariant
            i <= screen@.len(),
            match best {
                Some(b) => b < i && best_d == dist_sq(screen@[b as int], pos) && node_hit(
                    screen@[b as int],
                    pos,
                    node_radius,
                ) && (forall|j: int| 0 <= j < b ==> dist_sq(#[trigger] screen@[j], pos) > best_d) && (forall|
                    j: int,
                | b < j < i ==> dist_sq(#[trigger] screen@[j], pos) >= best_d),
                None => forall|j: int| 0 <= j < i ==> !node_hit(#[trigger] screen@[j], pos, node_radius),
            },
        decreases screen@.len() - i,
    {
        let node: ScreenPos = screen[i];
        let d: u128 = distance_sq(node, pos);
        if is_node_hit(node, pos, node_radius) {
            match best {
                Some(b) => {
                    if d < best_d {
                        best = Some(i);
                        best_d = d;
                    }
                },
                None => {
                    best = Some(i);
                    best_d = d;
                },
            }
        }
        i = i + 1;
    }
    proof {
        match best {
            Some(b) => {
                assert(is_nearest_node(screen@, b as int, pos, node_radius));
                let c = choose|i: int| is_nearest_node(screen@, i, pos, node_radius);
                lemma_nearest_node_unique(screen@, b as int, c, pos, node_radius);
            },
            None => {
                assert forall|i: int| !is_nearest_node(screen@, i, pos, node_radius) by {
                    if 0 <= i < screen@.len() {
                        assert(!node_hit(screen@[i], pos, node_radius));
                    }
                }
            },
        }
    }
    best
}

/// The edge of the polygon `screen` that `pos` takes hold of, if any. A
/// polygon of fewer than two corners has no edge.
pub fn find_first_edge(screen: &Vec<ScreenPos>, pos: ScreenPos, node_radius: u32) -> (r: Option<usize>)
    requires
        pos.wf(),
        forall|i: int| 0 <= i < screen@.len() ==> (#[trigger] screen@[i]).wf(),
    ensures
        r == first_edge(screen@, pos, node_radius),
        match r {
            Some(i) => screen@.len() >= 2 && is_first_edge(screen@, i as int, pos, node_radius),
            None => screen@.len() < 2 || forall|j: int|
                0 <= j < screen@.len() ==> !edge_hit(screen@, j, pos, node_radius),
        },
{
    let n: usize = screen.len();
    if n < 2 {
        return None;
    }
    let r: u128 = node_radius as u128;
    assert(4 * r * r == 4 * node_radius * node_radius && 4 * r * r <= 4 * 0xffff_ffff * 0xffff_ffff)
        by (nonlinear_arith)
        requires
            r == node_radius,
            0 <= r <= 0xffff_ffff,
    ;
    let click_tolerance: u128 = 4 * r * r;
    let mut i: usize = 0;
    while i < n
        invariant
            n == screen@.len(),
            n >= 2,
            i <= n,
            pos.wf(),
            click_tolerance == 4 * node_radius * node_radius,
            forall|k: int| 0 <= k < screen@.len() ==> (#[trigger] screen@[k]).wf(),
            forall|j: int| 0 <= j < i ==> !edge_hit(screen@, j, pos, node_radius),
        decreases n - i,
    {
        let next: usize = if i + 1 < n {
            i + 1
        } else {
            0
        };
        assert(next == (i + 1) % (n as int)) by {
            if i + 1 < n {
                vstd::arithmetic::div_mod::lemma_small_mod((i + 1) as nat, n as nat);
            } else {
                vstd::arithmetic::div_mod::lemma_mod_self_0(n as int);
            }
        }
        let p1: ScreenPos = screen[i];
        let p2: ScreenPos = screen[next];
        assert(screen@[i as int].wf() && screen@[next as int].wf());
        let d = dist_sq_to_segment(pos, p1, p2);
        proof {
            assert(click_tolerance * d.den == 4 * node_radius * node_radius * d.den) by (nonlinear_arith)
                requires
                    click_tolerance == 4 * node_radius * node_radius,
            ;
        }
        if d.is_below(click_tolerance) {
            proof {
                assert(is_first_edge(screen@, i as int, pos, node_radius));
                let c = choose|k: int| is_first_edge(screen@, k, pos, node_radius);
                assert(c == i) by {
                    if c < i {
                        assert(!edge_hit(screen@, c, pos, node_radius));
                    }
                    if i < c {
                        assert(!edge_hit(screen@, i as int, pos, node_radius));
                    }
                }
            }
            return Some(i);
        }
        i = i + 1;
    }
    proof {
        assert forall|k: int| !is_first_edge(screen@, k, pos, node_radius) by {
            if 0 <= k < screen@.len() {
                assert(!edge_hit(screen@, k, pos, node_radius));
            }
        }
    }
    None
}

/// The corner of `screen` that `pos` takes hold of, if any.
pub open spec fn nearest_node(screen: Seq<ScreenPos>, pos: ScreenPos, node_radius: u32) -> Option<usize> {
    if exists|i: int| is_nearest_node(screen, i, pos, node_radius) {
        Some((choose|i: int| is_nearest_node(screen, i, pos, node_radius)) as usize)
    } else {
        None
    }
}

/// The edge of `screen` that `pos` takes hold of, if any.
pub open spec fn first_edge(screen: Seq<ScreenPos>, pos: ScreenPos, node_radius: u32) -> Option<usize> {
    if screen.len() >= 2 && exists|i: int| is_first_edge(screen, i, pos, node_radius) {
        Some((choose|i: int| is_first_edge(screen, i, pos, node_radius)) as usize)
    } else {
        None
    }
}

/// At most one corner is the nearest.
pub proof fn lemma_nearest_node_unique(screen: Seq<ScreenPos>, i: int, j: int, pos: ScreenPos, node_radius: u32)
    requires
        is_nearest_node(screen, i, pos, node_radius),
        is_nearest_node(screen, j, pos, node_radius),
    ensures
        i == j,
{
    if i < j {
        assert(dist_sq(screen[i], pos) > dist_sq(screen[j], pos));
        assert(dist_sq(screen[j], pos) >= dist_sq(screen[i], pos));
    } else if j < i {
        assert(dist_sq(screen[j], pos) > dist_sq(screen[i], pos));
        assert(dist_sq(screen[i], pos) >= dist_sq(screen[j], pos));
    }
}

/// What `pos` takes hold of in the area `area`, which is the area number
/// `index` and lies where a screen unit spans `resolution` micrometres. Of a polygon
/// it is the nearest corner in reach. Of a circle it is the handle on the edge,
/// and only where the edge is out of reach the center.
pub open spec fn area_target(
    area: AreaView,
    index: usize,
    resolution: u32,
    projection: MapProjection,
    pos: ScreenPos,
    node_radius: u32,
) -> Option<DraggedObject> {
    match area.shape {
        ShapeView::Polygon(points) => match nearest_node(projected(projection, points), pos, node_radius) {
            Some(node_index) => Some(DraggedObject::PolygonNode { area_index: index, node_index }),
            None => None,
        },
        ShapeView::Circle { center, radius, points } => if ring_hit(
            projection.project_spec(center),
            radius_in_units(radius, resolution),
            pos,
            node_radius,
        ) {
            Some(DraggedObject::CircleRadius { area_index: index })
        } else if node_hit(projection.project_spec(center), pos, node_radius) {
            Some(DraggedObject::CircleCenter { area_index: index })
        } else {
            None
        },
    }
}

/// The edge of the area `area` that `pos` takes hold of: only a polygon has
/// edges.
pub open spec fn area_edge(area: AreaView, projection: MapProjection, pos: ScreenPos, node_radius: u32) -> Option<
    usize,
> {
    match area.shape {
        ShapeView::Polygon(points) => first_edge(projected(projection, points), pos, node_radius),
        ShapeView::Circle { .. } => None,
    }
}

/// The resolution that the host measured for area `i`, or zero where it
/// measured none.
pub open spec fn resolution_at(resolutions: Seq<u32>, i: int) -> u32 {
    if 0 <= i < resolutions.len() {
        resolutions[i]
    } else {
        0
    }
}

/// What `pos` takes hold of among the first `n` areas: the areas are tried from
/// the last, which is drawn on top, to the first.
pub open spec fn object_among(
    areas: Seq<AreaView>,
    resolutions: Seq<u32>,
    projection: MapProjection,
    pos: ScreenPos,
    node_radius: u32,
    n: int,
) -> Option<DraggedObject>
    decreases n,
{
    if n <= 0 {
        None
    } else {
        match area_target(
            areas[n - 1],
            (n - 1) as usize,
            resolution_at(resolutions, n - 1),
            projection,
            pos,
            node_radius,
        ) {
            Some(t) => Some(t),
            None => object_among(areas, resolutions, projection, pos, node_radius, n - 1),
        }
    }
}

/// The edge that `pos` takes hold of among the first `n` areas, as the number
/// of the area and of the edge's first corner.
pub open spec fn edge_among(
    areas: Seq<AreaView>,
    projection: MapProjection,
    pos: ScreenPos,
    node_radius: u32,
    n: int,
) -> Option<(usize, usize)>
    decreases n,
{
    if n <= 0 {
        None
    } else {
        match area_edge(areas[n - 1], projection, pos, node_radius) {
            Some(i) => Some(((n - 1) as usize, i)),
            None => edge_among(areas, projection, pos, node_radius, n - 1),
        }
    }
}

/// The polygon corner that `pos` takes hold of among the first `n` areas, as
/// the number of the area and of the corner.
pub open spec fn node_among(
    areas: Seq<AreaView>,
    projection: MapProjection,
    pos: ScreenPos,
    node_radius: u32,
    n: int,
) -> Option<(usize, usize)>
    decreases n,
{
    if n <= 0 {
        None
    } else {
        match areas[n - 1].shape {
            ShapeView::Polygon(points) => match nearest_node(
                projected(projection, points),
                pos,
                node_radius,
            ) {
                Some(i) => Some(((n - 1) as usize, i)),
                None => node_among(areas, projection, pos, node_radius, n - 1),
            },
            ShapeView::Circle { .. } => node_among(areas, projection, pos, node_radius, n - 1),
        }
    }
}

/// Whether the edge from corner `i` to the next corner of `screen` allows corner
/// `node` to move to `new_pos`: an edge at the moved corner is not asked, and
/// any other edge must cross neither of the two edges that the move changes,
/// unless it shares a corner with that edge.
pub open spec fn edge_allows(screen: Seq<ScreenPos>, node: int, new_pos: ScreenPos, i: int) -> bool {
    let n = screen.len() as int;
    let prev = (node + n - 1) % n;
    let next = (node + 1) % n;
    let j = (i + 1) % n;
    i == node || j == node || ((i == prev || j == prev || !segments_cross(
        screen[prev],
        new_pos,
        screen[i],
        screen[j],
    )) && (i == next || j == next || !segments_cross(new_pos, screen[next], screen[i], screen[j])))
}

/// Whether corner `node` of the polygon `screen` may move to `new_pos`: the
/// polygon has fewer than three corners, or every edge allows it.
pub open spec fn move_allowed(screen: Seq<ScreenPos>, node: int, new_pos: ScreenPos) -> bool {
    screen.len() < 3 || forall|i: int| 0 <= i < screen.len() ==> edge_allows(screen, node, new_pos, i)
}

/// The index after `i` on a ring of `n`.
fn ring_next(i: usize, n: usize) -> (r: usize)
    requires
        i < n,
    ensures
        r == (i + 1) % (n as int),
        r < n,
{
    if i + 1 < n {
        proof {
            vstd::arithmetic::div_mod::lemma_small_mod((i + 1) as nat, n as nat);
        }
        i + 1
    } else {
        proof {
            vstd::arithmetic::div_mod::lemma_mod_self_0(n as int);
        }
        0
    }
}

/// The index before `i` on a ring of `n`.
fn ring_prev(i: usize, n: usize) -> (r: usize)
    requires
        i < n,
    ensures
        r == (i + n - 1) % (n as int),
        r < n,
{
    if i > 0 {
        proof {
            vstd::arithmetic::div_mod::lemma_mod_add_multiples_vanish((i - 1) as int, n as int);
            vstd::arithmetic::div_mod::lemma_small_mod((i - 1) as nat, n as nat);
        }
        i - 1
    } else {
        proof {
            vstd::arithmetic::div_mod::lemma_small_mod((n - 1) as nat, n as nat);
        }
        n - 1
    }
}

/// Checks if moving corner `node_idx` of the polygon `screen_points` to
/// `new_screen_pos` would make an edge cross another.
pub fn is_polygon_move_valid(screen_points: &Vec<ScreenPos>, node_idx: usize, new_screen_pos: ScreenPos) -> (r:
    bool)
    requires
        node_idx < screen_points@.len(),
    ensures
        r == move_allowed(screen_points@, node_idx as int, new_screen_pos),
{
    let n: usize = screen_points.len();
    if n < 3 {
        return true;
    }
    let prev_node_idx: usize = ring_prev(node_idx, n);
    let next_node_idx: usize = ring_next(node_idx, n);
    let mut i: usize = 0;
    while i < n
        invariant
            n == screen_points@.len(),
            n >= 3,
            i <= n,
            node_idx < n,
            prev_node_idx == (node_idx + n - 1) % (n as int),
            next_node_idx == (node_idx + 1) % (n as int),
            prev_node_idx < n,
            next_node_idx < n,
            forall|k: int| 0 <= k < i ==> edge_allows(screen_points@, node_idx as int, new_screen_pos, k),
        decreases n - i,
    {
        let p1_idx: usize = i;
        let p2_idx: usize = ring_next(i, n);
        // Don't check against the edges connected to the dragged node.
        if p1_idx != node_idx && p2_idx != node_idx {
            // Check against the first new edge.
            if p1_idx != prev_node_idx && p2_idx != prev_node_idx {
                if segments_intersect(
                    screen_points[prev_node_idx],
                    new_screen_pos,
                    screen_points[p1_idx],
                    screen_points[p2_idx],
                ) {
                    assert(!edge_allows(screen_points@, node_idx as int, new_screen_pos, i as int));
                    return false;
                }
            }
            // Check against the second new edge.

            if p1_idx != next_node_idx && p2_idx != next_node_idx {
                if segments_intersect(
                    new_screen_pos,
                    screen_points[next_node_idx],
                    screen_points[p1_idx],
                    screen_points[p2_idx],
                ) {
                    assert(!edge_allows(screen_points@, node_idx as int, new_screen_pos, i as int));
                    return false;
                }
            }
        }
        i = i + 1;
    }
    true
}

/// The views of the areas of `areas`.
pub open spec fn area_views(areas: Seq<Area>) -> Seq<AreaView> {
    areas.map_values(|a: Area| a@)
}

/// The areas with the shape of area `a` replaced.
pub open spec fn with_shape(areas: Seq<AreaView>, a: int, shape: ShapeView) -> Seq<AreaView> {
    areas.update(a, AreaView { shape, stroke: areas[a].stroke, fill: areas[a].fill })
}

/// The areas after a double click at `pos` on the edge that begins at corner
/// `edge.1` of the polygon `edge.0`: the point of the drawn edge nearest to the
/// click becomes a new corner, just after the edge's first corner.
pub open spec fn inserted_node(
    areas: Seq<AreaView>,
    edge: (usize, usize),
    pos: ScreenPos,
    projection: MapProjection,
) -> Seq<AreaView> {
    match areas[edge.0 as int].shape {
        ShapeView::Polygon(points) => {
            let screen = projected(projection, points);
            let p1 = screen[edge.1 as int];
            let p2 = screen[(edge.1 + 1) % (screen.len() as int)];
            let t = projection_factor_spec(pos, p1, p2);
            with_shape(
                areas,
                edge.0 as int,
                ShapeView::Polygon(
                    points.insert(edge.1 + 1, geo_under(projection, lerp_spec(p1, p2, t.0, t.1))),
                ),
            )
        },
        ShapeView::Circle { .. } => areas,
    }
}

/// The areas after a double click, if the click adds a corner: it does where
/// it takes hold of an edge and of no corner.
pub open spec fn after_double_click(
    areas: Seq<AreaView>,
    input: PointerInput,
    projection: MapProjection,
    node_radius: u32,
) -> Option<Seq<AreaView>> {
    match input.interact_pointer_pos {
        Some(p) if input.double_clicked && node_among(
            areas,
            projection,
            p,
            node_radius,
            areas.len() as int,
        ) is None => match edge_among(areas, projection, p, node_radius, areas.len() as int) {
            Some(edge) => Some(inserted_node(areas, edge, p, projection)),
            None => None,
        },
        _ => None,
    }
}

/// What is held after a drag may have begun: what the pointer takes hold of at
/// the start of a drag, and before and after that what was held already.
pub open spec fn grabbed(
    held: Option<DraggedObject>,
    areas: Seq<AreaView>,
    resolutions: Seq<u32>,
    input: PointerInput,
    projection: MapProjection,
    node_radius: u32,
) -> Option<DraggedObject> {
    match input.interact_pointer_pos {
        Some(p) if input.drag_started => object_among(
            areas,
            resolutions,
            projection,
            p,
            node_radius,
            areas.len() as int,
        ),
        _ => held,
    }
}

/// The radius in millimetres of a circle whose handle was dragged to `pos`:
/// the distance in whole screen units from the center, at `resolution`
/// micrometres to the screen unit, rounded to the millimetre. `None` where that
/// is no positive radius.
pub open spec fn resized_radius(center: ScreenPos, pos: ScreenPos, resolution: u32) -> Option<i64> {
    let r = (crate::arith::sqrt_floor(dist_sq(pos, center) as nat) * resolution + 500) / 1000;
    if r > 0 {
        Some(r as i64)
    } else {
        None
    }
}

/// The areas after the held object `obj` was dragged to `pos`.
///
/// A corner of a polygon moves to the position under the pointer if no edge
/// would then cross another; otherwise it stays. The center of a circle moves
/// there, and the radius stays as it is. The handle of a circle sets the radius
/// to its distance from the center, if that is positive.
pub open spec fn moved(
    areas: Seq<AreaView>,
    resolutions: Seq<u32>,
    obj: DraggedObject,
    pos: ScreenPos,
    projection: MapProjection,
) -> Seq<AreaView> {
    match obj {
        DraggedObject::PolygonNode { area_index, node_index } => if area_index < areas.len() {
            match areas[area_index as int].shape {
                ShapeView::Polygon(points) => if node_index < points.len() && move_allowed(
                    projected(projection, points),
                    node_index as int,
                    projection.project_spec(geo_under(projection, pos)),
                ) {
                    with_shape(
                        areas,
                        area_index as int,
                        ShapeView::Polygon(points.update(node_index as int, geo_under(projection, pos))),
                    )
                } else {
                    areas
                },
                ShapeView::Circle { .. } => areas,
            }
        } else {
            areas
        },
        DraggedObject::CircleCenter { area_index } => if area_index < areas.len() {
            match areas[area_index as int].shape {
                ShapeView::Circle { center, radius, points } => with_shape(
                    areas,
                    area_index as int,
                    ShapeView::Circle { center: geo_under(projection, pos), radius, points },
                ),
                ShapeView::Polygon(_) => areas,
            }
        } else {
            areas
        },
        DraggedObject::CircleRadius { area_index } => if area_index < areas.len() {
            match areas[area_index as int].shape {
                ShapeView::Circle { center, radius, points } => match resized_radius(
                    projection.project_spec(center),
                    pos,
                    resolution_at(resolutions, area_index as int),
                ) {
                    Some(r) => with_shape(
                        areas,
                        area_index as int,
                        ShapeView::Circle { center, radius: r, points },
                    ),
                    None => areas,
                },
                ShapeView::Polygon(_) => areas,
            }
        } else {
            areas
        },
    }
}

/// The areas after a drag went on with `held` in hand.
pub open spec fn after_drag(
    areas: Seq<AreaView>,
    resolutions: Seq<u32>,
    held: Option<DraggedObject>,
    input: PointerInput,
    projection: MapProjection,
) -> Seq<AreaView> {
    match (held, input.interact_pointer_pos) {
        (Some(obj), Some(p)) if input.dragged => moved(areas, resolutions, obj, p, projection),
        _ => areas,
    }
}

/// What is held after a drag may have ended.
pub open spec fn released(held: Option<DraggedObject>, input: PointerInput) -> Option<DraggedObject> {
    if input.drag_stopped {
        None
    } else {
        held
    }
}

/// The number of corners with which a circle is drawn: its own number if it
/// names one of at least three, and the default otherwise.
pub open spec fn corner_count(points: Option<i64>) -> u32 {
    match points {
        Some(p) if 3 <= p <= 0xffff_ffff => p as u32,
        _ => DEFAULT_CIRCLE_POINTS,
    }
}

/// The disc that marks a node at `center`.
pub open spec fn node_mark(center: ScreenPos, node_radius: u32, node_fill: Color) -> DrawCommandView {
    DrawCommandView::Node { center, radius: node_radius, fill: node_fill }
}

/// The commands that draw one area. A polygon of three corners or more is
/// outlined and filled, and one of fewer is not drawn at all; a circle is drawn
/// with its radius in screen units. In modify mode the corners of a polygon, and the
/// center and the handle of a circle, are marked.
pub open spec fn area_commands(
    area: AreaView,
    resolution: u32,
    projection: MapProjection,
    mode: AreaMode,
    node_radius: u32,
    node_fill: Color,
) -> Seq<DrawCommandView> {
    match area.shape {
        ShapeView::Polygon(points) => {
            let screen = projected(projection, points);
            let outline = if screen.len() >= 3 {
                seq![DrawCommandView::Polygon { points: screen, stroke: area.stroke, fill: area.fill }]
            } else {
                Seq::empty()
            };
            let nodes = if mode == AreaMode::Modify {
                screen.map_values(|p: ScreenPos| node_mark(p, node_radius, node_fill))
            } else {
                Seq::empty()
            };
            outline + nodes
        },
        ShapeView::Circle { center, radius, points } => {
            let c = projection.project_spec(center);
            let r = radius_in_units(radius, resolution);
            let outline = seq![
                DrawCommandView::Circle {
                    center: c,
                    radius: r as u32,
                    points: corner_count(points),
                    stroke: area.stroke,
                    fill: area.fill,
                },
            ];
            let nodes = if mode == AreaMode::Modify {
                seq![
                    node_mark(c, node_radius, node_fill),
                    node_mark(ScreenPos { x: (c.x + r) as i32, y: c.y }, node_radius, node_fill),
                ]
            } else {
                Seq::empty()
            };
            outline + nodes
        },
    }
}

/// The commands that draw the first `n` areas, in order.
pub open spec fn drawn_areas(
    areas: Seq<AreaView>,
    resolutions: Seq<u32>,
    projection: MapProjection,
    mode: AreaMode,
    node_radius: u32,
    node_fill: Color,
    n: int,
) -> Seq<DrawCommandView>
    decreases n,
{
    if n <= 0 {
        Seq::empty()
    } else {
        drawn_areas(areas, resolutions, projection, mode, node_radius, node_fill, n - 1) + area_commands(
            areas[n - 1],
            resolution_at(resolutions, n - 1),
            projection,
            mode,
            node_radius,
            node_fill,
        )
    }
}

/// Layer implementation that allows the user to place and edit areas on the
/// map.
pub struct AreaLayer {
    /// The areas, in the order in which they are drawn.
    pub areas: Vec<Area>,
    /// The radius of the nodes in screen units.
    pub node_radius: u32,
    /// The fill color of the nodes.
    pub node_fill: Color,
    /// The current mode.
    pub mode: AreaMode,
    /// What the pointer holds while it drags.
    pub dragged_object: Option<DraggedObject>,
    /// For each area, how many micrometres on the ground a screen unit spans
    /// where the area lies. The host measures this for each frame; it is what
    /// turns a circle's radius into screen units and back. Zero, or no entry,
    /// means "not measured".
    pub resolutions: Vec<u32>,
}

impl Default for AreaLayer {
    fn default() -> (layer: AreaLayer)
        ensures
            layer.views() == Seq::<AreaView>::empty(),
            layer.node_radius == 1280,
            layer.node_fill == (Color { r: 0, g: 128, b: 0, a: 255 }),
            layer.mode == AreaMode::Disabled,
            layer.dragged_object is None,
            layer.resolutions@ == Seq::<u32>::empty(),
            layer.wf(),
    {
        AreaLayer::new()
    }
}

impl AreaLayer {
    /// The areas of the layer, with sequences for their vectors.
    pub open spec fn views(&self) -> Seq<AreaView> {
        area_views(self.areas@)
    }

    /// Whether every area is well formed.
    pub open spec fn wf(&self) -> bool {
        forall|i: int| 0 <= i < self.areas@.len() ==> (#[trigger] self.areas@[i])@.shape.wf()
    }

    /// Whether nothing but the areas and what is held differs between `self` and
    /// `other`.
    pub open spec fn same_settings(&self, other: &AreaLayer) -> bool {
        &&& self.node_radius == other.node_radius
        &&& self.node_fill == other.node_fill
        &&& self.mode == other.mode
        &&& self.resolutions@ == other.resolutions@
    }

    /// Creates a new `AreaLayer`.
    pub fn new() -> (layer: Self)
        ensures
            layer.views() == Seq::<AreaView>::empty(),
            layer.node_radius == 1280,
            layer.node_fill == (Color { r: 0, g: 128, b: 0, a: 255 }),
            layer.mode == AreaMode::Disabled,
            layer.dragged_object is None,
            layer.resolutions@ == Seq::<u32>::empty(),
            layer.wf(),
    {
        let layer = AreaLayer {
            areas: Vec::new(),
            node_radius: 1280,
            node_fill: Color::from_rgb(0, 128, 0),
            mode: AreaMode::Disabled,
            dragged_object: None,
            resolutions: Vec::new(),
        };
        assert(layer.views() =~= Seq::<AreaView>::empty());
        layer
    }

    /// Tests whether every area is well formed.
    pub fn is_valid(&self) -> (r: bool)
        ensures
            r == self.wf(),
    {
        let mut i: usize = 0;
        while i < self.areas.len()
            invariant
                i <= self.areas@.len(),
                forall|k: int| 0 <= k < i ==> (#[trigger] self.areas@[k])@.shape.wf(),
            decreases self.areas@.len() - i,
        {
            if !self.areas[i].is_valid() {
                return false;
            }
            i = i + 1;
        }
        true
    }

    /// Adds a new area to the layer, on top of the others.
    pub fn add_area(&mut self, area: Area)
        requires
            old(self).wf(),
            area@.shape.wf(),
        ensures
            final(self).wf(),
            final(self).views() == old(self).views().push(area@),
            final(self).same_settings(old(self)),
            final(self).dragged_object == old(self).dragged_object,
    {
        let ghost before = self.areas@;
        self.areas.push(area);
        proof {
            assert(self.views() =~= area_views(before).push(area@));
            assert forall|i: int| 0 <= i < self.areas@.len() implies (#[trigger] self.areas@[i])@.shape.wf() by {
                if i < before.len() {
                    assert(self.areas@[i] == before[i]);
                }
            }
        }
    }

    /// The resolution that the host measured for area `i`.
    fn resolution(&self, i: usize) -> (r: u32)
        ensures
            r == resolution_at(self.resolutions@, i as int),
    {
        if i < self.resolutions.len() {
            self.resolutions[i]
        } else {
            0
        }
    }

    /// What `screen_pos` takes hold of in area `area_idx`.
    fn target_in(&self, area_idx: usize, screen_pos: ScreenPos, projection: &MapProjection) -> (r: Option<
        DraggedObject,
    >)
        requires
            self.wf(),
            projection.wf(),
            area_idx < self.areas@.len(),
        ensures
            r == area_target(
                self.views()[area_idx as int],
                area_idx,
                resolution_at(self.resolutions@, area_idx as int),
                *projection,
                screen_pos,
                self.node_radius,
            ),
    {
        assert(self.areas@[area_idx as int]@.shape.wf());
        match &self.areas[area_idx].shape {
            AreaShape::Polygon(points) => {
                let screen = project_all(projection, points);
                match find_nearest_node(&screen, screen_pos, self.node_radius) {
                    Some(node_idx) => Some(
                        DraggedObject::PolygonNode { area_index: area_idx, node_index: node_idx },
                    ),
                    None => None,
                }
            },
            AreaShape::Circle { center, radius, points } => {
                let center_screen = projection.project(*center);
                let radius_units = circle_radius_units(*radius, self.resolution(area_idx));
                // Check for radius handle
                if is_ring_hit(center_screen, radius_units, screen_pos, self.node_radius) {
                    return Some(DraggedObject::CircleRadius { area_index: area_idx });
                }
                // Check for center

                if is_node_hit(center_screen, screen_pos, self.node_radius) {
                    return Some(DraggedObject::CircleCenter { area_index: area_idx });
                }
                None
            },
        }
    }

    /// What the pointer at `screen_pos` takes hold of, if anything.
    pub fn find_object_at(&self, screen_pos: ScreenPos, projection: &MapProjection) -> (r: Option<DraggedObject>)
        requires
            self.wf(),
            projection.wf(),
        ensures
            r == object_among(
                self.views(),
                self.resolutions@,
                *projection,
                screen_pos,
                self.node_radius,
                self.areas@.len() as int,
            ),
    {
        let mut idx: usize = self.areas.len();
        while idx > 0
            invariant
                self.wf(),
                projection.wf(),
                idx <= self.areas@.len(),
                object_among(
                    self.views(),
                    self.resolutions@,
                    *projection,
                    screen_pos,
                    self.node_radius,
                    self.areas@.len() as int,
                ) == object_among(
                    self.views(),
                    self.resolutions@,
                    *projection,
                    screen_pos,
                    self.node_radius,
                    idx as int,
                ),
            decreases idx,
        {
            let target = self.target_in(idx - 1, screen_pos, projection);
            if target.is_some() {
                return target;
            }
            idx = idx - 1;
        }
        None
    }

    /// The polygon corner that the pointer at `screen_pos` takes hold of, as the
    /// number of the area and of the corner.
    pub fn find_node_at(&self, screen_pos: ScreenPos, projection: &MapProjection) -> (r: Option<(usize, usize)>)
        requires
            self.wf(),
            projection.wf(),
        ensures
            r == node_among(
                self.views(),
                *projection,
                screen_pos,
                self.node_radius,
                self.areas@.len() as int,
            ),
    {
        let mut idx: usize = self.areas.len();
        while idx > 0
            invariant
                self.wf(),
                projection.wf(),
                idx <= self.areas@.len(),
                node_among(
                    self.views(),
                    *projection,
                    screen_pos,
                    self.node_radius,
                    self.areas@.len() as int,
                ) == node_among(self.views(), *projection, screen_pos, self.node_radius, idx as int),
            decreases idx,
        {
            let area_idx: usize = idx - 1;
            assert(self.areas@[area_idx as int]@.shape.wf());
            if let AreaShape::Polygon(points) = &self.areas[area_idx].shape {
                let screen = project_all(projection, points);
                if let Some(node_idx) = find_nearest_node(&screen, screen_pos, self.node_radius) {
                    return Some((area_idx, node_idx));
                }
            }
            idx = idx - 1;
        }
        None
    }

    /// The polygon edge that the pointer at `screen_pos` takes hold of, as the
    /// number of the area and of the edge's first corner.
    pub fn find_line_segment_at(&self, screen_pos: ScreenPos, projection: &MapProjection) -> (r: Option<
        (usize, usize),
    >)
        requires
            self.wf(),
            projection.wf(),
            screen_pos.wf(),
        ensures
            r == edge_among(
                self.views(),
                *projection,
                screen_pos,
                self.node_radius,
                self.areas@.len() as int,
            ),
            r matches Some(edge) ==> edge.0 < self.areas@.len() && (self.views()[edge.0 as int].shape
                matches ShapeView::Polygon(points) && points.len() >= 2 && edge.1 < points.len()),
    {
        let mut idx: usize = self.areas.len();
        while idx > 0
            invariant
                self.wf(),
                projection.wf(),
                screen_pos.wf(),
                idx <= self.areas@.len(),
                edge_among(
                    self.views(),
                    *projection,
                    screen_pos,
                    self.node_radius,
                    self.areas@.len() as int,
                ) == edge_among(self.views(), *projection, screen_pos, self.node_radius, idx as int),
            decreases idx,
        {
            let area_idx: usize = idx - 1;
            assert(self.areas@[area_idx as int]@.shape.wf());
            if let AreaShape::Polygon(points) = &self.areas[area_idx].shape {
                let screen = project_all(projection, points);
                if let Some(i) = find_first_edge(&screen, screen_pos, self.node_radius) {
                    return Some((area_idx, i));
                }
            }
            idx = idx - 1;
        }
        None
    }

    /// Checks if moving a node to a new position would cause the polygon to
    /// self-intersect. An area that does not exist allows no move; a polygon of
    /// fewer than three corners and a circle allow every move; otherwise the
    /// node must exist and no edge may come to cross another.
    pub fn is_move_valid(
        &self,
        area_idx: usize,
        node_idx: usize,
        new_screen_pos: ScreenPos,
        projection: &MapProjection,
    ) -> (r: bool)
        requires
            self.wf(),
            projection.wf(),
        ensures
            r == (area_idx < self.areas@.len() && match self.views()[area_idx as int].shape {
                ShapeView::Polygon(points) => points.len() < 3 || (node_idx < points.len() && move_allowed(
                    projected(*projection, points),
                    node_idx as int,
                    new_screen_pos,
                )),
                ShapeView::Circle { .. } => true,
            }),
    {
        if area_idx >= self.areas.len() {
            return false;  // Should not happen
        }
        assert(self.areas@[area_idx as int]@.shape.wf());
        match &self.areas[area_idx].shape {
            AreaShape::Polygon(points) => {
                if points.len() < 3 {
                    return true;
                }
                if node_idx >= points.len() {
                    return false;
                }
                let screen_points = project_all(projection, points);
                is_polygon_move_valid(&screen_points, node_idx, new_screen_pos)
            },
            _ => true,  // Not a polygon, no intersections possible.
        }
    }

    /// Puts `area` in the place of area `a`.
    fn replace_area(&mut self, a: usize, area: Area)
        requires
            old(self).wf(),
            a < old(self).areas@.len(),
            area@.shape.wf(),
        ensures
            final(self).wf(),
            final(self).views() == old(self).views().update(a as int, area@),
            final(self).same_settings(old(self)),
            final(self).dragged_object == old(self).dragged_object,
    {
        let ghost before = self.areas@;
        let _ = self.areas.remove(a);
        self.areas.insert(a, area);
        proof {
            assert(self.areas@ =~= before.update(a as int, area));
            assert(self.views() =~= area_views(before).update(a as int, area@));
            assert forall|i: int| 0 <= i < self.areas@.len() implies (#[trigger] self.areas@[i])@.shape.wf() by {
                if i != a {
                    assert(self.areas@[i] == before[i]);
                }
            }
        }
    }

    /// Adds a corner to the polygon `edge.0` on the edge that begins at corner
    /// `edge.1`, at the point of the drawn edge nearest to `pointer_pos`.
    fn insert_node(&mut self, edge: (usize, usize), pointer_pos: ScreenPos, projection: &MapProjection)
        requires
            old(self).wf(),
            projection.wf(),
            edge.0 < old(self).areas@.len(),
            old(self).views()[edge.0 as int].shape matches ShapeView::Polygon(points) && edge.1
                < points.len(),
        ensures
            final(self).wf(),
            final(self).views() == inserted_node(old(self).views(), edge, pointer_pos, *projection),
            final(self).same_settings(old(self)),
            final(self).dragged_object == old(self).dragged_object,
    {
        assert(self.areas@[edge.0 as int]@.shape.wf());
        let stroke = self.areas[edge.0].stroke;
        let fill = self.areas[edge.0].fill;
        if let AreaShape::Polygon(points) = &self.areas[edge.0].shape {
            let next: usize = ring_next(edge.1, points.len());
            assert(points@[edge.1 as int].in_world() && points@[next as int].in_world());
            let p1_screen = projection.project(points[edge.1]);
            let p2_screen = projection.project(points[next]);
            let t = projection_factor(pointer_pos, p1_screen, p2_screen);
            // Interpolate in screen space and unproject to get the new
            // geographical position.
            let new_pos_screen = lerp(p1_screen, p2_screen, t);
            let new_pos_geo = position_under(projection, new_pos_screen);
            let mut new_points = copy_points(points);
            new_points.insert(edge.1 + 1, new_pos_geo);
            proof {
                assert forall|i: int| 0 <= i < new_points@.len() implies (#[trigger] new_points@[i]).in_world() by {
                    if i < edge.1 + 1 {
                        assert(new_points@[i] == points@[i]);
                    } else if i > edge.1 + 1 {
                        assert(new_points@[i] == points@[i - 1]);
                    }
                }
            }
            self.replace_area(edge.0, Area { shape: AreaShape::Polygon(new_points), stroke, fill });
        }
    }

    /// Moves what is held to the position under `pointer_pos`, if the move is
    /// allowed.
    fn drag_object(&mut self, obj: DraggedObject, pointer_pos: ScreenPos, projection: &MapProjection)
        requires
            old(self).wf(),
            projection.wf(),
            pointer_pos.wf(),
        ensures
            final(self).wf(),
            final(self).views() == moved(
                old(self).views(),
                old(self).resolutions@,
                obj,
                pointer_pos,
                *projection,
            ),
            final(self).same_settings(old(self)),
            final(self).dragged_object == old(self).dragged_object,
    {
        match obj {
            DraggedObject::PolygonNode { area_index, node_index } => {
                let candidate = position_under(projection, pointer_pos);
                let candidate_screen = projection.project(candidate);
                if self.is_move_valid(area_index, node_index, candidate_screen, projection) {
                    assert(self.areas@[area_index as int]@.shape.wf());
                    let stroke = self.areas[area_index].stroke;
                    let fill = self.areas[area_index].fill;
                    if let AreaShape::Polygon(points) = &self.areas[area_index].shape {
                        if node_index >= points.len() {
                            return ;
                        }
                        let mut new_points = copy_points(points);
                        new_points.set(node_index, candidate);
                        proof {
                            assert forall|i: int| 0 <= i < new_points@.len() implies (
                            #[trigger] new_points@[i]).in_world() by {
                                if i != node_index {
                                    assert(new_points@[i] == points@[i]);
                                }
                            }
                        }
                        self.replace_area(
                            area_index,
                            Area { shape: AreaShape::Polygon(new_points), stroke, fill },
                        );
                    }
                }
            },
            DraggedObject::CircleCenter { area_index } => {
                if area_index < self.areas.len() {
                    let stroke = self.areas[area_index].stroke;
                    let fill = self.areas[area_index].fill;
                    assert(self.areas@[area_index as int]@.shape.wf());
                    if let AreaShape::Circle { center, radius, points } = &self.areas[area_index].shape {
                        let shape = AreaShape::Circle {
                            center: position_under(projection, pointer_pos),
                            radius: *radius,
                            points: *points,
                        };
                        self.replace_area(area_index, Area { shape, stroke, fill });
                    }
                }
            },
            DraggedObject::CircleRadius { area_index } => {
                if area_index < self.areas.len() {
                    let stroke = self.areas[area_index].stroke;
                    let fill = self.areas[area_index].fill;
                    let resolution: u32 = self.resolution(area_index);
                    assert(self.areas@[area_index as int]@.shape.wf());
                    if let AreaShape::Circle { center, radius, points } = &self.areas[area_index].shape {
                        // Convert the new screen-space radius back to a length on the ground.
                        let center_screen = projection.project(*center);
                        proof {
                            crate::layers::lemma_dist_sq_bound(pointer_pos, center_screen);
                        }
                        let d2: u64 = distance_sq(pointer_pos, center_screen) as u64;
                        let new_radius_units: u64 = isqrt(d2);
                        assert(new_radius_units <= 0x6000_0000) by (nonlinear_arith)
                            requires
                                new_radius_units * new_radius_units <= d2,
                                d2 <= 0x2000_0000_0000_0000,
                                0 <= new_radius_units,
                        ;
                        assert(new_radius_units * resolution <= 0x6000_0000 * 0xffff_ffff) by (nonlinear_arith)
                            requires
                                0 <= new_radius_units <= 0x6000_0000,
                                0 <= resolution <= 0xffff_ffff,
                        ;
                        let new_radius: u64 = (new_radius_units * (resolution as u64) + 500) / 1000;
                        if new_radius > 0 {
                            let shape = AreaShape::Circle {
                                center: *center,
                                radius: new_radius as i64,
                                points: *points,
                            };
                            self.replace_area(area_index, Area { shape, stroke, fill });
                        }
                    }
                }
            },
        }
    }

    /// Handles one frame of input in modify mode. Returns whether the layer took
    /// the input: it does while it holds something and while the pointer is over
    /// the map.
    pub fn handle_modify_input(&mut self, input: &PointerInput, projection: &MapProjection) -> (handled: bool)
        requires
            old(self).wf(),
            input.wf(),
            projection.wf(),
        ensures
            final(self).wf(),
            final(self).same_settings(old(self)),
            match after_double_click(old(self).views(), *input, *projection, old(self).node_radius) {
                Some(areas) => {
                    &&& final(self).views() == areas
                    &&& final(self).dragged_object == old(self).dragged_object
                    &&& handled == input.hovered
                },
                None => {
                    let held = grabbed(
                        old(self).dragged_object,
                        old(self).views(),
                        old(self).resolutions@,
                        *input,
                        *projection,
                        old(self).node_radius,
                    );
                    &&& final(self).views() == after_drag(
                        old(self).views(),
                        old(self).resolutions@,
                        held,
                        *input,
                        *projection,
                    )
                    &&& final(self).dragged_object == released(held, *input)
                    &&& handled == (final(self).dragged_object is Some || input.hovered)
                },
            },
    {
        if input.double_clicked {
            if let Some(pointer_pos) = input.interact_pointer_pos {
                if self.find_node_at(pointer_pos, projection).is_none() {
                    if let Some(edge) = self.find_line_segment_at(pointer_pos, projection) {
                        self.insert_node(edge, pointer_pos, projection);
                        // This interaction is fully handled, so we can return.
                        return input.hovered;
                    }
                }
            }
        }
        if input.drag_started {
            if let Some(pointer_pos) = input.interact_pointer_pos {
                self.dragged_object = self.find_object_at(pointer_pos, projection);
            }
        }
        if input.dragged {
            if let Some(dragged_object) = self.dragged_object {
                if let Some(pointer_pos) = input.interact_pointer_pos {
                    self.drag_object(dragged_object, pointer_pos, projection);
                }
            }
        }
        if input.drag_stopped {
            self.dragged_object = None;
        }
        let is_dragging: bool = self.dragged_object.is_some();
        is_dragging || input.hovered
    }

    /// The shape that the pointer takes over the layer in modify mode: a
    /// closed hand while it holds something, and an open hand over something
    /// that it can take hold of.
    pub open spec fn cursor_spec(&self, input: PointerInput, projection: MapProjection) -> Option<CursorIcon> {
        if self.mode == AreaMode::Disabled {
            None
        } else if self.dragged_object is Some {
            Some(CursorIcon::Grabbing)
        } else {
            match input.hover_pos {
                Some(p) if object_among(
                    self.views(),
                    self.resolutions@,
                    projection,
                    p,
                    self.node_radius,
                    self.areas@.len() as int,
                ) is Some => Some(CursorIcon::Grab),
                _ => None,
            }
        }
    }

    /// The shape that the pointer takes over the layer.
    pub fn cursor_icon(&self, input: &PointerInput, projection: &MapProjection) -> (icon: Option<CursorIcon>)
        requires
            self.wf(),
            input.wf(),
            projection.wf(),
        ensures
            icon == self.cursor_spec(*input, *projection),
    {
        match self.mode {
            AreaMode::Disabled => None,
            AreaMode::Modify => {
                if self.dragged_object.is_some() {
                    Some(CursorIcon::Grabbing)
                } else if let Some(pointer_pos) = input.hover_pos {
                    if self.find_object_at(pointer_pos, projection).is_some() {
                        Some(CursorIcon::Grab)
                    } else {
                        None
                    }
                } else {
                    None
                }
            },
        }
    }

    /// Adds the commands that draw area `i` to `commands`.
    fn push_area_commands(&self, i: usize, projection: &MapProjection, commands: &mut Vec<DrawCommand>)
        requires
            self.wf(),
            projection.wf(),
            i < self.areas@.len(),
        ensures
            command_views(final(commands)@) == command_views(old(commands)@) + area_commands(
                self.views()[i as int],
                resolution_at(self.resolutions@, i as int),
                *projection,
                self.mode,
                self.node_radius,
                self.node_fill,
            ),
    {
        let ghost before = command_views(commands@);
        let area = &self.areas[i];
        assert(self.areas@[i as int]@.shape.wf());
        match &area.shape {
            AreaShape::Polygon(points) => {
                let screen_points = project_all(projection, points);
                let ghost screen = screen_points@;
                let ghost outline: Seq<DrawCommandView> = if screen.len() >= 3 {
                    seq![DrawCommandView::Polygon { points: screen, stroke: area.stroke, fill: area.fill }]
                } else {
                    Seq::empty()
                };
                // Draw the outline and the fill.
                if screen_points.len() >= 3 {
                    let ghost prev = commands@;
                    let outline_points = project_all(projection, points);
                    commands.push(
                        DrawCommand::Polygon { points: outline_points, stroke: area.stroke, fill: area.fill },
                    );
                    assert(command_views(commands@) =~= command_views(prev) + outline);
                } else {
                    assert(command_views(commands@) =~= before + outline);
                }
                // Draw nodes only when in modify mode

                if self.mode == AreaMode::Modify {
                    let mut k: usize = 0;
                    let ghost nodes = screen.map_values(
                        |p: ScreenPos| node_mark(p, self.node_radius, self.node_fill),
                    );
                    assert(command_views(commands@) =~= before + outline + nodes.take(0));
                    while k < screen_points.len()
                        invariant
                            k <= screen_points@.len(),
                            screen == screen_points@,
                            nodes == screen.map_values(
                                |p: ScreenPos| node_mark(p, self.node_radius, self.node_fill),
                            ),
                            command_views(commands@) == before + outline + nodes.take(k as int),
                        decreases screen_points@.len() - k,
                    {
                        let ghost prev = commands@;
                        commands.push(
                            DrawCommand::Node {
                                center: screen_points[k],
                                radius: self.node_radius,
                                fill: self.node_fill,
                            },
                        );
                        assert(command_views(commands@) =~= command_views(prev).push(nodes[k as int]));
                        assert(nodes.take(k + 1) =~= nodes.take(k as int).push(nodes[k as int]));
                        k = k + 1;
                    }
                    assert(nodes.take(screen_points@.len() as int) =~= nodes);
                } else {
                    assert(command_views(commands@) =~= before + outline + Seq::<DrawCommandView>::empty());
                }
            },
            AreaShape::Circle { center, radius, points } => {
                let center_screen = projection.project(*center);
                // Convert the radius to screen units to position the handle.
                let radius_units: u32 = circle_radius_units(*radius, self.resolution(i));
                let corners: u32 = match *points {
                    Some(p) => if 3 <= p && p <= 0xffff_ffff {
                        p as u32
                    } else {
                        DEFAULT_CIRCLE_POINTS
                    },
                    None => DEFAULT_CIRCLE_POINTS,
                };
                let ghost prev = commands@;
                commands.push(
                    DrawCommand::Circle {
                        center: center_screen,
                        radius: radius_units,
                        points: corners,
                        stroke: area.stroke,
                        fill: area.fill,
                    },
                );
                let ghost outline = seq![
                    DrawCommandView::Circle {
                        center: center_screen,
                        radius: radius_units,
                        points: corners,
                        stroke: area.stroke,
                        fill: area.fill,
                    },
                ];
                assert(command_views(commands@) =~= before + outline);
                if self.mode == AreaMode::Modify {
                    let ghost prev2 = commands@;
                    commands.push(
                        DrawCommand::Node {
                            center: center_screen,
                            radius: self.node_radius,
                            fill: self.node_fill,
                        },
                    );
                    let radius_handle_pos = ScreenPos {
                        x: center_screen.x + radius_units as i32,
                        y: center_screen.y,
                    };
                    commands.push(
                        DrawCommand::Node {
                            center: radius_handle_pos,
                            radius: self.node_radius,
                            fill: self.node_fill,
                        },
                    );
                    assert(command_views(commands@) =~= before + outline + seq![
                        node_mark(center_screen, self.node_radius, self.node_fill),
                        node_mark(radius_handle_pos, self.node_radius, self.node_fill),
                    ]);
                } else {
                    assert(command_views(commands@) =~= before + outline + Seq::<DrawCommandView>::empty());
                }
            },
        }
    }

    /// Draws the layer: the commands for every area, from the first to the last.
    pub fn draw_areas(&self, projection: &MapProjection) -> (commands: Vec<DrawCommand>)
        requires
            self.wf(),
            projection.wf(),
        ensures
            command_views(commands@) == drawn_areas(
                self.views(),
                self.resolutions@,
                *projection,
                self.mode,
                self.node_radius,
                self.node_fill,
                self.areas@.len() as int,
            ),
    {
        let mut commands: Vec<DrawCommand> = Vec::new();
        let mut i: usize = 0;
        assert(command_views(commands@) =~= Seq::<DrawCommandView>::empty());
        while i < self.areas.len()
            invariant
                self.wf(),
                projection.wf(),
                i <= self.areas@.len(),
                command_views(commands@) == drawn_areas(
                    self.views(),
                    self.resolutions@,
                    *projection,
                    self.mode,
                    self.node_radius,
                    self.node_fill,
                    i as int,
                ),
            decreases self.areas@.len() - i,
        {
            self.push_area_commands(i, projection, &mut commands);
            i = i + 1;
        }
        commands
    }
}

impl Layer for AreaLayer {
    open spec fn layer_wf(&self) -> bool {
        self.wf()
    }

    /// A disabled layer takes no input and stays as it is. In modify mode a
    /// double click that adds a corner does only that; otherwise the start of a
    /// drag takes hold of what is under the pointer, a drag moves what is held,
    /// and the end of a drag lets go; the layer takes the input while it holds
    /// something and while the pointer is over the map.
    open spec fn stepped(&self, after: &Self, input: PointerInput, projection: MapProjection, handled: bool) -> bool {
        &&& after.same_settings(self)
        &&& (self.mode == AreaMode::Disabled ==> !handled && after.views() == self.views()
            && after.dragged_object == self.dragged_object)
        &&& (self.mode == AreaMode::Modify ==> match after_double_click(
            self.views(),
            input,
            projection,
            self.node_radius,
        ) {
            Some(areas) => {
                &&& after.views() == areas
                &&& after.dragged_object == self.dragged_object
                &&& handled == input.hovered
            },
            None => {
                let held = grabbed(
                    self.dragged_object,
                    self.views(),
                    self.resolutions@,
                    input,
                    projection,
                    self.node_radius,
                );
                &&& after.views() == after_drag(self.views(), self.resolutions@, held, input, projection)
                &&& after.dragged_object == released(held, input)
                &&& handled == (after.dragged_object is Some || input.hovered)
            },
        })
    }

    open spec fn drawn(&self, projection: MapProjection) -> Seq<DrawCommandView> {
        drawn_areas(
            self.views(),
            self.resolutions@,
            projection,
            self.mode,
            self.node_radius,
            self.node_fill,
            self.areas@.len() as int,
        )
    }

    fn handle_input(&mut self, input: &PointerInput, projection: &MapProjection) -> (handled: bool) {
        match self.mode {
            AreaMode::Disabled => false,
            AreaMode::Modify => self.handle_modify_input(input, projection),
        }
    }

    fn draw(&self, projection: &MapProjection) -> (commands: Vec<DrawCommand>) {
        self.draw_areas(projection)
    }
}

/// A move of a polygon's corner that would make an edge cross another is
/// refused: every area is afterwards as it was before.
pub proof fn lemma_crossing_move_is_refused(
    areas: Seq<AreaView>,
    resolutions: Seq<u32>,
    area_index: usize,
    node_index: usize,
    pos: ScreenPos,
    projection: MapProjection,
)
    requires
        area_index < areas.len(),
        areas[area_index as int].shape matches ShapeView::Polygon(points) && node_index < points.len()
            && !move_allowed(
            projected(projection, points),
            node_index as int,
            projection.project_spec(geo_under(projection, pos)),
        ),
    ensures
        moved(
            areas,
            resolutions,
            DraggedObject::PolygonNode { area_index, node_index },
            pos,
            projection,
        ) == areas,
{
}

/// Moving a circle changes its center and nothing else: the radius on the
/// ground stays as it was.
pub proof fn lemma_circle_move_keeps_radius(
    areas: Seq<AreaView>,
    resolutions: Seq<u32>,
    area_index: usize,
    pos: ScreenPos,
    projection: MapProjection,
)
    requires
        area_index < areas.len(),
        areas[area_index as int].shape is Circle,
    ensures
        ({
            let after = moved(
                areas,
                resolutions,
                DraggedObject::CircleCenter { area_index },
                pos,
                projection,
            );
            &&& after.len() == areas.len()
            &&& after[area_index as int].shape matches ShapeView::Circle { center, radius, points }
                && center == geo_under(projection, pos) && radius == areas[area_index as int].shape->radius
                && points == areas[area_index as int].shape->points
            &&& forall|i: int| 0 <= i < areas.len() && i != area_index ==> after[i] == areas[i]
        }),
{
}

/// A polygon of fewer than three corners is never filled: no command for it
/// is a filled outline.
pub proof fn lemma_short_polygon_is_not_filled(
    area: AreaView,
    resolution: u32,
    projection: MapProjection,
    mode: AreaMode,
    node_radius: u32,
    node_fill: Color,
    i: int,
)
    requires
        area.shape matches ShapeView::Polygon(points) && points.len() < 3,
        0 <= i < area_commands(area, resolution, projection, mode, node_radius, node_fill).len(),
    ensures
        area_commands(area, resolution, projection, mode, node_radius, node_fill)[i] is Node,
{
}

/// The position of the handle of a circle drawn at `center` with a radius of
/// `units` screen units.
pub open spec fn handle_position(center: ScreenPos, units: int) -> ScreenPos {
    ScreenPos { x: (center.x + units) as i32, y: center.y }
}

/// A radius that is turned into screen units, and read back from the handle
/// that is drawn at that distance, comes back within one part in a hundred of
/// itself: it differs by at most half the span of a screen unit and half a
/// millimetre. This holds where a twentieth of the radius is more than the span
/// of a screen unit, and the circle is not larger than the largest that is
/// drawn.
pub proof fn lemma_radius_round_trip(center: ScreenPos, radius: i64, resolution: u32)
    requires
        center.wf(),
        radius > 0,
        resolution > 0,
        resolution + 1001 <= 20 * radius,
        (1000 * radius + resolution / 2) / (resolution as int) <= 0x4000_0000,
    ensures
        resized_radius(
            center,
            handle_position(center, radius_in_units(radius, resolution)),
            resolution,
        ) matches Some(back) && {
            &&& -(resolution + 1001) <= 2000 * (back - radius) <= resolution + 1001
            &&& -radius <= 100 * (back - radius) <= radius
        },
{
    let res = resolution as int;
    let half = res / 2;
    let u = (1000 * radius + half) / res;
    assert(u * res <= 1000 * radius + half < u * res + res && u >= 0) by (nonlinear_arith)
        requires
            u == (1000 * radius + half) / res,
            res > 0,
            radius > 0,
            half >= 0,
    ;
    assert(u == radius_in_units(radius, resolution));
    let handle = handle_position(center, u);
    assert(handle.x - center.x == u);
    assert(dist_sq(handle, center) == u * u) by (nonlinear_arith)
        requires
            handle.x - center.x == u,
            handle.y == center.y,
    ;
    assert(u * u < (u + 1) * (u + 1)) by (nonlinear_arith)
        requires
            u >= 0,
    ;
    crate::arith::lemma_sqrt_floor((u * u) as nat, u);
    assert(0 <= u * res <= 0x4000_0000 * 0xffff_ffff) by (nonlinear_arith)
        requires
            0 <= u <= 0x4000_0000,
            0 < res <= 0xffff_ffff,
    ;
}

} // verus!
