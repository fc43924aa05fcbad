//! Layers that handle input and draw on top of the map, and the screen-space
//! geometry that they share.

use vstd::prelude::*;

/// Area layer
pub mod area;
/// Drawing layer
pub mod drawing;
/// GeoJSON features for the layers' shapes.
pub mod geojson;
/// The layers of a map, one on top of the other.
pub mod stack;
/// Text layer
pub mod text;
/// Tile layer
pub mod tile;

use crate::arith::clamp_int;
use crate::arith::isqrt_wide;
use crate::arith::mul_wide;
use crate::arith::sign_int;
use crate::arith::sqrt_floor;
use crate::cache::TileDraw;
use crate::input::PointerInput;
use crate::projection::GeoPos;
use crate::projection::MapProjection;
use crate::projection::ScreenPos;
use crate::style::Color;
use crate::style::Stroke;

verus! {

/// One thing for the host to paint.
#[derive(Debug, PartialEq, Eq)]
#[allow(inconsistent_fields)]
pub enum DrawCommand {
    /// An open line through the points.
    Line { points: Vec<ScreenPos>, stroke: Stroke },
    /// A closed outline through the points, filled. The host cuts the inside
    /// into triangles.
    Polygon { points: Vec<ScreenPos>, stroke: Stroke, fill: Color },
    /// A circle of the given radius in screen units, outlined and filled, which the
    /// host draws as a polygon of `points` corners.
    Circle { center: ScreenPos, radius: u32, points: u32, stroke: Stroke, fill: Color },
    /// The filled disc that marks a node or a handle.
    Node { center: ScreenPos, radius: u32, fill: Color },
    /// A text centered on `center`, on a background.
    Label { center: ScreenPos, text: String, size: u32, color: Color, background: Color },
    /// A map tile: its image, tinted, or a placeholder.
    Tile { draw: TileDraw, tint: Color },
}

/// What a `DrawCommand` holds, with sequences for its vectors and strings.
#[allow(inconsistent_fields)]
pub enum DrawCommandView {
    /// An open line through the points.
    Line { points: Seq<ScreenPos>, stroke: Stroke },
    /// A closed outline through the points, filled.
    Polygon { points: Seq<ScreenPos>, stroke: Stroke, fill: Color },
    /// A circle of the given radius in screen units.
    Circle { center: ScreenPos, radius: u32, points: u32, stroke: Stroke, fill: Color },
    /// The filled disc that marks a node or a handle.
    Node { center: ScreenPos, radius: u32, fill: Color },
    /// A text centered on `center`, on a background.
    Label { center: ScreenPos, text: Seq<char>, size: u32, color: Color, background: Color },
    /// A map tile: its image, tinted, or a placeholder.
    Tile { draw: TileDraw, tint: Color },
}

impl View for DrawCommand {
    type V = DrawCommandView;

    open spec fn view(&self) -> DrawCommandView {
        match *self {
            DrawCommand::Line { points, stroke } => DrawCommandView::Line { points: points@, stroke },
            DrawCommand::Polygon { points, stroke, fill } => DrawCommandView::Polygon {
                points: points@,
                stroke,
                fill,
            },
            DrawCommand::Circle { center, radius, points, stroke, fill } => DrawCommandView::Circle {
                center,
                radius,
                points,
                stroke,
                fill,
            },
            DrawCommand::Node { center, radius, fill } => DrawCommandView::Node { center, radius, fill },
            DrawCommand::Label { center, text, size, color, background } => DrawCommandView::Label {
                center,
                text: text@,
                size,
                color,
                background,
            },
            DrawCommand::Tile { draw, tint } => DrawCommandView::Tile { draw, tint },
        }
    }
}

/// The views of the commands of `commands`.
pub open spec fn command_views(commands: Seq<DrawCommand>) -> Seq<DrawCommandView> {
    commands.map_values(|c: DrawCommand| c@)
}

/// Whether every position of the sequence lies within the world.
pub open spec fn all_in_world(points: Seq<GeoPos>) -> bool {
    forall|i: int| 0 <= i < points.len() ==> (#[trigger] points[i]).in_world()
}

/// The screen positions of `points`.
pub open spec fn projected(projection: MapProjection, points: Seq<GeoPos>) -> Seq<ScreenPos> {
    points.map_values(|g: GeoPos| projection.project_spec(g))
}

/// The position under the screen position `p`, held within the world.
pub open spec fn geo_under(projection: MapProjection, p: ScreenPos) -> GeoPos {
    projection.unproject_spec(p).clamped()
}

/// Tests whether every position of `points` lies within the world.
pub fn points_in_world(points: &Vec<GeoPos>) -> (r: bool)
    ensures
        r == all_in_world(points@),
{
    let mut j: usize = 0;
    while j < points.len()
        invariant
            j <= points@.len(),
            forall|k: int| 0 <= k < j ==> (#[trigger] points@[k]).in_world(),
        decreases points@.len() - j,
    {
        if !points[j].is_in_world() {
            return false;
        }
        j = j + 1;
    }
    true
}

/// A copy of `points`.
pub fn copy_points(points: &Vec<GeoPos>) -> (copy: Vec<GeoPos>)
    ensures
        copy@ == points@,
{
    let mut copy: Vec<GeoPos> = Vec::new();
    let mut i: usize = 0;
    while i < points.len()
        invariant
            i <= points@.len(),
            copy@ == points@.take(i as int),
        decreases points@.len() - i,
    {
        copy.push(points[i]);
        assert(copy@ =~= points@.take(i + 1));
        i = i + 1;
    }
    assert(points@.take(points@.len() as int) =~= points@);
    copy
}

/// Projects every position of `points`.
pub fn project_all(projection: &MapProjection, points: &Vec<GeoPos>) -> (screen: Vec<ScreenPos>)
    requires
        projection.wf(),
        all_in_world(points@),
    ensures
        screen@ == projected(*projection, points@),
        forall|i: int| 0 <= i < screen@.len() ==> (#[trigger] screen@[i]).wf(),
{
    let mut screen: Vec<ScreenPos> = Vec::new();
    let mut i: usize = 0;
    while i < points.len()
        invariant
            projection.wf(),
            all_in_world(points@),
            i <= points@.len(),
            screen@.len() == i,
            forall|k: int| 0 <= k < i ==> #[trigger] screen@[k] == projection.project_spec(points@[k]),
            forall|k: int| 0 <= k < i ==> (#[trigger] screen@[k]).wf(),
        decreases points@.len() - i,
    {
        assert(points@[i as int].in_world());
        screen.push(projection.project(points[i]));
        i = i + 1;
    }
    assert(screen@ =~= projected(*projection, points@));
    screen
}

/// The position under the screen position `p`, held within the world.
pub fn position_under(projection: &MapProjection, p: ScreenPos) -> (g: GeoPos)
    requires
        projection.wf(),
        p.wf(),
    ensures
        g == geo_under(*projection, p),
        g.in_world(),
{
    projection.unproject(p).clamp_to_world()
}

/// A map layer: it is offered each frame's input and then asked what to paint.
pub trait Layer {
    /// Whether the layer's own data is well formed.
    spec fn layer_wf(&self) -> bool;

    /// Whether `after` is what a frame with the input `input` leaves of the
    /// layer, and `handled` what the layer answers.
    spec fn stepped(&self, after: &Self, input: PointerInput, projection: MapProjection, handled: bool) -> bool;

    /// What the layer paints, as the views of its commands.
    spec fn drawn(&self, projection: MapProjection) -> Seq<DrawCommandView>;

    /// Handles user input for the layer. Returns `true` if the input was handled
    /// and should not be processed further by the map.
    fn handle_input(&mut self, input: &PointerInput, projection: &MapProjection) -> (handled: bool)
        requires
            old(self).layer_wf(),
            input.wf(),
            projection.wf(),
        ensures
            final(self).layer_wf(),
            old(self).stepped(final(self), *input, *projection, handled),
    ;

    /// Draws the layer: the commands for the host to paint, in order.
    fn draw(&self, projection: &MapProjection) -> (commands: Vec<DrawCommand>)
        requires
            self.layer_wf(),
            projection.wf(),
        ensures
            command_views(commands@) == self.drawn(*projection),
    ;
}

/// A non-negative rational number.
#[derive(Clone, Copy, Debug, PartialEq, Eq, Structural)]
pub struct Fraction {
    /// The numerator.
    pub num: u128,
    /// The denominator, which is positive.
    pub den: u128,
}

impl Fraction {
    /// Whether the fraction is less than the whole number `k`.
    pub open spec fn below(self, k: int) -> bool {
        self.num < k * self.den
    }

    /// Tests whether the fraction is less than the whole number `k`.
    pub fn is_below(&self, k: u128) -> (r: bool)
        requires
            self.den > 0,
        ensures
            r == self.below(k as int),
    {
        // num < k * den  <=>  num / den < k, for whole k
        let q: u128 = self.num / self.den;
        proof {
            let n = self.num as int;
            let d = self.den as int;
            let kk = k as int;
            assert(n == d * (n / d) + n % d && 0 <= n % d < d) by {
                vstd::arithmetic::div_mod::lemma_fundamental_div_mod(n, d);
                vstd::arithmetic::div_mod::lemma_mod_bound(n, d);
            }
            assert((n / d < kk) <==> (n < kk * d)) by (nonlinear_arith)
                requires
                    n == d * (n / d) + n % d,
                    0 <= n % d < d,
                    d > 0,
            ;
        }
        q < k
    }
}

/// The square of the distance between `a` and `b`.
pub open spec fn dist_sq(a: ScreenPos, b: ScreenPos) -> int {
    (b.x - a.x) * (b.x - a.x) + (b.y - a.y) * (b.y - a.y)
}

/// The dot product of `p - a` and `b - a`.
pub open spec fn dot(p: ScreenPos, a: ScreenPos, b: ScreenPos) -> int {
    (p.x - a.x) * (b.x - a.x) + (p.y - a.y) * (b.y - a.y)
}

/// The cross product of `q - p` and `r - q`, written so that it is positive
/// where the path from `p` over `q` to `r` turns clockwise on a plane whose `y`
/// axis points up.
pub open spec fn turn(p: ScreenPos, q: ScreenPos, r: ScreenPos) -> int {
    (q.y - p.y) * (r.x - q.x) - (q.x - p.x) * (r.y - q.y)
}

/// The orientation of the triple: 0 where the points are collinear, 1 where they
/// turn clockwise, -1 where they turn counter-clockwise.
pub open spec fn orientation_spec(p: ScreenPos, q: ScreenPos, r: ScreenPos) -> int {
    sign_int(turn(p, q, r))
}

/// Whether the segment from `p1` to `q1` and the segment from `p2` to `q2` cross
/// in general position: the ends of each lie strictly on opposite sides of the
/// line through the other. Segments that only touch, at an end or along a
/// stretch, and collinear segments do not cross.
pub open spec fn segments_cross(p1: ScreenPos, q1: ScreenPos, p2: ScreenPos, q2: ScreenPos) -> bool {
    &&& opposite_sides(turn(p1, q1, p2), turn(p1, q1, q2))
    &&& opposite_sides(turn(p2, q2, p1), turn(p2, q2, q1))
}

/// Whether two turns go strictly opposite ways: neither is straight, and one is
/// clockwise where the other is counter-clockwise.
pub open spec fn opposite_sides(a: int, b: int) -> bool {
    (a > 0 && b < 0) || (a < 0 && b > 0)
}

/// How far along the segment from `a` to `b` the point nearest to `p` lies, as
/// a pair of numerator and denominator: the projection of `p` onto the line,
/// limited to the segment. A segment of length zero gives zero.
pub open spec fn projection_factor_spec(p: ScreenPos, a: ScreenPos, b: ScreenPos) -> (int, int) {
    let l2 = dist_sq(a, b);
    let d = dot(p, a, b);
    if l2 == 0 {
        (0, 1)
    } else if d <= 0 {
        (0, l2)
    } else if d >= l2 {
        (l2, l2)
    } else {
        (d, l2)
    }
}

/// The square of the distance from `p` to the segment from `a` to `b`, as a pair
/// of numerator and denominator.
pub open spec fn dist_sq_to_segment_spec(p: ScreenPos, a: ScreenPos, b: ScreenPos) -> (int, int) {
    let l2 = dist_sq(a, b);
    let d = dot(p, a, b);
    if l2 == 0 || d <= 0 {
        (dist_sq(a, p), 1)
    } else if d >= l2 {
        (dist_sq(b, p), 1)
    } else {
        (turn(a, b, p) * turn(a, b, p), l2)
    }
}

/// How far along the segment from `a` to `b` the line through them crosses
/// the edge of the disc around `center` with the squared radius `radius_sq`:
/// where it enters the disc, or, if `leaving`, where it leaves it. It is a
/// root of the equation `|a + t (b - a) - center|^2 = radius_sq` in `t`, with
/// the square root in it taken to its whole part, held between zero and one,
/// as a pair of numerator and denominator. A line that misses the disc gives
/// the point nearest to the center, and a segment of length zero gives zero.
pub open spec fn crossing_factor_spec(
    a: ScreenPos,
    b: ScreenPos,
    center: ScreenPos,
    radius_sq: int,
    leaving: bool,
) -> (int, int) {
    let l2 = dist_sq(a, b);
    let e = dot(center, a, b);
    let d = e * e - l2 * (dist_sq(a, center) - radius_sq);
    let s = sqrt_floor(
        if d > 0 {
            d as nat
        } else {
            0
        },
    ) as int;
    if l2 == 0 {
        (0, 1)
    } else {
        (
            clamp_int(
                if leaving {
                    e + s
                } else {
                    e - s
                },
                0,
                l2,
            ),
            l2,
        )
    }
}

/// The point that lies the fraction `num / den` of the way from `a` to `b`,
/// each coordinate rounded to the nearest screen unit.
pub open spec fn lerp_spec(a: ScreenPos, b: ScreenPos, num: int, den: int) -> ScreenPos {
    ScreenPos {
        x: (a.x + (2 * (b.x - a.x) * num + den) / (2 * den)) as i32,
        y: (a.y + (2 * (b.y - a.y) * num + den) / (2 * den)) as i32,
    }
}

/// The square of the distance between `a` and `b`.
pub fn distance_sq(a: ScreenPos, b: ScreenPos) -> (d: u128)
    ensures
        d == dist_sq(a, b),
{
    let dx: i64 = b.x as i64 - a.x as i64;
    let dy: i64 = b.y as i64 - a.y as i64;
    let xx: i128 = mul_wide(dx, dx);
    let yy: i128 = mul_wide(dy, dy);
    assert(0 <= dx * dx <= 0x1_0000_0000 * 0x1_0000_0000 && 0 <= dy * dy <= 0x1_0000_0000
        * 0x1_0000_0000) by (nonlinear_arith)
        requires
            -0x1_0000_0000 <= dx <= 0x1_0000_0000,
            -0x1_0000_0000 <= dy <= 0x1_0000_0000,
    ;
    (xx + yy) as u128
}

/// The dot product of `p - a` and `b - a`.
fn dot_product(p: ScreenPos, a: ScreenPos, b: ScreenPos) -> (d: i128)
    ensures
        d == dot(p, a, b),
        p.wf() && a.wf() && b.wf() ==> -0x2000_0000_0000_0000 <= d <= 0x2000_0000_0000_0000,
{
    let px: i64 = p.x as i64 - a.x as i64;
    let py: i64 = p.y as i64 - a.y as i64;
    let bx: i64 = b.x as i64 - a.x as i64;
    let by: i64 = b.y as i64 - a.y as i64;
    assert(-0x1_0000_0000 * 0x1_0000_0000 <= px * bx <= 0x1_0000_0000 * 0x1_0000_0000
        && -0x1_0000_0000 * 0x1_0000_0000 <= py * by <= 0x1_0000_0000 * 0x1_0000_0000)
        by (nonlinear_arith)
        requires
            -0x1_0000_0000 <= px <= 0x1_0000_0000,
            -0x1_0000_0000 <= bx <= 0x1_0000_0000,
            -0x1_0000_0000 <= py <= 0x1_0000_0000,
            -0x1_0000_0000 <= by <= 0x1_0000_0000,
    ;
    proof {
        if p.wf() && a.wf() && b.wf() {
            assert(-0x4000_0000 * 0x4000_0000 <= px * bx <= 0x4000_0000 * 0x4000_0000
                && -0x4000_0000 * 0x4000_0000 <= py * by <= 0x4000_0000 * 0x4000_0000)
                by (nonlinear_arith)
                requires
                    -0x4000_0000 <= px <= 0x4000_0000,
                    -0x4000_0000 <= bx <= 0x4000_0000,
                    -0x4000_0000 <= py <= 0x4000_0000,
                    -0x4000_0000 <= by <= 0x4000_0000,
            ;
        }
    }
    mul_wide(px, bx) + mul_wide(py, by)
}

/// The cross product that `turn` names.
fn turn_product(p: ScreenPos, q: ScreenPos, r: ScreenPos) -> (t: i128)
    ensures
        t == turn(p, q, r),
        p.wf() && q.wf() && r.wf() ==> -0x2000_0000_0000_0000 <= t <= 0x2000_0000_0000_0000,
{
    let ax: i64 = q.x as i64 - p.x as i64;
    let ay: i64 = q.y as i64 - p.y as i64;
    let bx: i64 = r.x as i64 - q.x as i64;
    let by: i64 = r.y as i64 - q.y as i64;
    assert(-0x1_0000_0000 * 0x1_0000_0000 <= ay * bx <= 0x1_0000_0000 * 0x1_0000_0000
        && -0x1_0000_0000 * 0x1_0000_0000 <= ax * by <= 0x1_0000_0000 * 0x1_0000_0000)
        by (nonlinear_arith)
        requires
            -0x1_0000_0000 <= ax <= 0x1_0000_0000,
            -0x1_0000_0000 <= bx <= 0x1_0000_0000,
            -0x1_0000_0000 <= ay <= 0x1_0000_0000,
            -0x1_0000_0000 <= by <= 0x1_0000_0000,
    ;
    proof {
        if p.wf() && q.wf() && r.wf() {
            assert(-0x4000_0000 * 0x4000_0000 <= ay * bx <= 0x4000_0000 * 0x4000_0000
                && -0x4000_0000 * 0x4000_0000 <= ax * by <= 0x4000_0000 * 0x4000_0000)
                by (nonlinear_arith)
                requires
                    -0x4000_0000 <= ax <= 0x4000_0000,
                    -0x4000_0000 <= bx <= 0x4000_0000,
                    -0x4000_0000 <= ay <= 0x4000_0000,
                    -0x4000_0000 <= by <= 0x4000_0000,
            ;
        }
    }
    mul_wide(ay, bx) - mul_wide(ax, by)
}

/// The orientation of the triple `p`, `q`, `r`.
pub fn orientation(p: ScreenPos, q: ScreenPos, r: ScreenPos) -> (o: i8)
    ensures
        o == orientation_spec(p, q, r),
{
    let val: i128 = turn_product(p, q, r);
    if val > 0 {
        1
    } else if val < 0 {
        -1
    } else {
        0
    }
}

/// Checks if two line segments intersect.
pub fn segments_intersect(p1: ScreenPos, q1: ScreenPos, p2: ScreenPos, q2: ScreenPos) -> (r: bool)
    ensures
        r == segments_cross(p1, q1, p2, q2),
{
    let o1: i8 = orientation(p1, q1, p2);
    let o2: i8 = orientation(p1, q1, q2);
    let o3: i8 = orientation(p2, q2, p1);
    let o4: i8 = orientation(p2, q2, q1);
    // General case only: segments that touch or lie on one line do not count.
    o1 != 0 && o2 != 0 && o1 != o2 && o3 != 0 && o4 != 0 && o3 != o4
}

/// Calculates the projection factor of a point onto a line segment: a fraction
/// between zero and one.
pub fn projection_factor(p: ScreenPos, a: ScreenPos, b: ScreenPos) -> (t: Fraction)
    ensures
        (t.num as int, t.den as int) == projection_factor_spec(p, a, b),
        0 < t.den,
        t.num <= t.den,
        a.wf() && b.wf() ==> t.den <= 0x2000_0000_0000_0000,
{
    let l2: u128 = distance_sq(a, b);
    proof {
        if a.wf() && b.wf() {
            lemma_dist_sq_bound(a, b);
        }
    }
    if l2 == 0 {
        return Fraction { num: 0, den: 1 };
    }
    let d: i128 = dot_product(p, a, b);
    if d <= 0 {
        Fraction { num: 0, den: l2 }
    } else if d as u128 >= l2 {
        Fraction { num: l2, den: l2 }
    } else {
        Fraction { num: d as u128, den: l2 }
    }
}

/// Calculates the squared distance from a point to a line segment.
pub fn dist_sq_to_segment(p: ScreenPos, a: ScreenPos, b: ScreenPos) -> (d: Fraction)
    requires
        p.wf(),
        a.wf(),
        b.wf(),
    ensures
        (d.num as int, d.den as int) == dist_sq_to_segment_spec(p, a, b),
        0 < d.den,
{
    let l2: u128 = distance_sq(a, b);
    if l2 == 0 {
        return Fraction { num: distance_sq(a, p), den: 1 };
    }
    let t: i128 = dot_product(p, a, b);
    if t <= 0 {
        Fraction { num: distance_sq(a, p), den: 1 }
    } else if t as u128 >= l2 {
        Fraction { num: distance_sq(b, p), den: 1 }
    } else {
        let c: i128 = turn_product(a, b, p);
        assert(0 <= c * c <= 0x2000_0000_0000_0000 * 0x2000_0000_0000_0000) by (nonlinear_arith)
            requires
                -0x2000_0000_0000_0000 <= c <= 0x2000_0000_0000_0000,
        ;
        Fraction { num: (c * c) as u128, den: l2 }
    }
}

/// Where the segment from `a` to `b` crosses the edge of the disc.
pub fn crossing_factor(a: ScreenPos, b: ScreenPos, center: ScreenPos, radius_sq: u64, leaving: bool) -> (t:
    Fraction)
    requires
        a.wf(),
        b.wf(),
        center.wf(),
    ensures
        (t.num as int, t.den as int) == crossing_factor_spec(a, b, center, radius_sq as int, leaving),
        0 < t.den <= 0x2000_0000_0000_0000,
        t.num <= t.den,
{
    let l2: u128 = distance_sq(a, b);
    proof {
        lemma_dist_sq_bound(a, b);
        lemma_dist_sq_bound(a, center);
    }
    if l2 == 0 {
        return Fraction { num: 0, den: 1 };
    }
    let e: i128 = dot_product(center, a, b);
    let off: i128 = distance_sq(a, center) as i128 - radius_sq as i128;
    assert(0 <= e * e <= 0x2000_0000_0000_0000 * 0x2000_0000_0000_0000) by (nonlinear_arith)
        requires
            -0x2000_0000_0000_0000 <= e <= 0x2000_0000_0000_0000,
    ;
    assert(-0x2000_0000_0000_0000 * 0x1_0000_0000_0000_0000 <= l2 * off <= 0x2000_0000_0000_0000
        * 0x2000_0000_0000_0000) by (nonlinear_arith)
        requires
            0 <= l2 <= 0x2000_0000_0000_0000,
            -0x1_0000_0000_0000_0000 <= off <= 0x2000_0000_0000_0000,
    ;
    let d: i128 = e * e - (l2 as i128) * off;
    let s: i128 = if d > 0 {
        isqrt_wide(d as u128) as i128
    } else {
        proof {
            assert(sqrt_floor(0) == 0);
        }
        0
    };
    let wanted: i128 = if leaving {
        e + s
    } else {
        e - s
    };
    let num: u128 = if wanted < 0 {
        0
    } else if wanted > l2 as i128 {
        l2
    } else {
        wanted as u128
    };
    Fraction { num, den: l2 }
}

/// The point that lies the fraction `t` of the way from `a` to `b`.
pub fn lerp(a: ScreenPos, b: ScreenPos, t: Fraction) -> (p: ScreenPos)
    requires
        a.wf(),
        b.wf(),
        0 < t.den <= 0x2000_0000_0000_0000,
        t.num <= t.den,
    ensures
        p == lerp_spec(a, b, t.num as int, t.den as int),
        p.wf(),
{
    let x: i32 = lerp_axis(a.x, b.x, t);
    let y: i32 = lerp_axis(a.y, b.y, t);
    ScreenPos { x, y }
}

/// One axis of `lerp`.
fn lerp_axis(a: i32, b: i32, t: Fraction) -> (r: i32)
    requires
        -0x2000_0000 <= a <= 0x2000_0000,
        -0x2000_0000 <= b <= 0x2000_0000,
        0 < t.den <= 0x2000_0000_0000_0000,
        t.num <= t.den,
    ensures
        r == a + (2 * (b - a) * t.num + t.den) / (2 * t.den),
        -0x2000_0000 <= r <= 0x2000_0000,
{
    let d: i128 = b as i128 - a as i128;
    let n: i128 = t.num as i128;
    let m: i128 = t.den as i128;
    assert(-0x4000_0000 * 0x2000_0000_0000_0000 <= d * n <= 0x4000_0000 * 0x2000_0000_0000_0000)
        by (nonlinear_arith)
        requires
            -0x4000_0000 <= d <= 0x4000_0000,
            0 <= n <= 0x2000_0000_0000_0000,
    ;
    let top: i128 = 2 * (d * n) + m;
    let q: i128 = div_floor_wide(top, 2 * m);
    proof {
        let e = 2 * (d * n) + m;
        assert(2 * ((b - a) as int) * (t.num as int) == 2 * (d * n)) by (nonlinear_arith)
            requires
                d == b - a,
                n == t.num,
        ;
        // the rounded step lies between zero and the whole difference
        if d >= 0 {
            assert(0 <= e / (2 * m) <= d) by (nonlinear_arith)
                requires
                    e == 2 * (d * n) + m,
                    0 <= n <= m,
                    m > 0,
                    d >= 0,
            ;
        } else {
            assert(d <= e / (2 * m) <= 0) by (nonlinear_arith)
                requires
                    e == 2 * (d * n) + m,
                    0 <= n <= m,
                    m > 0,
                    d < 0,
            ;
        }
    }
    (a as i128 + q) as i32
}

/// Division rounding toward negative infinity, for a positive divisor.
fn div_floor_wide(a: i128, b: i128) -> (q: i128)
    requires
        b > 0,
        -0x4000_0000_0000_0000_0000_0000_0000_0000 <= a <= 0x4000_0000_0000_0000_0000_0000_0000_0000,
    ensures
        q == a / b,
{
    let t: i128 = a / b;
    let r: i128 = a % b;
    if a >= 0 {
        t
    } else {
        let ghost tt: int = (-a) / (b as int);
        let ghost rr: int = (-a) % (b as int);
        proof {
            vstd::arithmetic::div_mod::lemma_fundamental_div_mod(-a as int, b as int);
            vstd::arithmetic::div_mod::lemma_mod_bound(-a as int, b as int);
            if r < 0 {
                assert(a == (-tt - 1) * b + (b - rr)) by (nonlinear_arith)
                    requires
                        -a == b * tt + rr,
                ;
                vstd::arithmetic::div_mod::lemma_fundamental_div_mod_converse_div(
                    a as int,
                    b as int,
                    -tt - 1,
                    b - rr,
                );
            } else {
                assert(a == (-tt) * b + 0) by (nonlinear_arith)
                    requires
                        -a == b * tt + rr,
                        rr == 0,
                ;
                vstd::arithmetic::div_mod::lemma_fundamental_div_mod_converse_div(
                    a as int,
                    b as int,
                    -tt,
                    0,
                );
            }
            assert(tt >= 0) by (nonlinear_arith)
                requires
                    -a == b * tt + rr,
                    0 <= rr < b,
                    -a > 0,
            ;
        }
        if r < 0 {
            t - 1
        } else {
            t
        }
    }
}

/// A turn taken backwards is the opposite turn.
proof fn lemma_turn_reversed(p: ScreenPos, q: ScreenPos, r: ScreenPos)
    ensures
        turn(q, p, r) == -turn(p, q, r),
{
    let ax = q.x - p.x;
    let ay = q.y - p.y;
    let bx = r.x - q.x;
    let by = r.y - q.y;
    assert((-ay) * (bx + ax) - (-ax) * (by + ay) == -(ay * bx - ax * by)) by (nonlinear_arith);
}

/// Whether two segments cross does not depend on the order in which they are
/// named, nor on the direction in which either is walked.
pub proof fn lemma_segments_cross_symmetry(p1: ScreenPos, q1: ScreenPos, p2: ScreenPos, q2: ScreenPos)
    ensures
        segments_cross(p1, q1, p2, q2) == segments_cross(p2, q2, p1, q1),
        segments_cross(p1, q1, p2, q2) == segments_cross(q1, p1, p2, q2),
        segments_cross(p1, q1, p2, q2) == segments_cross(p1, q1, q2, p2),
{
    lemma_turn_reversed(p1, q1, p2);
    lemma_turn_reversed(p1, q1, q2);
    lemma_turn_reversed(p2, q2, p1);
    lemma_turn_reversed(p2, q2, q1);
}

/// The squared distance to a segment is the squared distance to the point of
/// the segment that `projection_factor_spec` names: with the factor `n / d` and
/// the distance `m / e`, the point is `a + (b - a) * n / d`, and `m / e` is the
/// square of its distance from `p`.
pub proof fn lemma_dist_sq_to_segment_is_to_nearest(p: ScreenPos, a: ScreenPos, b: ScreenPos)
    ensures
        ({
            let (n, d) = projection_factor_spec(p, a, b);
            let (m, e) = dist_sq_to_segment_spec(p, a, b);
            let x = d * (p.x - a.x) - n * (b.x - a.x);
            let y = d * (p.y - a.y) - n * (b.y - a.y);
            &&& d > 0
            &&& e > 0
            &&& 0 <= n <= d
            &&& m * (d * d) == e * (x * x + y * y)
        }),
{
    let px = p.x - a.x;
    let py = p.y - a.y;
    let bx = b.x - a.x;
    let by = b.y - a.y;
    let l2 = dist_sq(a, b);
    let t = dot(p, a, b);
    let (n, d) = projection_factor_spec(p, a, b);
    let (m, e) = dist_sq_to_segment_spec(p, a, b);
    let x = d * px - n * bx;
    let y = d * py - n * by;
    assert(l2 == bx * bx + by * by && l2 >= 0) by (nonlinear_arith)
        requires
            l2 == (b.x - a.x) * (b.x - a.x) + (b.y - a.y) * (b.y - a.y),
            bx == b.x - a.x,
            by == b.y - a.y,
    ;
    assert(dist_sq(a, p) == px * px + py * py);
    if l2 == 0 {
        assert(n == 0 && d == 1 && e == 1 && m == px * px + py * py);
        assert(m * (d * d) == e * (x * x + y * y)) by (nonlinear_arith)
            requires
                n == 0,
                d == 1,
                e == 1,
                m == px * px + py * py,
                x == d * px - n * bx,
                y == d * py - n * by,
        ;
    } else if t <= 0 {
        assert(n == 0 && d == l2 && e == 1 && m == px * px + py * py);
        assert(m * (d * d) == e * (x * x + y * y)) by (nonlinear_arith)
            requires
                n == 0,
                e == 1,
                m == px * px + py * py,
                x == d * px - n * bx,
                y == d * py - n * by,
        ;
    } else if t >= l2 {
        assert(dist_sq(b, p) == (px - bx) * (px - bx) + (py - by) * (py - by));
        assert(n == l2 && d == l2 && e == 1 && m == (px - bx) * (px - bx) + (py - by) * (py - by));
        assert(m * (d * d) == e * (x * x + y * y)) by (nonlinear_arith)
            requires
                n == d,
                e == 1,
                m == (px - bx) * (px - bx) + (py - by) * (py - by),
                x == d * px - n * bx,
                y == d * py - n * by,
        ;
    } else {
        let c = turn(a, b, p);
        assert(c == by * px - bx * py) by (nonlinear_arith)
            requires
                c == by * (px - bx) - bx * (py - by),
        ;
        assert(n == t && d == l2 && e == l2 && m == c * c);
        lemma_lagrange(px, py, bx, by);
        lemma_scaled_difference(l2, t, px, py, bx, by);
        assert((c * c) * (l2 * l2) == l2 * (x * x + y * y)) by (nonlinear_arith)
            requires
                c * c == l2 * (px * px + py * py) - t * t,
                x * x + y * y == (l2 * l2) * (px * px + py * py) - 2 * ((l2 * t) * t) + (t * t) * l2,
        ;
    }
}

/// No point of the segment is nearer to `p` than the squared distance to the
/// segment says: with the distance `m / e`, the point of the segment that lies
/// the fraction `k / j` of the way from `a` to `b` is at least that far from
/// `p`.
pub proof fn lemma_no_point_of_segment_is_nearer(p: ScreenPos, a: ScreenPos, b: ScreenPos, k: int, j: int)
    requires
        0 <= k <= j,
        0 < j,
    ensures
        ({
            let (m, e) = dist_sq_to_segment_spec(p, a, b);
            let x = j * (p.x - a.x) - k * (b.x - a.x);
            let y = j * (p.y - a.y) - k * (b.y - a.y);
            &&& e > 0
            &&& m * (j * j) <= e * (x * x + y * y)
        }),
{
    let px = p.x - a.x;
    let py = p.y - a.y;
    let bx = b.x - a.x;
    let by = b.y - a.y;
    let l2 = dist_sq(a, b);
    let t = dot(p, a, b);
    let (m, e) = dist_sq_to_segment_spec(p, a, b);
    let x = j * px - k * bx;
    let y = j * py - k * by;
    let pp = px * px + py * py;
    let jj = j * j;
    let jk = j * k;
    let kk = k * k;
    let s = x * x + y * y;
    assert(l2 == bx * bx + by * by && l2 >= 0) by (nonlinear_arith)
        requires
            l2 == (b.x - a.x) * (b.x - a.x) + (b.y - a.y) * (b.y - a.y),
            bx == b.x - a.x,
            by == b.y - a.y,
    ;
    assert(dist_sq(a, p) == pp);
    assert(t == px * bx + py * by);
    lemma_point_on_line_distance(j, k, px, py, bx, by);
    assert(s == jj * pp - 2 * (jk * t) + kk * l2);
    assert(0 <= kk <= jk <= jj && jj + kk >= 2 * jk) by (nonlinear_arith)
        requires
            0 <= k <= j,
            kk == k * k,
            jk == j * k,
            jj == j * j,
    ;
    if l2 == 0 {
        assert(bx == 0 && by == 0) by (nonlinear_arith)
            requires
                bx * bx + by * by == 0,
        ;
        assert(t == 0) by (nonlinear_arith)
            requires
                t == px * bx + py * by,
                bx == 0,
                by == 0,
        ;
        assert(m * jj <= e * s) by (nonlinear_arith)
            requires
                m == pp,
                e == 1,
                s == jj * pp - 2 * (jk * t) + kk * l2,
                t == 0,
                l2 == 0,
        ;
    } else if t <= 0 {
        assert(m * jj <= e * s) by (nonlinear_arith)
            requires
                m == pp,
                e == 1,
                s == jj * pp - 2 * (jk * t) + kk * l2,
                t <= 0,
                0 <= jk,
                0 <= kk,
                0 <= l2,
        ;
    } else if t >= l2 {
        assert(dist_sq(b, p) == (px - bx) * (px - bx) + (py - by) * (py - by));
        assert(m == pp - 2 * t + l2) by (nonlinear_arith)
            requires
                m == (px - bx) * (px - bx) + (py - by) * (py - by),
                pp == px * px + py * py,
                t == px * bx + py * by,
                l2 == bx * bx + by * by,
        ;
        let u = jj - jk;
        let v = jj - kk;
        assert(2 * (t * u) >= l2 * v) by (nonlinear_arith)
            requires
                t >= l2,
                l2 >= 0,
                u >= 0,
                2 * u >= v,
        ;
        assert(m * jj <= e * s) by (nonlinear_arith)
            requires
                m == pp - 2 * t + l2,
                e == 1,
                s == jj * pp - 2 * (jk * t) + kk * l2,
                2 * (t * (jj - jk)) >= l2 * (jj - kk),
        ;
    } else {
        let c = turn(a, b, p);
        assert(c == by * px - bx * py) by (nonlinear_arith)
            requires
                c == by * (px - bx) - bx * (py - by),
        ;
        assert(e == l2 && m == c * c);
        lemma_lagrange(px, py, bx, by);
        assert(c * c == l2 * pp - t * t);
        let g = j * t;
        let h = k * l2;
        let tt = t * t;
        assert((g - h) * (g - h) == g * g - 2 * (g * h) + h * h && (g - h) * (g - h) >= 0) by (nonlinear_arith);
        assert(g * g == jj * tt) by (nonlinear_arith)
            requires
                g == j * t,
                jj == j * j,
                tt == t * t,
        ;
        assert(h * h == kk * (l2 * l2)) by (nonlinear_arith)
            requires
                h == k * l2,
                kk == k * k,
        ;
        assert(g * h == (jk * t) * l2) by (nonlinear_arith)
            requires
                g == j * t,
                h == k * l2,
                jk == j * k,
        ;
        let r = jk * t;
        assert(jj * tt - 2 * (r * l2) + kk * (l2 * l2) >= 0);
        assert(m * jj == (l2 * pp) * jj - tt * jj) by (nonlinear_arith)
            requires
                m == l2 * pp - tt,
        ;
        assert(e * s == l2 * (jj * pp) - 2 * (l2 * r) + l2 * (kk * l2)) by (nonlinear_arith)
            requires
                e == l2,
                s == jj * pp - 2 * r + kk * l2,
        ;
        assert((l2 * pp) * jj == l2 * (jj * pp)) by (nonlinear_arith);
        assert(l2 * (kk * l2) == kk * (l2 * l2)) by (nonlinear_arith);
        assert(l2 * r == r * l2 && tt * jj == jj * tt) by (nonlinear_arith);
    }
}

/// The squared distance, scaled by `j * j`, from the point `(px, py)` to the
/// point that lies the fraction `k / j` of the way along the vector `(bx, by)`.
proof fn lemma_point_on_line_distance(j: int, k: int, px: int, py: int, bx: int, by: int)
    ensures
        (j * px - k * bx) * (j * px - k * bx) + (j * py - k * by) * (j * py - k * by) == (j * j) * (px * px + py
            * py) - 2 * ((j * k) * (px * bx + py * by)) + (k * k) * (bx * bx + by * by),
{
    let u = j * px;
    let v = k * bx;
    let q = j * py;
    let r = k * by;
    assert((u - v) * (u - v) == u * u - 2 * (u * v) + v * v) by (nonlinear_arith);
    assert((q - r) * (q - r) == q * q - 2 * (q * r) + r * r) by (nonlinear_arith);
    assert(u * u == (j * j) * (px * px)) by (nonlinear_arith)
        requires
            u == j * px,
    ;
    assert(v * v == (k * k) * (bx * bx)) by (nonlinear_arith)
        requires
            v == k * bx,
    ;
    assert(q * q == (j * j) * (py * py)) by (nonlinear_arith)
        requires
            q == j * py,
    ;
    assert(r * r == (k * k) * (by * by)) by (nonlinear_arith)
        requires
            r == k * by,
    ;
    assert(u * v == (j * k) * (px * bx)) by (nonlinear_arith)
        requires
            u == j * px,
            v == k * bx,
    ;
    assert(q * r == (j * k) * (py * by)) by (nonlinear_arith)
        requires
            q == j * py,
            r == k * by,
    ;
    let jj = j * j;
    let jk = j * k;
    let kk = k * k;
    let a1 = px * px;
    let a2 = py * py;
    let b1 = px * bx;
    let b2 = py * by;
    let c1 = bx * bx;
    let c2 = by * by;
    assert(jj * (a1 + a2) == jj * a1 + jj * a2) by (nonlinear_arith);
    assert(jk * (b1 + b2) == jk * b1 + jk * b2) by (nonlinear_arith);
    assert(kk * (c1 + c2) == kk * c1 + kk * c2) by (nonlinear_arith);
}

/// The identity of Lagrange in the plane: the squares of the dot product and
/// of the cross product of two vectors add up to the product of the squares of
/// their lengths.
proof fn lemma_lagrange(px: int, py: int, bx: int, by: int)
    ensures
        (by * px - bx * py) * (by * px - bx * py) == (bx * bx + by * by) * (px * px + py * py) - (px * bx + py * by)
            * (px * bx + py * by),
{
    let m = by * px;
    let n = bx * py;
    let q = px * bx;
    let r = py * by;
    assert((m - n) * (m - n) == m * m - 2 * (m * n) + n * n) by (nonlinear_arith);
    assert((q + r) * (q + r) == q * q + 2 * (q * r) + r * r) by (nonlinear_arith);
    assert((bx * bx + by * by) * (px * px + py * py) == (bx * bx) * (px * px) + (bx * bx) * (py * py) + (by * by)
        * (px * px) + (by * by) * (py * py)) by (nonlinear_arith);
    assert(m * m == (by * by) * (px * px)) by (nonlinear_arith)
        requires
            m == by * px,
    ;
    assert(n * n == (bx * bx) * (py * py)) by (nonlinear_arith)
        requires
            n == bx * py,
    ;
    assert(q * q == (bx * bx) * (px * px)) by (nonlinear_arith)
        requires
            q == px * bx,
    ;
    assert(r * r == (by * by) * (py * py)) by (nonlinear_arith)
        requires
            r == py * by,
    ;
    assert(m * n == q * r) by (nonlinear_arith)
        requires
            m == by * px,
            n == bx * py,
            q == px * bx,
            r == py * by,
    ;
}

/// The square of the length of `l * p - t * b`, where `t` is the dot product of
/// `p` and `b`, and `l` the square of the length of `b`.
proof fn lemma_scaled_difference(l: int, t: int, px: int, py: int, bx: int, by: int)
    requires
        l == bx * bx + by * by,
        t == px * bx + py * by,
    ensures
        (l * px - t * bx) * (l * px - t * bx) + (l * py - t * by) * (l * py - t * by) == (l * l) * (px * px + py
            * py) - 2 * ((l * t) * t) + (t * t) * l,
{
    let m = l * px;
    let n = t * bx;
    let q = l * py;
    let r = t * by;
    assert((m - n) * (m - n) == m * m - 2 * (m * n) + n * n) by (nonlinear_arith);
    assert((q - r) * (q - r) == q * q - 2 * (q * r) + r * r) by (nonlinear_arith);
    assert(m * m == (l * l) * (px * px)) by (nonlinear_arith)
        requires
            m == l * px,
    ;
    assert(q * q == (l * l) * (py * py)) by (nonlinear_arith)
        requires
            q == l * py,
    ;
    assert(n * n == (t * t) * (bx * bx)) by (nonlinear_arith)
        requires
            n == t * bx,
    ;
    assert(r * r == (t * t) * (by * by)) by (nonlinear_arith)
        requires
            r == t * by,
    ;
    assert(m * n == (l * t) * (px * bx)) by (nonlinear_arith)
        requires
            m == l * px,
            n == t * bx,
    ;
    assert(q * r == (l * t) * (py * by)) by (nonlinear_arith)
        requires
            q == l * py,
            r == t * by,
    ;
    assert((l * l) * (px * px) + (l * l) * (py * py) == (l * l) * (px * px + py * py)) by (nonlinear_arith);
    assert((t * t) * (bx * bx) + (t * t) * (by * by) == (t * t) * l) by (nonlinear_arith)
        requires
            l == bx * bx + by * by,
    ;
    assert((l * t) * (px * bx) + (l * t) * (py * by) == (l * t) * t) by (nonlinear_arith)
        requires
            t == px * bx + py * by,
    ;
}

/// The bound on a squared distance between two positions within the limit.
pub proof fn lemma_dist_sq_bound(a: ScreenPos, b: ScreenPos)
    requires
        a.wf(),
        b.wf(),
    ensures
        0 <= dist_sq(a, b) <= 0x2000_0000_0000_0000,
{
    let dx = b.x - a.x;
    let dy = b.y - a.y;
    assert(0 <= dx * dx <= 0x4000_0000 * 0x4000_0000 && 0 <= dy * dy <= 0x4000_0000 * 0x4000_0000)
        by (nonlinear_arith)
        requires
            -0x4000_0000 <= dx <= 0x4000_0000,
            -0x4000_0000 <= dy <= 0x4000_0000,
    ;
}

} // verus!
