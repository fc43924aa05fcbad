//! GeoJSON features for the layers' shapes.
//!
//! The features here are typed: a geometry holds positions in world units and a
//! property holds a text or a number. Reading and writing the JSON text, and
//! turning degrees into world units and back, is the host's part.

use vstd::prelude::*;
use vstd::string::StringExecFns;
use crate::layers::all_in_world;
use crate::layers::copy_points;
use crate::layers::area::Area;
use crate::layers::area::AreaShape;
use crate::layers::area::AreaView;
use crate::layers::area::ShapeView;
use crate::layers::drawing::polyline_views;
use crate::layers::drawing::DrawingLayer;
use crate::layers::drawing::Polyline;
use crate::layers::text::default_text;
use crate::layers::text::Text;
use crate::layers::text::TextSize;
use crate::layers::text::TextView;
use crate::projection::GeoPos;
use crate::style::hex_color;
use crate::style::Color;
use crate::style::Stroke;

verus! {

/// The value of a property.
#[derive(Debug, PartialEq, Eq)]
pub enum JsonValue {
    /// A text.
    Text(String),
    /// A whole number, written without a fraction.
    Integer(i64),
    /// A number, in thousandths.
    Number(i64),
    /// Anything else: a truth value, a list, an object, or nothing.
    Other,
}

/// What a `JsonValue` holds, with a sequence for its text.
pub enum JsonView {
    /// A text.
    Text(Seq<char>),
    /// A whole number, written without a fraction.
    Integer(i64),
    /// A number, in thousandths.
    Number(i64),
    /// Anything else.
    Other,
}

impl View for JsonValue {
    type V = JsonView;

    open spec fn view(&self) -> JsonView {
        match *self {
            JsonValue::Text(s) => JsonView::Text(s@),
            JsonValue::Integer(n) => JsonView::Integer(n),
            JsonValue::Number(n) => JsonView::Number(n),
            JsonValue::Other => JsonView::Other,
        }
    }
}

impl Clone for JsonValue {
    fn clone(&self) -> (r: Self)
        ensures
            r@ == self@,
    {
        match self {
            JsonValue::Text(s) => JsonValue::Text(s.clone()),
            JsonValue::Integer(n) => JsonValue::Integer(*n),
            JsonValue::Number(n) => JsonValue::Number(*n),
            JsonValue::Other => JsonValue::Other,
        }
    }
}

impl JsonView {
    /// The text, if the value is one.
    pub open spec fn as_text(self) -> Option<Seq<char>> {
        match self {
            JsonView::Text(s) => Some(s),
            _ => None,
        }
    }

    /// The number in thousandths, if the value is a number of either kind. A
    /// whole number too large for that gives the largest or smallest number.
    pub open spec fn as_number(self) -> Option<i64> {
        match self {
            JsonView::Integer(n) => Some(
                if n * 1000 > i64::MAX {
                    i64::MAX
                } else if n * 1000 < i64::MIN {
                    i64::MIN
                } else {
                    (n * 1000) as i64
                },
            ),
            JsonView::Number(m) => Some(m),
            _ => None,
        }
    }

    /// The whole number, if the value is one.
    pub open spec fn as_integer(self) -> Option<i64> {
        match self {
            JsonView::Integer(n) => Some(n),
            _ => None,
        }
    }
}

impl JsonValue {
    /// The text, if the value is one.
    pub fn as_str(&self) -> (r: Option<&str>)
        ensures
            match r {
                Some(s) => self@.as_text() == Some(s@),
                None => self@.as_text() is None,
            },
    {
        match self {
            JsonValue::Text(s) => Some(s.as_str()),
            _ => None,
        }
    }

    /// The number in thousandths, if the value is a number of either kind.
    pub fn as_number(&self) -> (r: Option<i64>)
        ensures
            r == self@.as_number(),
    {
        match self {
            JsonValue::Integer(n) => {
                if *n > i64::MAX / 1000 {
                    Some(i64::MAX)
                } else if *n < i64::MIN / 1000 {
                    Some(i64::MIN)
                } else {
                    Some(*n * 1000)
                }
            },
            JsonValue::Number(m) => Some(*m),
            _ => None,
        }
    }

    /// The whole number, if the value is one.
    pub fn as_i64(&self) -> (r: Option<i64>)
        ensures
            r == self@.as_integer(),
    {
        match self {
            JsonValue::Integer(n) => Some(*n),
            _ => None,
        }
    }
}

/// The value of the first entry with the key `key`, if there is one.
pub open spec fn lookup(entries: Seq<(Seq<char>, JsonView)>, key: Seq<char>) -> Option<JsonView>
    decreases entries.len(),
{
    if entries.len() == 0 {
        None
    } else if entries[0].0 == key {
        Some(entries[0].1)
    } else {
        lookup(entries.drop_first(), key)
    }
}

/// The entries with `value` under `key`: in the place of the first entry with
/// that key, or at the end if there is none.
pub open spec fn with_entry(entries: Seq<(Seq<char>, JsonView)>, key: Seq<char>, value: JsonView) -> Seq<
    (Seq<char>, JsonView),
>
    decreases entries.len(),
{
    if entries.len() == 0 {
        seq![(key, value)]
    } else if entries[0].0 == key {
        seq![(key, value)] + entries.drop_first()
    } else {
        seq![entries[0]] + with_entry(entries.drop_first(), key, value)
    }
}

/// An entry that was put in is found under its key, and every other key finds
/// what it found before.
pub proof fn lemma_lookup_with_entry(
    entries: Seq<(Seq<char>, JsonView)>,
    key: Seq<char>,
    value: JsonView,
    other: Seq<char>,
)
    ensures
        lookup(with_entry(entries, key, value), key) == Some(value),
        other != key ==> lookup(with_entry(entries, key, value), other) == lookup(entries, other),
    decreases entries.len(),
{
    let after = with_entry(entries, key, value);
    if entries.len() == 0 {
        assert(after.drop_first() =~= Seq::empty());
        assert(after[0] == (key, value));
        assert(lookup(after.drop_first(), other) is None);
    } else if entries[0].0 == key {
        assert(after.drop_first() =~= entries.drop_first());
    } else {
        lemma_lookup_with_entry(entries.drop_first(), key, value, other);
        assert(after.drop_first() =~= with_entry(entries.drop_first(), key, value));
    }
}

/// The properties of a feature: values under keys, in the order in which the
/// keys were first put in.
#[derive(Debug, PartialEq, Eq)]
pub struct Properties {
    /// The entries.
    pub entries: Vec<(String, JsonValue)>,
}

impl View for Properties {
    type V = Seq<(Seq<char>, JsonView)>;

    open spec fn view(&self) -> Seq<(Seq<char>, JsonView)> {
        self.entries@.map_values(|e: (String, JsonValue)| (e.0@, e.1@))
    }
}

impl Properties {
    /// No properties.
    pub fn new() -> (p: Properties)
        ensures
            p@ == Seq::<(Seq<char>, JsonView)>::empty(),
    {
        let p = Properties { entries: Vec::new() };
        assert(p@ =~= Seq::<(Seq<char>, JsonView)>::empty());
        p
    }

    /// The index of the first entry with the key `key`.
    fn position(&self, key: &str) -> (r: Option<usize>)
        ensures
            match r {
                Some(i) => i < self@.len() && self@[i as int].0 == key@ && lookup(self@, key@) == Some(
                    self@[i as int].1,
                ) && forall|j: int| 0 <= j < i ==> (#[trigger] self@[j]).0 != key@,
                None => lookup(self@, key@) is None && forall|j: int|
                    0 <= j < self@.len() ==> (#[trigger] self@[j]).0 != key@,
            },
    {
        let wanted: String = String::from_str(key);
        let mut i: usize = 0;
        assert(self@.skip(0) =~= self@);
        while i < self.entries.len()
            invariant
                i <= self.entries@.len(),
                wanted@ == key@,
                lookup(self@, key@) == lookup(self@.skip(i as int), key@),
                forall|j: int| 0 <= j < i ==> (#[trigger] self@[j]).0 != key@,
            decreases self.entries@.len() - i,
        {
            assert(self@.skip(i as int)[0] == self@[i as int]);
            assert(self@[i as int].0 == self.entries@[i as int].0@);
            if self.entries[i].0 == wanted {
                return Some(i);
            }
            assert(self@.skip(i as int).drop_first() =~= self@.skip(i + 1));
            i = i + 1;
        }
        None
    }

    /// The value under `key`, if there is one.
    pub fn get(&self, key: &str) -> (r: Option<&JsonValue>)
        ensures
            match r {
                Some(v) => lookup(self@, key@) == Some(v@),
                None => lookup(self@, key@) is None,
            },
    {
        match self.position(key) {
            Some(i) => {
                assert(self@[i as int].1 == self.entries@[i as int].1@);
                Some(&self.entries[i].1)
            },
            None => None,
        }
    }

    /// Puts `value` under `key`, in the place of what was there.
    pub fn insert(&mut self, key: &str, value: JsonValue)
        ensures
            final(self)@ == with_entry(old(self)@, key@, value@),
    {
        let ghost before = self@;
        match self.position(key) {
            Some(i) => {
                self.entries.set(i, (String::from_str(key), value));
                proof {
                    lemma_with_entry_at(before, key@, value@, i as int);
                    assert(self@ =~= before.update(i as int, (key@, value@)));
                }
            },
            None => {
                self.entries.push((String::from_str(key), value));
                proof {
                    lemma_with_entry_absent(before, key@, value@);
                    assert(self@ =~= before.push((key@, value@)));
                }
            },
        }
    }
}

/// Where the first entry with the key is entry `i`, the new entry takes its
/// place.
proof fn lemma_with_entry_at(entries: Seq<(Seq<char>, JsonView)>, key: Seq<char>, value: JsonView, i: int)
    requires
        0 <= i < entries.len(),
        entries[i].0 == key,
        forall|j: int| 0 <= j < i ==> (#[trigger] entries[j]).0 != key,
    ensures
        with_entry(entries, key, value) == entries.update(i, (key, value)),
    decreases entries.len(),
{
    if i == 0 {
        assert(seq![(key, value)] + entries.drop_first() =~= entries.update(0, (key, value)));
    } else {
        let rest = entries.drop_first();
        assert forall|j: int| 0 <= j < i - 1 implies (#[trigger] rest[j]).0 != key by {
            assert(rest[j] == entries[j + 1]);
        }
        lemma_with_entry_at(rest, key, value, i - 1);
        assert(seq![entries[0]] + rest.update(i - 1, (key, value)) =~= entries.update(i, (key, value)));
    }
}

/// Where no entry has the key, the new entry goes to the end.
proof fn lemma_with_entry_absent(entries: Seq<(Seq<char>, JsonView)>, key: Seq<char>, value: JsonView)
    requires
        forall|j: int| 0 <= j < entries.len() ==> (#[trigger] entries[j]).0 != key,
    ensures
        with_entry(entries, key, value) == entries.push((key, value)),
    decreases entries.len(),
{
    if entries.len() == 0 {
        assert(seq![(key, value)] =~= entries.push((key, value)));
    } else {
        let rest = entries.drop_first();
        assert forall|j: int| 0 <= j < rest.len() implies (#[trigger] rest[j]).0 != key by {
            assert(rest[j] == entries[j + 1]);
        }
        lemma_with_entry_absent(rest, key, value);
        assert(entries[0].0 != key);
        assert(seq![entries[0]] + rest.push((key, value)) =~= entries.push((key, value)));
    }
}

/// The geometry of a feature.
#[derive(Debug, PartialEq, Eq)]
pub enum Geometry {
    /// A single position.
    Point(GeoPos),
    /// A line through positions.
    LineString(Vec<GeoPos>),
    /// Rings of positions: the outline first, then the holes.
    Polygon(Vec<Vec<GeoPos>>),
    /// A geometry of another kind.
    Other,
}

/// What a `Geometry` holds, with sequences for its vectors.
pub enum GeometryView {
    /// A single position.
    Point(GeoPos),
    /// A line through positions.
    LineString(Seq<GeoPos>),
    /// Rings of positions.
    Polygon(Seq<Seq<GeoPos>>),
    /// A geometry of another kind.
    Other,
}

impl View for Geometry {
    type V = GeometryView;

    open spec fn view(&self) -> GeometryView {
        match *self {
            Geometry::Point(p) => GeometryView::Point(p),
            Geometry::LineString(points) => GeometryView::LineString(points@),
            Geometry::Polygon(rings) => GeometryView::Polygon(rings@.map_values(|r: Vec<GeoPos>| r@)),
            Geometry::Other => GeometryView::Other,
        }
    }
}

/// A GeoJSON feature: a geometry with properties.
#[derive(Debug, PartialEq, Eq)]
pub struct Feature {
    /// The geometry, if the feature has one.
    pub geometry: Option<Geometry>,
    /// The properties, if the feature has any.
    pub properties: Option<Properties>,
}

/// What a `Feature` holds, with sequences for its vectors and texts.
pub struct FeatureView {
    /// The geometry, if the feature has one.
    pub geometry: Option<GeometryView>,
    /// The properties, if the feature has any.
    pub properties: Option<Seq<(Seq<char>, JsonView)>>,
}

impl View for Feature {
    type V = FeatureView;

    open spec fn view(&self) -> FeatureView {
        FeatureView {
            geometry: match self.geometry {
                Some(g) => Some(g@),
                None => None,
            },
            properties: match self.properties {
                Some(p) => Some(p@),
                None => None,
            },
        }
    }
}

/// What the check of a feature's producer found.
#[derive(Clone, Copy, Debug, PartialEq, Eq, Structural)]
pub enum VersionCheck {
    /// The feature names a producer, and it is another program or this version
    /// of this library.
    Quiet,
    /// The feature was written by another version of this library; the host
    /// should warn.
    OtherVersion,
    /// The feature does not say what wrote it; the host should warn.
    NoVersion,
}

/// The properties with the producer's name and version added.
pub open spec fn with_version(properties: Seq<(Seq<char>, JsonView)>) -> Seq<(Seq<char>, JsonView)> {
    with_entry(
        with_entry(properties, "x-egui-map-view-crate-name"@, JsonView::Text("egui-map-view"@)),
        "x-egui-map-view-crate-version"@,
        JsonView::Text("0.1.0"@),
    )
}

/// What the check of the producer finds in `properties`.
pub open spec fn version_check(properties: Seq<(Seq<char>, JsonView)>) -> VersionCheck {
    match (
        lookup(properties, "x-egui-map-view-crate-name"@),
        lookup(properties, "x-egui-map-view-crate-version"@),
    ) {
        (Some(JsonView::Text(name)), Some(JsonView::Text(version))) => if name == "egui-map-view"@ && version
            != "0.1.0"@ {
            VersionCheck::OtherVersion
        } else {
            VersionCheck::Quiet
        },
        _ => VersionCheck::NoVersion,
    }
}

/// The properties that carry a stroke and a fill.
pub open spec fn with_style(properties: Seq<(Seq<char>, JsonView)>, stroke: Stroke, fill: Color) -> Seq<
    (Seq<char>, JsonView),
> {
    with_entry(
        with_entry(
            with_entry(properties, "stroke_color"@, JsonView::Text(stroke.color.spec_hex())),
            "stroke_width"@,
            JsonView::Number(width_number(stroke.width)),
        ),
        "fill_color"@,
        JsonView::Text(fill.spec_hex()),
    )
}

/// The ring of a polygon as GeoJSON wants it: closed, with the first position
/// repeated at the end.
pub open spec fn closed_ring(points: Seq<GeoPos>) -> Seq<GeoPos> {
    if points.len() > 0 {
        points.push(points[0])
    } else {
        points
    }
}

/// The corners of a polygon from a ring: without the last position where it
/// repeats the first.
pub open spec fn open_ring(ring: Seq<GeoPos>) -> Seq<GeoPos> {
    if ring.len() > 0 && ring.first() == ring.last() {
        ring.drop_last()
    } else {
        ring
    }
}

/// The positions, each held within the world.
pub open spec fn clamped_points(points: Seq<GeoPos>) -> Seq<GeoPos> {
    points.map_values(|p: GeoPos| p.clamped())
}

/// The feature that stands for `area`. A polygon becomes a closed ring; a
/// circle becomes a point with a `radius` in metres and, if it names one, its
/// number of `points`.
pub open spec fn area_feature(area: AreaView) -> FeatureView {
    let styled = with_style(with_version(Seq::empty()), area.stroke, area.fill);
    match area.shape {
        ShapeView::Polygon(points) => FeatureView {
            geometry: Some(GeometryView::Polygon(seq![closed_ring(points)])),
            properties: Some(styled),
        },
        ShapeView::Circle { center, radius, points } => FeatureView {
            geometry: Some(GeometryView::Point(center)),
            properties: Some(
                match points {
                    Some(p) => with_entry(
                        with_entry(styled, "radius"@, JsonView::Number(radius)),
                        "points"@,
                        JsonView::Integer(p),
                    ),
                    None => with_entry(styled, "radius"@, JsonView::Number(radius)),
                },
            ),
        },
    }
}

/// The number under `key`, in thousandths, if there is one.
pub open spec fn number_at(properties: Seq<(Seq<char>, JsonView)>, key: Seq<char>) -> Option<i64> {
    match lookup(properties, key) {
        Some(v) => v.as_number(),
        None => None,
    }
}

/// The color under `key`, if there is a text there that reads as a color.
pub open spec fn color_at(properties: Seq<(Seq<char>, JsonView)>, key: Seq<char>) -> Option<Color> {
    match lookup(properties, key) {
        Some(JsonView::Text(s)) => hex_color(s),
        _ => None,
    }
}

/// A width in screen units from a number of pixels in thousandths: rounded to
/// the screen unit, the 256th part of a pixel, and held within what a width can
/// be.
pub open spec fn width_of(thousandths: i64) -> u32 {
    if (256 * thousandths + 500) / 1000 < 0 {
        0
    } else if (256 * thousandths + 500) / 1000 > u32::MAX {
        u32::MAX
    } else {
        ((256 * thousandths + 500) / 1000) as u32
    }
}

/// The number of pixels, in thousandths, that stands for a width of `units`
/// screen units: rounded to the thousandth.
pub open spec fn width_number(units: u32) -> i64 {
    ((1000 * units + 128) / 256) as i64
}

/// A length in millimetres from a number of metres in thousandths, held within
/// what a length can be.
pub open spec fn length_of(thousandths: i64) -> u32 {
    if thousandths < 0 {
        0
    } else if thousandths > u32::MAX {
        u32::MAX
    } else {
        thousandths as u32
    }
}

/// A width that is written as a number and read again is the same width.
pub proof fn lemma_width_round_trip(units: u32)
    ensures
        width_of(width_number(units)) == units,
{
    let m = (1000 * units + 128) / 256;
    assert(1000 * units <= 256 * m + 500 < 1000 * units + 1000);
}

/// The shape that `feature` stands for, or why it stands for none.
pub open spec fn shape_of(feature: FeatureView) -> Result<ShapeView, Seq<char>> {
    match feature.geometry {
        Some(GeometryView::Polygon(rings)) => if rings.len() == 0 {
            Err("Polygon has no rings"@)
        } else {
            Ok(ShapeView::Polygon(open_ring(clamped_points(rings[0]))))
        },
        Some(GeometryView::Point(p)) => match feature.properties {
            None => Err("Feature has no properties"@),
            Some(properties) => {
                let radius = match number_at(properties, "radius"@) {
                    Some(r) => r,
                    None => 0,
                };
                if radius <= 0 {
                    Err("Radius must be greater than 0"@)
                } else {
                    Ok(
                        ShapeView::Circle {
                            center: p.clamped(),
                            radius,
                            points: match lookup(properties, "points"@) {
                                Some(v) => v.as_integer(),
                                None => None,
                            },
                        },
                    )
                }
            },
        },
        _ => Err("Unsupported geometry or missing shape data"@),
    }
}

/// The stroke that the properties name: a red stroke one pixel wide, unless
/// they give a width or a color of their own.
pub open spec fn stroke_of(properties: Option<Seq<(Seq<char>, JsonView)>>) -> Stroke {
    match properties {
        Some(p) => Stroke {
            width: match number_at(p, "stroke_width"@) {
                Some(w) => width_of(w),
                None => 256,
            },
            color: match color_at(p, "stroke_color"@) {
                Some(c) => c,
                None => Color { r: 255, g: 0, b: 0, a: 255 },
            },
        },
        None => Stroke { width: 256, color: Color { r: 255, g: 0, b: 0, a: 255 } },
    }
}

/// The fill that the properties name, and no fill if they name none.
pub open spec fn fill_of(properties: Option<Seq<(Seq<char>, JsonView)>>) -> Color {
    match properties {
        Some(p) => match color_at(p, "fill_color"@) {
            Some(c) => c,
            None => Color { r: 0, g: 0, b: 0, a: 0 },
        },
        None => Color { r: 0, g: 0, b: 0, a: 0 },
    }
}

/// The area that `feature` stands for, or why it stands for none.
pub open spec fn area_of(feature: FeatureView) -> Result<AreaView, Seq<char>> {
    match shape_of(feature) {
        Ok(shape) => Ok(
            AreaView { shape, stroke: stroke_of(feature.properties), fill: fill_of(feature.properties) },
        ),
        Err(e) => Err(e),
    }
}

/// The feature that stands for a polyline: a line string.
pub open spec fn polyline_feature(points: Seq<GeoPos>) -> FeatureView {
    FeatureView { geometry: Some(GeometryView::LineString(points)), properties: Some(with_version(Seq::empty())) }
}

/// The polyline that `feature` stands for, or why it stands for none.
pub open spec fn polyline_of(feature: FeatureView) -> Result<Seq<GeoPos>, Seq<char>> {
    match feature.geometry {
        Some(GeometryView::LineString(points)) => Ok(clamped_points(points)),
        _ => Err("Feature is not a LineString"@),
    }
}

/// Adds the producer's name and version to the feature properties.
pub fn add_version_to_properties(properties: &mut Properties)
    ensures
        final(properties)@ == with_version(old(properties)@),
{
    properties.insert(
        "x-egui-map-view-crate-name",
        JsonValue::Text(String::from_str("egui-map-view")),
    );
    properties.insert("x-egui-map-view-crate-version", JsonValue::Text(String::from_str("0.1.0")));
}

/// Checks the producer's name and version in the feature properties, and says
/// whether there is something to warn of.
pub fn check_version_from_properties(properties: &Properties) -> (r: VersionCheck)
    ensures
        r == version_check(properties@),
{
    let name = match properties.get("x-egui-map-view-crate-name") {
        Some(v) => v.as_str(),
        None => None,
    };
    let version = match properties.get("x-egui-map-view-crate-version") {
        Some(v) => v.as_str(),
        None => None,
    };
    match (name, version) {
        (Some(name), Some(version)) => {
            let same_name: bool = String::from_str(name) == String::from_str("egui-map-view");
            let same_version: bool = String::from_str(version) == String::from_str("0.1.0");
            if same_name && !same_version {
                VersionCheck::OtherVersion
            } else {
                VersionCheck::Quiet
            }
        },
        _ => VersionCheck::NoVersion,
    }
}

/// Adds a stroke and a fill to the feature properties.
fn add_style_to_properties(properties: &mut Properties, stroke: Stroke, fill: Color)
    ensures
        final(properties)@ == with_style(old(properties)@, stroke, fill),
{
    properties.insert("stroke_color", JsonValue::Text(stroke.color.to_hex()));
    properties.insert("stroke_width", JsonValue::Number(number_from_width(stroke.width)));
    properties.insert("fill_color", JsonValue::Text(fill.to_hex()));
}

/// The number under `key`, in thousandths.
fn get_number(properties: &Properties, key: &str) -> (r: Option<i64>)
    ensures
        r == number_at(properties@, key@),
{
    match properties.get(key) {
        Some(v) => v.as_number(),
        None => None,
    }
}

/// The color under `key`.
fn get_color(properties: &Properties, key: &str) -> (r: Option<Color>)
    ensures
        r == color_at(properties@, key@),
{
    match properties.get(key) {
        Some(v) => match v.as_str() {
            Some(s) => Color::from_hex(s),
            None => None,
        },
        None => None,
    }
}

/// The number of pixels, in thousandths, that stands for a width in screen
/// units.
fn number_from_width(units: u32) -> (n: i64)
    ensures
        n == width_number(units),
{
    (1000 * (units as i64) + 128) / 256
}

/// A length in millimetres from a number of metres in thousandths.
fn length_from(thousandths: i64) -> (w: u32)
    ensures
        w == length_of(thousandths),
{
    if thousandths < 0 {
        0
    } else if thousandths > 0xffff_ffff {
        u32::MAX
    } else {
        thousandths as u32
    }
}

/// A width in screen units from a number of pixels in thousandths.
fn width_from(thousandths: i64) -> (w: u32)
    ensures
        w == width_of(thousandths),
{
    if thousandths < 0 {
        return 0;
    }
    let rounded: u128 = (256 * (thousandths as u128) + 500) / 1000;
    if rounded > 0xffff_ffff {
        u32::MAX
    } else {
        rounded as u32
    }
}

/// The positions of `points`, each held within the world.
fn clamp_points(points: &Vec<GeoPos>) -> (r: Vec<GeoPos>)
    ensures
        r@ == clamped_points(points@),
        all_in_world(r@),
{
    let mut r: Vec<GeoPos> = Vec::new();
    let mut i: usize = 0;
    while i < points.len()
        invariant
            i <= points@.len(),
            r@.len() == i,
            forall|k: int| 0 <= k < i ==> #[trigger] r@[k] == points@[k].clamped(),
            all_in_world(r@),
        decreases points@.len() - i,
    {
        r.push(points[i].clamp_to_world());
        i = i + 1;
    }
    assert(r@ =~= clamped_points(points@));
    r
}

/// The stroke that the properties name.
fn read_stroke(properties: &Option<Properties>) -> (s: Stroke)
    ensures
        s == stroke_of(
            match *properties {
                Some(p) => Some(p@),
                None => None,
            },
        ),
{
    // default stroke settings to use if not present in the feature properties
    let mut stroke = Stroke::new(256, Color::red());
    if let Some(p) = properties {
        if let Some(width) = get_number(p, "stroke_width") {
            stroke.width = width_from(width);
        }
        if let Some(color) = get_color(p, "stroke_color") {
            stroke.color = color;
        }
    }
    stroke
}

/// The fill that the properties name.
fn read_fill(properties: &Option<Properties>) -> (c: Color)
    ensures
        c == fill_of(
            match *properties {
                Some(p) => Some(p@),
                None => None,
            },
        ),
{
    let mut fill = Color::transparent();
    if let Some(p) = properties {
        if let Some(color) = get_color(p, "fill_color") {
            fill = color;
        }
    }
    fill
}

impl From<Area> for Feature {
    /// The feature that stands for the area.
    fn from(area: Area) -> (feature: Feature)
        ensures
            feature@ == area_feature(area@),
    {
        let mut properties = Properties::new();
        add_version_to_properties(&mut properties);
        add_style_to_properties(&mut properties, area.stroke, area.fill);
        match &area.shape {
            AreaShape::Polygon(points) => {
                // GeoJSON polygons must be closed, so the first and last points
                // must be the same.
                let mut ring = copy_points(points);
                if points.len() > 0 {
                    ring.push(points[0]);
                }
                let mut rings: Vec<Vec<GeoPos>> = Vec::new();
                rings.push(ring);
                let feature = Feature {
                    geometry: Some(Geometry::Polygon(rings)),
                    properties: Some(properties),
                };
                assert(rings@.map_values(|r: Vec<GeoPos>| r@) =~= seq![closed_ring(points@)]);
                feature
            },
            AreaShape::Circle { center, radius, points } => {
                properties.insert("radius", JsonValue::Number(*radius));
                if let Some(p) = points {
                    properties.insert("points", JsonValue::Integer(*p));
                }
                Feature { geometry: Some(Geometry::Point(*center)), properties: Some(properties) }
            },
        }
    }
}

impl vstd::std_specs::convert::FromSpecImpl<Area> for Feature {
    open spec fn obeys_from_spec() -> bool {
        false
    }

    open spec fn from_spec(area: Area) -> Feature {
        arbitrary()
    }
}

/// The text of an error, as a string.
fn error_text(text: &str) -> (s: String)
    ensures
        s@ == text@,
{
    String::from_str(text)
}

impl TryFrom<Feature> for Area {
    type Error = String;

    /// The area that the feature stands for, or the reason why it stands for
    /// none. The positions are held within the world.
    fn try_from(feature: Feature) -> (r: Result<Area, String>)
        ensures
            match r {
                Ok(area) => area_of(feature@) == Ok::<AreaView, Seq<char>>(area@) && area@.shape.wf(),
                Err(e) => area_of(feature@) == Err::<AreaView, Seq<char>>(e@),
            },
    {
        let shape: AreaShape = match &feature.geometry {
            Some(Geometry::Polygon(rings)) => {
                if rings.len() == 0 {
                    return Err(error_text("Polygon has no rings"));
                }
                let mut polygon_points = clamp_points(&rings[0]);
                assert(rings@.map_values(|r: Vec<GeoPos>| r@)[0] == rings@[0]@);
                // Remove the closing point, as a polygon does not hold it.
                let n: usize = polygon_points.len();
                if n > 0 && polygon_points[0] == polygon_points[n - 1] {
                    let _ = polygon_points.pop();
                }
                AreaShape::Polygon(polygon_points)
            },
            Some(Geometry::Point(point)) => {
                let properties = match &feature.properties {
                    Some(p) => p,
                    None => {
                        return Err(error_text("Feature has no properties"));
                    },
                };
                let radius: i64 = match get_number(properties, "radius") {
                    Some(r) => r,
                    None => 0,
                };
                let points: Option<i64> = match properties.get("points") {
                    Some(v) => v.as_i64(),
                    None => None,
                };
                if radius <= 0 {
                    return Err(error_text("Radius must be greater than 0"));
                }
                AreaShape::Circle { center: point.clamp_to_world(), radius, points }
            },
            _ => {
                return Err(error_text("Unsupported geometry or missing shape data"));
            },
        };
        let stroke = read_stroke(&feature.properties);
        let fill = read_fill(&feature.properties);
        Ok(Area { shape, stroke, fill })
    }
}

impl vstd::std_specs::convert::TryFromSpecImpl<Feature> for Area {
    open spec fn obeys_try_from_spec() -> bool {
        false
    }

    open spec fn try_from_spec(feature: Feature) -> Result<Area, String> {
        arbitrary()
    }
}

impl From<Polyline> for Feature {
    /// The feature that stands for the polyline.
    fn from(polyline: Polyline) -> (feature: Feature)
        ensures
            feature@ == polyline_feature(polyline.0@),
    {
        let mut properties = Properties::new();
        add_version_to_properties(&mut properties);
        Feature { geometry: Some(Geometry::LineString(polyline.0)), properties: Some(properties) }
    }
}

impl vstd::std_specs::convert::FromSpecImpl<Polyline> for Feature {
    open spec fn obeys_from_spec() -> bool {
        false
    }

    open spec fn from_spec(polyline: Polyline) -> Feature {
        arbitrary()
    }
}

impl TryFrom<Feature> for Polyline {
    type Error = String;

    /// The polyline that the feature stands for, or the reason why it stands
    /// for none. The positions are held within the world.
    fn try_from(feature: Feature) -> (r: Result<Polyline, String>)
        ensures
            match r {
                Ok(polyline) => polyline_of(feature@) == Ok::<Seq<GeoPos>, Seq<char>>(polyline.0@)
                    && all_in_world(polyline.0@),
                Err(e) => polyline_of(feature@) == Err::<Seq<GeoPos>, Seq<char>>(e@),
            },
    {
        if let Some(Geometry::LineString(line_string)) = &feature.geometry {
            return Ok(Polyline(clamp_points(line_string)));
        }
        Err(error_text("Feature is not a LineString"))
    }
}

impl vstd::std_specs::convert::TryFromSpecImpl<Feature> for Polyline {
    open spec fn obeys_try_from_spec() -> bool {
        false
    }

    open spec fn try_from_spec(feature: Feature) -> Result<Polyline, String> {
        arbitrary()
    }
}

/// The color that comes back when `color` is written as text and the text is
/// read: `egui` decides, and where it refuses its own text, `fallback`.
pub open spec fn reread(color: Color, fallback: Color) -> Color {
    match hex_color(color.spec_hex()) {
        Some(c) => c,
        None => fallback,
    }
}

/// The keys of the properties differ from one another.
proof fn lemma_keys_differ()
    ensures
        "x-egui-map-view-crate-name"@.len() == 26,
        "x-egui-map-view-crate-version"@.len() == 29,
        "stroke_color"@.len() == 12,
        "stroke_width"@.len() == 12,
        "fill_color"@.len() == 10,
        "radius"@.len() == 6,
        "points"@.len() == 6,
        "layer_id"@.len() == 8,
        "stroke_color"@ != "stroke_width"@,
        "radius"@ != "points"@,
{
    reveal_strlit("x-egui-map-view-crate-name");
    reveal_strlit("x-egui-map-view-crate-version");
    reveal_strlit("stroke_color");
    reveal_strlit("stroke_width");
    reveal_strlit("fill_color");
    reveal_strlit("radius");
    reveal_strlit("points");
    reveal_strlit("layer_id");
    assert("stroke_color"@[7] != "stroke_width"@[7]);
    assert("radius"@[0] != "points"@[0]);
}

/// What the style entries find in properties that were given a style.
proof fn lemma_style_is_found(properties: Seq<(Seq<char>, JsonView)>, stroke: Stroke, fill: Color)
    ensures
        lookup(with_style(properties, stroke, fill), "stroke_color"@) == Some(
            JsonView::Text(stroke.color.spec_hex()),
        ),
        lookup(with_style(properties, stroke, fill), "stroke_width"@) == Some(
            JsonView::Number(width_number(stroke.width)),
        ),
        lookup(with_style(properties, stroke, fill), "fill_color"@) == Some(JsonView::Text(fill.spec_hex())),
        lookup(with_style(properties, stroke, fill), "radius"@) == lookup(properties, "radius"@),
        lookup(with_style(properties, stroke, fill), "points"@) == lookup(properties, "points"@),
{
    lemma_keys_differ();
    let a = with_entry(properties, "stroke_color"@, JsonView::Text(stroke.color.spec_hex()));
    let b = with_entry(a, "stroke_width"@, JsonView::Number(width_number(stroke.width)));
    lemma_lookup_with_entry(properties, "stroke_color"@, JsonView::Text(stroke.color.spec_hex()), "radius"@);
    lemma_lookup_with_entry(properties, "stroke_color"@, JsonView::Text(stroke.color.spec_hex()), "points"@);
    lemma_lookup_with_entry(a, "stroke_width"@, JsonView::Number(width_number(stroke.width)), "stroke_color"@);
    lemma_lookup_with_entry(a, "stroke_width"@, JsonView::Number(width_number(stroke.width)), "radius"@);
    lemma_lookup_with_entry(a, "stroke_width"@, JsonView::Number(width_number(stroke.width)), "points"@);
    lemma_lookup_with_entry(b, "fill_color"@, JsonView::Text(fill.spec_hex()), "stroke_color"@);
    lemma_lookup_with_entry(b, "fill_color"@, JsonView::Text(fill.spec_hex()), "stroke_width"@);
    lemma_lookup_with_entry(b, "fill_color"@, JsonView::Text(fill.spec_hex()), "radius"@);
    lemma_lookup_with_entry(b, "fill_color"@, JsonView::Text(fill.spec_hex()), "points"@);
}

/// The producer's entries hold neither a radius nor a number of points.
proof fn lemma_version_holds_no_shape()
    ensures
        lookup(with_version(Seq::empty()), "radius"@) is None,
        lookup(with_version(Seq::empty()), "points"@) is None,
{
    lemma_keys_differ();
    let none = Seq::<(Seq<char>, JsonView)>::empty();
    let a = with_entry(none, "x-egui-map-view-crate-name"@, JsonView::Text("egui-map-view"@));
    lemma_lookup_with_entry(none, "x-egui-map-view-crate-name"@, JsonView::Text("egui-map-view"@), "radius"@);
    lemma_lookup_with_entry(none, "x-egui-map-view-crate-name"@, JsonView::Text("egui-map-view"@), "points"@);
    lemma_lookup_with_entry(a, "x-egui-map-view-crate-version"@, JsonView::Text("0.1.0"@), "radius"@);
    lemma_lookup_with_entry(a, "x-egui-map-view-crate-version"@, JsonView::Text("0.1.0"@), "points"@);
}

/// A ring that was closed for GeoJSON opens to the corners it was made from:
/// the order is kept and the closing position is not among them.
pub proof fn lemma_ring_round_trip(points: Seq<GeoPos>)
    requires
        all_in_world(points),
    ensures
        open_ring(clamped_points(closed_ring(points))) == points,
{
    let closed = closed_ring(points);
    assert(clamped_points(closed) =~= closed) by {
        assert forall|i: int| 0 <= i < closed.len() implies #[trigger] clamped_points(closed)[i]
            == closed[i] by {
            if i < points.len() {
                assert(closed[i] == points[i]);
            } else {
                assert(closed[i] == points[0]);
            }
            assert(closed[i].in_world());
        }
    }
    if points.len() > 0 {
        assert(closed.first() == closed.last());
        assert(closed.drop_last() =~= points);
    }
}

/// An area that is written as a feature and read back is the same area: the
/// same shape, with the same positions in the same order, and the same stroke
/// width. Its colors are what `egui` reads from the text that it wrote for them.
pub proof fn lemma_area_round_trip(area: AreaView)
    requires
        area.shape.wf(),
    ensures
        area_of(area_feature(area)) == Ok::<AreaView, Seq<char>>(
            AreaView {
                shape: area.shape,
                stroke: Stroke {
                    width: area.stroke.width,
                    color: reread(area.stroke.color, Color { r: 255, g: 0, b: 0, a: 255 }),
                },
                fill: reread(area.fill, Color { r: 0, g: 0, b: 0, a: 0 }),
            },
        ),
{
    lemma_keys_differ();
    lemma_version_holds_no_shape();
    let versioned = with_version(Seq::empty());
    let styled = with_style(versioned, area.stroke, area.fill);
    lemma_style_is_found(versioned, area.stroke, area.fill);
    let w = area.stroke.width;
    lemma_width_round_trip(w);
    match area.shape {
        ShapeView::Polygon(points) => {
            lemma_ring_round_trip(points);
            assert(seq![closed_ring(points)][0] == closed_ring(points));
        },
        ShapeView::Circle { center, radius, points } => {
            let with_radius = with_entry(styled, "radius"@, JsonView::Number(radius));
            lemma_lookup_with_entry(styled, "radius"@, JsonView::Number(radius), "points"@);
            lemma_lookup_with_entry(styled, "radius"@, JsonView::Number(radius), "stroke_color"@);
            lemma_lookup_with_entry(styled, "radius"@, JsonView::Number(radius), "stroke_width"@);
            lemma_lookup_with_entry(styled, "radius"@, JsonView::Number(radius), "fill_color"@);
            match points {
                Some(p) => {
                    lemma_lookup_with_entry(with_radius, "points"@, JsonView::Integer(p), "radius"@);
                    lemma_lookup_with_entry(with_radius, "points"@, JsonView::Integer(p), "stroke_color"@);
                    lemma_lookup_with_entry(with_radius, "points"@, JsonView::Integer(p), "stroke_width"@);
                    lemma_lookup_with_entry(with_radius, "points"@, JsonView::Integer(p), "fill_color"@);
                },
                None => {},
            }
        },
    }
}

/// A polyline that is written as a feature and read back is the same
/// polyline.
pub proof fn lemma_polyline_round_trip(points: Seq<GeoPos>)
    requires
        all_in_world(points),
    ensures
        polyline_of(polyline_feature(points)) == Ok::<Seq<GeoPos>, Seq<char>>(points),
{
    assert(clamped_points(points) =~= points);
}

/// The feature that stands for a text: a point, with the text, its colors and
/// its size among the properties.
pub open spec fn text_feature(text: TextView) -> FeatureView {
    let base = with_entry(
        with_entry(
            with_entry(with_version(Seq::empty()), "text"@, JsonView::Text(text.text)),
            "color"@,
            JsonView::Text(text.color.spec_hex()),
        ),
        "background"@,
        JsonView::Text(text.background.spec_hex()),
    );
    FeatureView {
        geometry: Some(GeometryView::Point(text.pos)),
        properties: Some(
            match text.size {
                TextSize::Static(size) => with_entry(
                    with_entry(base, "size_type"@, JsonView::Text("Static"@)),
                    "size"@,
                    JsonView::Number(width_number(size)),
                ),
                TextSize::Relative(size) => with_entry(
                    with_entry(base, "size_type"@, JsonView::Text("Relative"@)),
                    "size"@,
                    JsonView::Number(size as i64),
                ),
            },
        ),
    }
}

/// The size that the properties name, and the default size if they name none
/// that is understood.
pub open spec fn size_of(properties: Seq<(Seq<char>, JsonView)>) -> TextSize {
    match (lookup(properties, "size_type"@), number_at(properties, "size"@)) {
        (Some(JsonView::Text(kind)), Some(size)) => if kind == "Static"@ {
            TextSize::Static(width_of(size))
        } else if kind == "Relative"@ {
            TextSize::Relative(length_of(size))
        } else {
            TextSize::Static(3072)
        },
        _ => TextSize::Static(3072),
    }
}

/// The text that `feature` stands for, or why it stands for none. What the
/// properties do not name is as in a new text.
pub open spec fn text_of(feature: FeatureView) -> Result<TextView, Seq<char>> {
    match feature.geometry {
        None => Err("Feature has no geometry"@),
        Some(GeometryView::Point(p)) => match feature.properties {
            None => Ok(
                TextView {
                    text: default_text().text,
                    pos: p.clamped(),
                    size: default_text().size,
                    color: default_text().color,
                    background: default_text().background,
                },
            ),
            Some(properties) => match lookup(properties, "text"@) {
                None => Err("Feature has no 'text' property"@),
                Some(JsonView::Text(s)) => Ok(
                    TextView {
                        text: s,
                        pos: p.clamped(),
                        size: size_of(properties),
                        color: match color_at(properties, "color"@) {
                            Some(c) => c,
                            None => default_text().color,
                        },
                        background: match color_at(properties, "background"@) {
                            Some(c) => c,
                            None => default_text().background,
                        },
                    },
                ),
                Some(_) => Err("Property 'text' is not a string"@),
            },
        },
        Some(_) => Err("Feature is not a Point"@),
    }
}

impl From<Text> for Feature {
    /// The feature that stands for the text.
    fn from(text: Text) -> (feature: Feature)
        ensures
            feature@ == text_feature(text@),
    {
        let mut properties = Properties::new();
        add_version_to_properties(&mut properties);
        properties.insert("text", JsonValue::Text(text.text.clone()));
        properties.insert("color", JsonValue::Text(text.color.to_hex()));
        properties.insert("background", JsonValue::Text(text.background.to_hex()));
        match text.size {
            TextSize::Static(size) => {
                properties.insert("size_type", JsonValue::Text(String::from_str("Static")));
                properties.insert("size", JsonValue::Number(number_from_width(size)));
            },
            TextSize::Relative(size) => {
                properties.insert("size_type", JsonValue::Text(String::from_str("Relative")));
                properties.insert("size", JsonValue::Number(size as i64));
            },
        }
        Feature { geometry: Some(Geometry::Point(text.pos)), properties: Some(properties) }
    }
}

impl vstd::std_specs::convert::FromSpecImpl<Text> for Feature {
    open spec fn obeys_from_spec() -> bool {
        false
    }

    open spec fn from_spec(text: Text) -> Feature {
        arbitrary()
    }
}

/// The size that the properties name.
fn read_size(properties: &Properties) -> (size: TextSize)
    ensures
        size == size_of(properties@),
{
    let kind = match properties.get("size_type") {
        Some(v) => v.as_str(),
        None => None,
    };
    match (kind, get_number(properties, "size")) {
        (Some(kind), Some(size)) => {
            let kind = String::from_str(kind);
            if kind == String::from_str("Static") {
                TextSize::Static(width_from(size))
            } else if kind == String::from_str("Relative") {
                TextSize::Relative(length_from(size))
            } else {
                TextSize::Static(3072)
            }
        },
        _ => TextSize::Static(3072),
    }
}

impl TryFrom<Feature> for Text {
    type Error = String;

    /// The text that the feature stands for, or the reason why it stands for
    /// none. The position is held within the world.
    fn try_from(feature: Feature) -> (r: Result<Text, String>)
        ensures
            match r {
                Ok(text) => text_of(feature@) == Ok::<TextView, Seq<char>>(text@) && text.pos.in_world(),
                Err(e) => text_of(feature@) == Err::<TextView, Seq<char>>(e@),
            },
    {
        let mut text = Text::default();
        match &feature.geometry {
            Some(Geometry::Point(point)) => {
                text.pos = point.clamp_to_world();
            },
            Some(_) => {
                return Err(error_text("Feature is not a Point"));
            },
            None => {
                return Err(error_text("Feature has no geometry"));
            },
        }
        if let Some(properties) = &feature.properties {
            match properties.get("text") {
                Some(value) => match value.as_str() {
                    Some(s) => {
                        text.text = String::from_str(s);
                    },
                    None => {
                        return Err(error_text("Property 'text' is not a string"));
                    },
                },
                None => {
                    return Err(error_text("Feature has no 'text' property"));
                },
            }
            if let Some(color) = get_color(properties, "color") {
                text.color = color;
            }
            if let Some(color) = get_color(properties, "background") {
                text.background = color;
            }
            text.size = read_size(properties);
        }
        Ok(text)
    }
}

impl vstd::std_specs::convert::TryFromSpecImpl<Feature> for Text {
    open spec fn obeys_try_from_spec() -> bool {
        false
    }

    open spec fn try_from_spec(feature: Feature) -> Result<Text, String> {
        arbitrary()
    }
}

/// A collection of features, with members of its own beside them.
#[derive(Debug, PartialEq, Eq)]
pub struct FeatureCollection {
    /// The features.
    pub features: Vec<Feature>,
    /// What the collection says of itself, beyond the standard.
    pub foreign_members: Option<Properties>,
}

/// What a `FeatureCollection` holds, with sequences for its vectors.
pub struct CollectionView {
    /// The features.
    pub features: Seq<FeatureView>,
    /// What the collection says of itself, beyond the standard.
    pub foreign_members: Option<Seq<(Seq<char>, JsonView)>>,
}

impl View for FeatureCollection {
    type V = CollectionView;

    open spec fn view(&self) -> CollectionView {
        CollectionView {
            features: self.features@.map_values(|f: Feature| f@),
            foreign_members: match self.foreign_members {
                Some(p) => Some(p@),
                None => None,
            },
        }
    }
}

/// The properties that carry a layer's stroke and name.
pub open spec fn with_layer(properties: Seq<(Seq<char>, JsonView)>, stroke: Stroke, layer_id: Seq<char>) -> Seq<
    (Seq<char>, JsonView),
> {
    with_entry(
        with_entry(
            with_entry(properties, "stroke_width"@, JsonView::Number(width_number(stroke.width))),
            "stroke_color"@,
            JsonView::Text(stroke.color.spec_hex()),
        ),
        "layer_id"@,
        JsonView::Text(layer_id),
    )
}

/// The feature that stands for one line of a drawing layer.
pub open spec fn line_feature(points: Seq<GeoPos>, stroke: Stroke, layer_id: Seq<char>) -> FeatureView {
    FeatureView {
        geometry: Some(GeometryView::LineString(points)),
        properties: Some(with_layer(with_version(Seq::empty()), stroke, layer_id)),
    }
}

/// The collection that stands for a drawing layer: a feature for each line,
/// and the stroke and the layer's name on each feature and on the collection.
pub open spec fn layer_collection(lines: Seq<Seq<GeoPos>>, stroke: Stroke, layer_id: Seq<char>) -> CollectionView {
    CollectionView {
        features: lines.map_values(|l: Seq<GeoPos>| line_feature(l, stroke, layer_id)),
        foreign_members: Some(with_layer(Seq::empty(), stroke, layer_id)),
    }
}

/// Whether a feature belongs to the layer that is asked for: every feature
/// does where none is asked for, and otherwise those whose `layer_id` is the
/// name asked for.
pub open spec fn belongs_to(feature: FeatureView, layer_id: Option<Seq<char>>) -> bool {
    match layer_id {
        None => true,
        Some(target) => match feature.properties {
            Some(p) => lookup(p, "layer_id"@) == Some(JsonView::Text(target)),
            None => false,
        },
    }
}

/// The stroke after the properties had their say: their width and their color
/// replace the stroke's, where they name one.
pub open spec fn restyled(stroke: Stroke, properties: Option<Seq<(Seq<char>, JsonView)>>) -> Stroke {
    match properties {
        Some(p) => Stroke {
            width: match number_at(p, "stroke_width"@) {
                Some(w) => width_of(w),
                None => stroke.width,
            },
            color: match color_at(p, "stroke_color"@) {
                Some(c) => c,
                None => stroke.color,
            },
        },
        None => stroke,
    }
}

/// The lines and the stroke of a layer after the first `n` features were
/// read: each feature that belongs to the layer and stands for a polyline adds
/// its line and has its say on the stroke.
pub open spec fn imported(
    lines: Seq<Seq<GeoPos>>,
    stroke: Stroke,
    features: Seq<FeatureView>,
    layer_id: Option<Seq<char>>,
    n: int,
) -> (Seq<Seq<GeoPos>>, Stroke)
    decreases n,
{
    if n <= 0 {
        (lines, stroke)
    } else {
        let before = imported(lines, stroke, features, layer_id, n - 1);
        match polyline_of(features[n - 1]) {
            Ok(points) if belongs_to(features[n - 1], layer_id) => (
                before.0.push(points),
                restyled(before.1, features[n - 1].properties),
            ),
            _ => before,
        }
    }
}

/// Adds a layer's stroke and name to the properties.
fn add_layer_to_properties(properties: &mut Properties, stroke: Stroke, layer_id: &str)
    ensures
        final(properties)@ == with_layer(old(properties)@, stroke, layer_id@),
{
    properties.insert("stroke_width", JsonValue::Number(number_from_width(stroke.width)));
    properties.insert("stroke_color", JsonValue::Text(stroke.color.to_hex()));
    properties.insert("layer_id", JsonValue::Text(String::from_str(layer_id)));
}

/// Tests whether a feature belongs to the layer that is asked for.
fn feature_belongs(feature: &Feature, layer_id: Option<&str>) -> (r: bool)
    ensures
        r == belongs_to(
            feature@,
            match layer_id {
                Some(t) => Some(t@),
                None => None,
            },
        ),
{
    match layer_id {
        None => true,
        Some(target_id) => match &feature.properties {
            Some(properties) => match properties.get("layer_id") {
                Some(val) => match val.as_str() {
                    Some(id) => String::from_str(id) == String::from_str(target_id),
                    // layer_id property exists but is not a string, treat as mismatch
                    None => false,
                },
                // layer_id property missing, treat as mismatch
                None => false,
            },
            // No properties, treat as mismatch
            None => false,
        },
    }
}

/// The stroke after the properties had their say.
fn restyle(stroke: Stroke, properties: &Option<Properties>) -> (s: Stroke)
    ensures
        s == restyled(
            stroke,
            match *properties {
                Some(p) => Some(p@),
                None => None,
            },
        ),
{
    let mut stroke = stroke;
    if let Some(p) = properties {
        if let Some(width) = get_number(p, "stroke_width") {
            stroke.width = width_from(width);
        }
        if let Some(color) = get_color(p, "stroke_color") {
            stroke.color = color;
        }
    }
    stroke
}

impl DrawingLayer {
    /// The layer as a GeoJSON `FeatureCollection`, under the name `layer_id`.
    pub fn to_geojson(&self, layer_id: &str) -> (collection: FeatureCollection)
        ensures
            collection@ == layer_collection(self.lines(), self.stroke, layer_id@),
    {
        let mut features: Vec<Feature> = Vec::new();
        let mut i: usize = 0;
        while i < self.polylines.len()
            invariant
                i <= self.polylines@.len(),
                features@.len() == i,
                forall|k: int|
                    0 <= k < i ==> (#[trigger] features@[k])@ == line_feature(
                        self.polylines@[k].0@,
                        self.stroke,
                        layer_id@,
                    ),
            decreases self.polylines@.len() - i,
        {
            let mut properties = Properties::new();
            add_version_to_properties(&mut properties);
            add_layer_to_properties(&mut properties, self.stroke, layer_id);
            let feature = Feature {
                geometry: Some(Geometry::LineString(copy_points(&self.polylines[i].0))),
                properties: Some(properties),
            };
            features.push(feature);
            i = i + 1;
        }
        let mut foreign_members = Properties::new();
        add_layer_to_properties(&mut foreign_members, self.stroke, layer_id);
        let collection = FeatureCollection { features, foreign_members: Some(foreign_members) };
        assert(collection@.features =~= layer_collection(self.lines(), self.stroke, layer_id@).features);
        collection
    }

    /// Reads a GeoJSON `FeatureCollection` and adds its polylines to the layer.
    ///
    /// If `layer_id` is provided, only features with a matching `layer_id`
    /// property are added; otherwise every feature that stands for a polyline
    /// is. Each feature added has its say on the stroke, and the collection's
    /// own members have the last.
    pub fn from_geojson(&mut self, collection: &FeatureCollection, layer_id: Option<&str>)
        requires
            old(self).wf(),
        ensures
            final(self).wf(),
            final(self).draw_mode == old(self).draw_mode,
            ({
                let read = imported(
                    old(self).lines(),
                    old(self).stroke,
                    collection@.features,
                    match layer_id {
                        Some(t) => Some(t@),
                        None => None,
                    },
                    collection@.features.len() as int,
                );
                &&& final(self).lines() == read.0
                &&& final(self).stroke == restyled(read.1, collection@.foreign_members)
            }),
    {
        let ghost lines = self.lines();
        let ghost stroke = self.stroke;
        let ghost wanted: Option<Seq<char>> = match layer_id {
            Some(t) => Some(t@),
            None => None,
        };
        let mut i: usize = 0;
        while i < collection.features.len()
            invariant
                self.wf(),
                self.draw_mode == old(self).draw_mode,
                i <= collection.features@.len(),
                wanted == match layer_id {
                    Some(t) => Some(t@),
                    None => None,
                },
                (self.lines(), self.stroke) == imported(lines, stroke, collection@.features, wanted, i as int),
            decreases collection.features@.len() - i,
        {
            let feature = &collection.features[i];
            assert(collection@.features[i as int] == feature@);
            if feature_belongs(feature, layer_id) {
                if let Some(Geometry::LineString(line_string)) = &feature.geometry {
                    let points = clamp_points(line_string);
                    let ghost before = self.polylines@;
                    self.polylines.push(Polyline(points));
                    self.stroke = restyle(self.stroke, &feature.properties);
                    proof {
                        assert(self.lines() =~= polyline_views(before).push(points@));
                        assert forall|k: int| 0 <= k < self.polylines@.len() implies all_in_world(
                            (#[trigger] self.polylines@[k]).0@,
                        ) by {
                            if k < before.len() {
                                assert(self.polylines@[k] == before[k]);
                            }
                        }
                    }
                }
            }
            i = i + 1;
        }
        self.stroke = restyle(self.stroke, &collection.foreign_members);
    }
}

/// A text that is written as a feature and read back is the same text: the
/// same words at the same position in the same size. Its colors are what `egui`
/// reads from the text that it wrote for them.
pub proof fn lemma_text_round_trip(text: TextView)
    requires
        text.pos.in_world(),
    ensures
        text_of(text_feature(text)) == Ok::<TextView, Seq<char>>(
            TextView {
                text: text.text,
                pos: text.pos,
                size: text.size,
                color: reread(text.color, default_text().color),
                background: reread(text.background, default_text().background),
            },
        ),
{
    reveal_strlit("x-egui-map-view-crate-name");
    reveal_strlit("x-egui-map-view-crate-version");
    reveal_strlit("text");
    reveal_strlit("color");
    reveal_strlit("background");
    reveal_strlit("size_type");
    reveal_strlit("size");
    reveal_strlit("Static");
    reveal_strlit("Relative");
    assert("text"@[0] != "size"@[0]);
    let t = JsonView::Text(text.text);
    let c = JsonView::Text(text.color.spec_hex());
    let b = JsonView::Text(text.background.spec_hex());
    let versioned = with_version(Seq::empty());
    let p1 = with_entry(versioned, "text"@, t);
    let p2 = with_entry(p1, "color"@, c);
    let p3 = with_entry(p2, "background"@, b);
    let (kind, amount) = match text.size {
        TextSize::Static(s) => (JsonView::Text("Static"@), width_number(s)),
        TextSize::Relative(s) => (JsonView::Text("Relative"@), s as i64),
    };
    let size = JsonView::Number(amount);
    let p4 = with_entry(p3, "size_type"@, kind);
    let p5 = with_entry(p4, "size"@, size);
    assert(text_feature(text).properties == Some(p5));
    // each entry is found under its key in the end
    lemma_lookup_with_entry(versioned, "text"@, t, "text"@);
    lemma_lookup_with_entry(p1, "color"@, c, "text"@);
    lemma_lookup_with_entry(p2, "background"@, b, "text"@);
    lemma_lookup_with_entry(p2, "background"@, b, "color"@);
    lemma_lookup_with_entry(p3, "size_type"@, kind, "text"@);
    lemma_lookup_with_entry(p3, "size_type"@, kind, "color"@);
    lemma_lookup_with_entry(p3, "size_type"@, kind, "background"@);
    lemma_lookup_with_entry(p4, "size"@, size, "text"@);
    lemma_lookup_with_entry(p4, "size"@, size, "color"@);
    lemma_lookup_with_entry(p4, "size"@, size, "background"@);
    lemma_lookup_with_entry(p4, "size"@, size, "size_type"@);
    assert(lookup(p5, "text"@) == Some(t));
    assert("color"@.len() == 5);
    assert("background"@.len() == 10);
    assert("size_type"@.len() == 9);
    assert("size"@.len() == 4);
    assert("color"@ != "background"@);
    assert(lookup(p2, "color"@) == Some(c));
    assert(lookup(p3, "color"@) == Some(c));
    assert(lookup(p4, "color"@) == Some(c));
    assert(lookup(p5, "color"@) == Some(c));
    assert(lookup(p5, "background"@) == Some(b));
    assert(lookup(p5, "size_type"@) == Some(kind));
    assert(lookup(p5, "size"@) == Some(size));
    assert(number_at(p5, "size"@) == Some(amount));
    assert("Static"@.len() == 6 && "Relative"@.len() == 8);
    match text.size {
        TextSize::Static(s) => {
            lemma_width_round_trip(s);
            assert(size_of(p5) == TextSize::Static(width_of(width_number(s))));
        },
        TextSize::Relative(s) => {
            assert(size_of(p5) == TextSize::Relative(length_of(s as i64)));
        },
    }
    assert(size_of(p5) == text.size);
    assert(text.pos.clamped() == text.pos);
}

} // verus!
