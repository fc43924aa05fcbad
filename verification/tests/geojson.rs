use egui_map_view::layers::area::Area;
use egui_map_view::layers::area::AreaShape;
use egui_map_view::layers::drawing::DrawingLayer;
use egui_map_view::layers::drawing::Polyline;
use egui_map_view::layers::geojson::add_version_to_properties;
use egui_map_view::layers::geojson::check_version_from_properties;
use egui_map_view::layers::geojson::Feature;
use egui_map_view::layers::geojson::FeatureCollection;
use egui_map_view::layers::geojson::Geometry;
use egui_map_view::layers::geojson::JsonValue;
use egui_map_view::layers::geojson::Properties;
use egui_map_view::layers::geojson::VersionCheck;
use egui_map_view::layers::text::Text;
use egui_map_view::layers::text::TextSize;
use egui_map_view::projection::GeoPos;
use egui_map_view::projection::WORLD_SIZE;
use egui_map_view::style::Color;
use egui_map_view::style::Stroke;

/// The position of a longitude and latitude in degrees, in world units.
fn geo(lon: f64, lat: f64) -> GeoPos {
    let world = WORLD_SIZE as f64;
    let x = (lon + 180.0) / 360.0 * world;
    let y = (1.0 - lat.to_radians().tan().asinh() / std::f64::consts::PI) / 2.0 * world;
    GeoPos { x: x.round() as i64, y: y.round() as i64 }
}

fn text(s: &str) -> JsonValue {
    JsonValue::Text(s.to_string())
}

fn properties(entries: Vec<(&str, JsonValue)>) -> Properties {
    let mut p = Properties::new();
    for (k, v) in entries {
        p.insert(k, v);
    }
    p
}

fn point_feature(entries: Vec<(&str, JsonValue)>) -> Feature {
    Feature { geometry: Some(Geometry::Point(geo(10.0, 20.0))), properties: Some(properties(entries)) }
}

#[test]
fn drawing_layer_geojson() {
    let mut layer = DrawingLayer::default();
    layer.polylines.push(Polyline(vec![geo(10.0, 20.0), geo(30.0, 40.0), geo(50.0, 60.0)]));
    layer.stroke = Stroke::new(5 * 256, Color::blue());

    let geojson = layer.to_geojson("my_layer");

    // Test deserialization with matching ID
    let mut new_layer = DrawingLayer::default();
    new_layer.from_geojson(&geojson, Some("my_layer"));

    assert_eq!(new_layer.polylines.len(), 1);
    assert_eq!(layer.polylines[0], new_layer.polylines[0]);
    assert_eq!(layer.stroke, new_layer.stroke);

    // Test deserialization with non-matching ID
    let mut other_layer = DrawingLayer::default();
    other_layer.from_geojson(&geojson, Some("other_layer"));
    assert_eq!(other_layer.polylines.len(), 0);

    // Test deserialization with None ID (should include all)
    let mut all_layer = DrawingLayer::default();
    all_layer.from_geojson(&geojson, None);
    assert_eq!(all_layer.polylines.len(), 1);
}

#[test]
fn a_polygon_comes_back_without_its_closing_point() {
    let p1 = geo(10.0, 55.0);
    let p2 = geo(11.0, 55.0);
    let p3 = geo(10.5, 55.5);
    let area = Area {
        shape: AreaShape::Polygon(vec![p1, p2, p3]),
        stroke: Stroke::new(2 * 256, Color::from_rgb(255, 0, 0)),
        fill: Color::from_rgba_unmultiplied(255, 0, 0, 50),
    };
    let feature = Feature::from(area);
    // the ring is closed
    assert_eq!(feature.geometry, Some(Geometry::Polygon(vec![vec![p1, p2, p3, p1]])));
    let back = Area::try_from(feature).unwrap();
    assert_eq!(back.shape, AreaShape::Polygon(vec![p1, p2, p3]));
    assert_eq!(back.stroke, Stroke::new(2 * 256, Color::from_rgb(255, 0, 0)));
    assert_eq!(back.fill, Color::from_rgba_unmultiplied(255, 0, 0, 50));
}

#[test]
fn short_polygons_come_back_too() {
    for points in [vec![], vec![geo(1.0, 2.0)], vec![geo(1.0, 2.0), geo(3.0, 4.0)]] {
        let area = Area {
            shape: AreaShape::Polygon(points.clone()),
            stroke: Stroke::new(1 * 256, Color::black()),
            fill: Color::transparent(),
        };
        let back = Area::try_from(Feature::from(area)).unwrap();
        assert_eq!(back.shape, AreaShape::Polygon(points));
    }
}

#[test]
fn a_circle_is_a_point_with_a_radius() {
    let area = Area {
        shape: AreaShape::Circle { center: geo(24.9, 60.2), radius: 1_000_000, points: Some(32) },
        stroke: Stroke::new(3 * 256, Color::blue()),
        fill: Color::white(),
    };
    let feature = Feature::from(area);
    assert_eq!(feature.geometry, Some(Geometry::Point(geo(24.9, 60.2))));
    let p = feature.properties.as_ref().unwrap();
    assert_eq!(p.get("radius"), Some(&JsonValue::Number(1_000_000)));
    assert_eq!(p.get("points"), Some(&JsonValue::Integer(32)));
    assert_eq!(p.get("stroke_color"), Some(&text("#0000ffff")));
    assert_eq!(p.get("stroke_width"), Some(&JsonValue::Number(3000)));
    assert_eq!(p.get("fill_color"), Some(&text("#ffffffff")));
    assert_eq!(p.get("x-egui-map-view-crate-name"), Some(&text("egui-map-view")));
    assert_eq!(p.get("x-egui-map-view-crate-version"), Some(&text("0.1.0")));
    let back = Area::try_from(feature).unwrap();
    assert_eq!(
        back,
        Area {
            shape: AreaShape::Circle { center: geo(24.9, 60.2), radius: 1_000_000, points: Some(32) },
            stroke: Stroke::new(3 * 256, Color::blue()),
            fill: Color::white(),
        }
    );
    // without a number of points
    let area = Area {
        shape: AreaShape::Circle { center: geo(24.9, 60.2), radius: 1, points: None },
        stroke: Stroke::new(3 * 256, Color::blue()),
        fill: Color::white(),
    };
    let feature = Feature::from(area);
    assert_eq!(feature.properties.as_ref().unwrap().get("points"), None);
    assert_eq!(
        Area::try_from(feature).unwrap().shape,
        AreaShape::Circle { center: geo(24.9, 60.2), radius: 1, points: None }
    );
}

#[test]
fn areas_that_cannot_be_read_say_why() {
    let no_geometry = Feature { geometry: None, properties: Some(Properties::new()) };
    assert_eq!(Area::try_from(no_geometry), Err("Unsupported geometry or missing shape data".to_string()));
    let line = Feature { geometry: Some(Geometry::LineString(vec![])), properties: None };
    assert_eq!(Area::try_from(line), Err("Unsupported geometry or missing shape data".to_string()));
    let other = Feature { geometry: Some(Geometry::Other), properties: None };
    assert_eq!(Area::try_from(other), Err("Unsupported geometry or missing shape data".to_string()));
    let no_rings = Feature { geometry: Some(Geometry::Polygon(vec![])), properties: None };
    assert_eq!(Area::try_from(no_rings), Err("Polygon has no rings".to_string()));
    let bare_point = Feature { geometry: Some(Geometry::Point(geo(1.0, 2.0))), properties: None };
    assert_eq!(Area::try_from(bare_point), Err("Feature has no properties".to_string()));
    for entries in [
        vec![],
        vec![("radius", JsonValue::Number(0))],
        vec![("radius", JsonValue::Number(-1500))],
        vec![("radius", JsonValue::Integer(-2))],
        vec![("radius", text("12"))],
        vec![("radius", JsonValue::Other)],
    ] {
        assert_eq!(Area::try_from(point_feature(entries)), Err("Radius must be greater than 0".to_string()));
    }
}

#[test]
fn areas_are_read_with_what_the_properties_give() {
    // no style at all: a red stroke one pixel wide and no fill
    let bare = Feature { geometry: Some(Geometry::Polygon(vec![vec![geo(1.0, 2.0), geo(3.0, 4.0)]])), properties: None };
    let area = Area::try_from(bare).unwrap();
    assert_eq!(area.stroke, Stroke::new(1 * 256, Color::red()));
    assert_eq!(area.fill, Color::transparent());
    assert_eq!(area.shape, AreaShape::Polygon(vec![geo(1.0, 2.0), geo(3.0, 4.0)]));
    // a whole radius is in metres; a whole number of points is kept, a broken one is not
    let area = Area::try_from(point_feature(vec![
        ("radius", JsonValue::Integer(12)),
        ("points", JsonValue::Number(16000)),
        ("stroke_width", JsonValue::Number(2500)),
        ("stroke_color", text("#00ff00")),
        ("fill_color", text("not a color")),
    ]))
    .unwrap();
    assert_eq!(area.shape, AreaShape::Circle { center: geo(10.0, 20.0), radius: 12_000, points: None });
    // two and a half pixels are 640 screen units
    assert_eq!(area.stroke, Stroke::new(640, Color::from_rgb(0, 255, 0)));
    assert_eq!(area.fill, Color::transparent());
    let area = Area::try_from(point_feature(vec![
        ("radius", JsonValue::Number(1)),
        ("stroke_width", JsonValue::Number(-700)),
        ("stroke_color", JsonValue::Integer(7)),
    ]))
    .unwrap();
    assert_eq!(area.stroke, Stroke::new(0, Color::red()));
    // only the first ring counts, and positions are held within the world
    let rings = vec![
        vec![GeoPos { x: -5, y: 7 }, GeoPos { x: 9, y: WORLD_SIZE + 1 }, GeoPos { x: 0, y: 7 }],
        vec![geo(0.0, 0.0)],
    ];
    let area = Area::try_from(Feature { geometry: Some(Geometry::Polygon(rings)), properties: None }).unwrap();
    assert_eq!(area.shape, AreaShape::Polygon(vec![GeoPos { x: 0, y: 7 }, GeoPos { x: 9, y: WORLD_SIZE }]));
}

#[test]
fn a_polyline_is_a_line_string() {
    let points = vec![geo(10.0, 20.0), geo(30.0, 40.0)];
    let feature = Feature::from(Polyline(points.clone()));
    assert_eq!(feature.geometry, Some(Geometry::LineString(points.clone())));
    assert_eq!(check_version_from_properties(feature.properties.as_ref().unwrap()), VersionCheck::Quiet);
    assert_eq!(Polyline::try_from(feature), Ok(Polyline(points)));
    let point = Feature { geometry: Some(Geometry::Point(geo(1.0, 2.0))), properties: None };
    assert_eq!(Polyline::try_from(point), Err("Feature is not a LineString".to_string()));
    let nothing = Feature { geometry: None, properties: None };
    assert_eq!(Polyline::try_from(nothing), Err("Feature is not a LineString".to_string()));
}

#[test]
fn a_text_is_a_point_with_its_words() {
    let label = Text {
        text: "Hello".to_string(),
        pos: geo(1.0, 2.0),
        size: TextSize::Relative(250_000),
        color: Color::from_rgb(0, 0, 255),
        background: Color::from_rgba_unmultiplied(255, 0, 0, 128),
    };
    let feature = Feature::from(label.clone());
    assert_eq!(feature.geometry, Some(Geometry::Point(geo(1.0, 2.0))));
    let p = feature.properties.as_ref().unwrap();
    assert_eq!(p.get("text"), Some(&text("Hello")));
    assert_eq!(p.get("color"), Some(&text("#0000ffff")));
    assert_eq!(p.get("background"), Some(&text("#ff000080")));
    assert_eq!(p.get("size_type"), Some(&text("Relative")));
    assert_eq!(p.get("size"), Some(&JsonValue::Number(250_000)));
    assert_eq!(Text::try_from(feature), Ok(label));
    let label = Text { size: TextSize::Static(14 * 256), ..Text::default() };
    let feature = Feature::from(label.clone());
    assert_eq!(feature.properties.as_ref().unwrap().get("size"), Some(&JsonValue::Number(14_000)));
    assert_eq!(Text::try_from(feature), Ok(label));
    // a size between two pixels is written to the thousandth of a pixel and
    // read as it was
    let label = Text { size: TextSize::Static(3333), ..Text::default() };
    let feature = Feature::from(label.clone());
    assert_eq!(feature.properties.as_ref().unwrap().get("size"), Some(&JsonValue::Number(13_020)));
    assert_eq!(Text::try_from(feature), Ok(label));
}

#[test]
fn texts_that_cannot_be_read_say_why() {
    let nothing = Feature { geometry: None, properties: None };
    assert_eq!(Text::try_from(nothing), Err("Feature has no geometry".to_string()));
    let line = Feature { geometry: Some(Geometry::LineString(vec![])), properties: None };
    assert_eq!(Text::try_from(line), Err("Feature is not a Point".to_string()));
    assert_eq!(Text::try_from(point_feature(vec![])), Err("Feature has no 'text' property".to_string()));
    assert_eq!(
        Text::try_from(point_feature(vec![("text", JsonValue::Integer(5))])),
        Err("Property 'text' is not a string".to_string())
    );
}

#[test]
fn texts_are_read_with_what_the_properties_give() {
    // without properties the text is a new text at the point
    let bare = Feature { geometry: Some(Geometry::Point(geo(10.0, 20.0))), properties: None };
    let read = Text::try_from(bare).unwrap();
    assert_eq!(read, Text { pos: geo(10.0, 20.0), ..Text::default() });
    assert_eq!(read.text, "New Text");
    assert_eq!(read.size, TextSize::Static(12 * 256));
    assert_eq!(read.color, Color::black());
    assert_eq!(read.background, Color { r: 180, g: 180, b: 180, a: 180 });
    let read = Text::try_from(point_feature(vec![
        ("text", text("x")),
        ("size_type", text("Static")),
        ("size", JsonValue::Integer(20)),
        ("color", text("#ff0000")),
    ]))
    .unwrap();
    assert_eq!(read.size, TextSize::Static(20 * 256));
    assert_eq!(read.color, Color::red());
    // a size of a kind that is not known, or without a kind, is not used
    for entries in [
        vec![("text", text("x")), ("size_type", text("static")), ("size", JsonValue::Integer(20))],
        vec![("text", text("x")), ("size", JsonValue::Integer(20))],
        vec![("text", text("x")), ("size_type", text("Static")), ("size", text("20"))],
        vec![("text", text("x")), ("size_type", JsonValue::Integer(1)), ("size", JsonValue::Integer(20))],
    ] {
        assert_eq!(Text::try_from(point_feature(entries)).unwrap().size, TextSize::Static(12 * 256));
    }
}

#[test]
fn the_producer_is_checked() {
    let mut p = Properties::new();
    assert_eq!(check_version_from_properties(&p), VersionCheck::NoVersion);
    add_version_to_properties(&mut p);
    assert_eq!(check_version_from_properties(&p), VersionCheck::Quiet);
    p.insert("x-egui-map-view-crate-version", text("0.0.9"));
    assert_eq!(check_version_from_properties(&p), VersionCheck::OtherVersion);
    p.insert("x-egui-map-view-crate-name", text("another-program"));
    assert_eq!(check_version_from_properties(&p), VersionCheck::Quiet);
    p.insert("x-egui-map-view-crate-name", JsonValue::Integer(1));
    assert_eq!(check_version_from_properties(&p), VersionCheck::NoVersion);
}

#[test]
fn properties_keep_one_value_for_each_key() {
    let mut p = Properties::new();
    p.insert("a", JsonValue::Integer(1));
    p.insert("b", JsonValue::Integer(2));
    p.insert("a", JsonValue::Integer(3));
    assert_eq!(p.entries.len(), 2);
    assert_eq!(p.get("a"), Some(&JsonValue::Integer(3)));
    assert_eq!(p.get("b"), Some(&JsonValue::Integer(2)));
    assert_eq!(p.get("c"), None);
    assert_eq!(p.entries[0].0, "a");
}

#[test]
fn values_are_read_by_kind() {
    assert_eq!(text("x").as_str(), Some("x"));
    assert_eq!(JsonValue::Integer(5).as_str(), None);
    assert_eq!(JsonValue::Integer(5).as_number(), Some(5000));
    assert_eq!(JsonValue::Integer(i64::MAX).as_number(), Some(i64::MAX));
    assert_eq!(JsonValue::Integer(i64::MIN).as_number(), Some(i64::MIN));
    assert_eq!(JsonValue::Number(1500).as_number(), Some(1500));
    assert_eq!(JsonValue::Number(1500).as_i64(), None);
    assert_eq!(JsonValue::Integer(-3).as_i64(), Some(-3));
    assert_eq!(JsonValue::Other.as_number(), None);
    assert_eq!(text("x").clone(), text("x"));
}

#[test]
fn a_layer_reads_the_features_that_name_it() {
    let line = |id: Option<&str>, width: i64| {
        let mut f = Feature::from(Polyline(vec![geo(1.0, 2.0), geo(3.0, 4.0)]));
        let p = f.properties.as_mut().unwrap();
        p.insert("stroke_width", JsonValue::Number(width));
        if let Some(id) = id {
            p.insert("layer_id", text(id));
        }
        f
    };
    let mut numbered = line(None, 9000);
    numbered.properties.as_mut().unwrap().insert("layer_id", JsonValue::Integer(1));
    let collection = FeatureCollection {
        features: vec![
            line(Some("a"), 3000),
            line(Some("b"), 4000),
            line(None, 5000),
            numbered,
            Feature { geometry: Some(Geometry::Point(geo(1.0, 2.0))), properties: Some(properties(vec![("layer_id", text("a")), ("stroke_width", JsonValue::Number(8000))])) },
            Feature { geometry: Some(Geometry::LineString(vec![])), properties: None },
        ],
        foreign_members: None,
    };
    let mut layer = DrawingLayer::default();
    layer.from_geojson(&collection, Some("a"));
    assert_eq!(layer.polylines.len(), 1);
    assert_eq!(layer.stroke, Stroke::new(3 * 256, Color::red()));
    let mut layer = DrawingLayer::default();
    layer.from_geojson(&collection, Some("c"));
    assert_eq!(layer.polylines.len(), 0);
    assert_eq!(layer.stroke, Stroke::new(2 * 256, Color::red()));
    // without a name every line string is read, and the last has the last word
    let mut layer = DrawingLayer::default();
    layer.polylines.push(Polyline(vec![]));
    layer.from_geojson(&collection, None);
    assert_eq!(layer.polylines.len(), 6);
    assert_eq!(layer.stroke, Stroke::new(9 * 256, Color::red()));
    // the collection's own members have the last word of all
    let collection = FeatureCollection {
        features: vec![line(Some("a"), 3000)],
        foreign_members: Some(properties(vec![("stroke_color", text("#0000ffff")), ("stroke_width", JsonValue::Integer(7))])),
    };
    let mut layer = DrawingLayer::default();
    layer.from_geojson(&collection, Some("none of these"));
    assert_eq!(layer.polylines.len(), 0);
    assert_eq!(layer.stroke, Stroke::new(7 * 256, Color::blue()));
}

#[test]
fn a_layer_is_written_with_its_stroke_and_name() {
    let mut layer = DrawingLayer::new(Stroke::new(5 * 256, Color::blue()));
    layer.polylines.push(Polyline(vec![geo(10.0, 20.0), geo(30.0, 40.0)]));
    layer.polylines.push(Polyline(vec![]));
    let collection = layer.to_geojson("my_layer");
    assert_eq!(collection.features.len(), 2);
    assert_eq!(collection.features[0].geometry, Some(Geometry::LineString(vec![geo(10.0, 20.0), geo(30.0, 40.0)])));
    for p in [
        collection.features[0].properties.as_ref().unwrap(),
        collection.features[1].properties.as_ref().unwrap(),
        collection.foreign_members.as_ref().unwrap(),
    ] {
        assert_eq!(p.get("stroke_width"), Some(&JsonValue::Number(5000)));
        assert_eq!(p.get("stroke_color"), Some(&text("#0000ffff")));
        assert_eq!(p.get("layer_id"), Some(&text("my_layer")));
    }
    assert_eq!(collection.foreign_members.as_ref().unwrap().entries.len(), 3);
    assert_eq!(collection.features[0].properties.as_ref().unwrap().entries.len(), 5);
}
