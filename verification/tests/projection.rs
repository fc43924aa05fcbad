use egui_map_view::projection::GeoPos;
use egui_map_view::projection::MapProjection;
use egui_map_view::projection::ScreenPos;
use egui_map_view::projection::ScreenRect;
use egui_map_view::projection::SCREEN_LIMIT;
use egui_map_view::projection::WORLD_SIZE;

const EPSILON: f64 = 1e-9;

/// The position of a longitude and latitude in degrees, in world units.
fn geo(lon: f64, lat: f64) -> GeoPos {
    let world = WORLD_SIZE as f64;
    let x = (lon + 180.0) / 360.0 * world;
    let y = (1.0 - lat.to_radians().tan().asinh() / std::f64::consts::PI) / 2.0 * world;
    GeoPos { x: x.round() as i64, y: y.round() as i64 }
}

/// The longitude and latitude in degrees of a position in world units.
fn degrees(pos: GeoPos) -> (f64, f64) {
    let world = WORLD_SIZE as f64;
    let lon = pos.x as f64 / world * 360.0 - 180.0;
    let n = std::f64::consts::PI - 2.0 * std::f64::consts::PI * pos.y as f64 / world;
    (lon, n.sinh().atan().to_degrees())
}

/// The number of screen units to the pixel.
const PX: i32 = 256;

/// The screen position of a pixel.
fn at(x: i32, y: i32) -> ScreenPos {
    ScreenPos { x: x * PX, y: y * PX }
}

/// A rectangle given in pixels.
fn rect(x: i32, y: i32, w: i32, h: i32) -> ScreenRect {
    ScreenRect { min: at(x, y), max: at(x + w, y + h) }
}

fn create_projection() -> MapProjection {
    MapProjection::new(
        10,
        geo(24.93545, 60.16952), // Helsinki
        rect(100, 200, 800, 600),
    )
}

#[test]
fn project_center() {
    let projection = create_projection();
    assert!(projection.is_valid());
    let center_geo = projection.center;
    let projected_center = projection.project(center_geo);
    assert_eq!(projected_center, projection.widget_rect.center());
    assert_eq!(projected_center, at(500, 500));
}

#[test]
fn unproject_center() {
    let projection = create_projection();
    let center_screen = projection.widget_rect.center();
    let (lon, lat) = degrees(projection.unproject(center_screen));
    let (center_lon, center_lat) = degrees(projection.center);
    assert!((lon - center_lon).abs() < EPSILON);
    assert!((lat - center_lat).abs() < EPSILON);
    // and the center is Helsinki, to the precision of a world unit
    assert!((lon - 24.93545).abs() < 1e-7);
    assert!((lat - 60.16952).abs() < 1e-7);
}

#[test]
fn project_unproject_roundtrip() {
    let projection = create_projection();
    let geo_pos_in = geo(24.93545, 60.16952); // Some point near Helsinki

    let screen_pos = projection.project(geo_pos_in);
    let geo_pos_out = projection.unproject(screen_pos);

    let (lon_in, lat_in) = degrees(geo_pos_in);
    let (lon_out, lat_out) = degrees(geo_pos_out);
    assert!((lon_in - lon_out).abs() < EPSILON);
    assert!((lat_in - lat_out).abs() < EPSILON);
}

#[test]
fn unproject_project_roundtrip() {
    let projection = create_projection();
    let screen_pos_in = at(150, 250); // Some point on the widget

    let geo_pos = projection.unproject(screen_pos_in);
    assert!(geo_pos.is_in_world());
    let screen_pos_out = projection.project(geo_pos);

    assert!(((screen_pos_in.x - screen_pos_out.x) as f64 / PX as f64).abs() < 1e-3);
    assert!(((screen_pos_in.y - screen_pos_out.y) as f64 / PX as f64).abs() < 1e-3);
    assert_eq!(screen_pos_in, screen_pos_out);
}

#[test]
fn screen_round_trip_is_exact_at_every_zoom() {
    let center = geo(-122.4194, 37.7749);
    for zoom in [0u8, 5, 8, 10, 19] {
        let projection = MapProjection::new(zoom, center, rect(0, 0, 801, 601));
        assert!(projection.is_valid());
        // whole pixels, and positions between pixels
        let whole = [at(0, 0), at(400, 300), at(801, 601), at(17, 599), at(-40, 10)];
        let between = [ScreenPos { x: 1, y: 2 }, ScreenPos { x: 400 * PX + 77, y: 300 * PX - 131 }];
        for screen in whole.into_iter().chain(between) {
            let g = projection.unproject(screen);
            if g.is_in_world() {
                assert_eq!(projection.project(g), screen);
            }
        }
    }
}

#[test]
fn geo_round_trip_loses_less_than_a_screen_unit() {
    let center = geo(24.93545, 60.16952);
    let mut checked = 0;
    for zoom in [0u8, 5, 8, 10, 19] {
        let projection = MapProjection::new(zoom, center, rect(100, 200, 800, 600));
        let unit: i64 = 1 << (24 - zoom as i64);
        for g in [geo(24.9, 60.1), geo(25.2, 60.3), geo(-0.1275, 51.5074), geo(179.9, -84.0)] {
            let p = projection.project(g);
            if p.x.abs() < SCREEN_LIMIT && p.y.abs() < SCREEN_LIMIT {
                let back = projection.unproject(p);
                assert!(g.x - unit < back.x && back.x <= g.x);
                assert!(g.y - unit < back.y && back.y <= g.y);
                checked += 1;
            }
        }
    }
    assert!(checked >= 14);
}

#[test]
fn geo_round_trip_at_street_level() {
    let center = geo(24.93545, 60.16952);
    let projection = MapProjection::new(19, center, rect(100, 200, 800, 600));
    let g = geo(24.9357, 60.1697);
    let (lon_in, lat_in) = degrees(g);
    let (lon_out, lat_out) = degrees(projection.unproject(projection.project(g)));
    assert!((lon_in - lon_out).abs() < 2e-8);
    assert!((lat_in - lat_out).abs() < 2e-8);
}

#[test]
fn far_positions_are_drawn_on_the_limit() {
    let center = geo(24.93545, 60.16952);
    let projection = MapProjection::new(19, center, rect(100, 200, 800, 600));
    let p = projection.project(geo(179.9, -84.0));
    assert_eq!(p, ScreenPos { x: SCREEN_LIMIT, y: SCREEN_LIMIT });
    assert!(p.is_valid());
    let q = projection.project(GeoPos { x: 0, y: 0 });
    assert_eq!(q, ScreenPos { x: -SCREEN_LIMIT, y: -SCREEN_LIMIT });
}

#[test]
fn project_scales_by_zoom() {
    // one tile is 256 pixels wide: at zoom 0 the whole world is one tile
    let center = GeoPos { x: WORLD_SIZE / 2, y: WORLD_SIZE / 2 };
    let projection = MapProjection::new(0, center, rect(0, 0, 256, 256));
    assert_eq!(projection.project(GeoPos { x: 0, y: 0 }), at(0, 0));
    assert_eq!(projection.project(GeoPos { x: WORLD_SIZE, y: WORLD_SIZE }), at(256, 256));
    assert_eq!(projection.unproject(at(64, 192)), GeoPos { x: WORLD_SIZE / 4, y: 3 * (WORLD_SIZE / 4) });
    // a quarter of a pixel is a 1024th of the world
    assert_eq!(projection.unproject(ScreenPos { x: 64, y: 0 }), GeoPos { x: WORLD_SIZE / 1024, y: 0 });
    // at zoom 1 the same world is 512 pixels wide
    let projection = MapProjection::new(1, center, rect(0, 0, 256, 256));
    assert_eq!(projection.project(GeoPos { x: 0, y: 0 }), at(-128, -128));
}

#[test]
fn clamp_to_world_holds_positions_within_the_world() {
    assert_eq!(GeoPos { x: -5, y: WORLD_SIZE + 9 }.clamp_to_world(), GeoPos { x: 0, y: WORLD_SIZE });
    assert_eq!(GeoPos { x: 17, y: 23 }.clamp_to_world(), GeoPos { x: 17, y: 23 });
    assert!(!GeoPos { x: -1, y: 0 }.is_in_world());
    assert!(GeoPos { x: WORLD_SIZE, y: 0 }.is_in_world());
}

#[test]
fn geo_pos_converts_from_and_to_pairs() {
    let pos = GeoPos::from((10, 20));
    assert_eq!(pos, GeoPos { x: 10, y: 20 });
    let pair: (i64, i64) = pos.into();
    assert_eq!(pair, (10, 20));
}

#[test]
fn validity_tests_know_the_limits() {
    assert!(ScreenPos { x: 0x2000_0000, y: -0x2000_0000 }.is_valid());
    assert!(!ScreenPos { x: 0x2000_0001, y: 0 }.is_valid());
    assert!(rect(0, 0, 10, 10).is_valid());
    assert!(!ScreenRect { min: ScreenPos { x: 5, y: 0 }, max: ScreenPos { x: 4, y: 0 } }.is_valid());
    assert!(!MapProjection::new(20, GeoPos { x: 0, y: 0 }, rect(0, 0, 1, 1)).is_valid());
    assert_eq!(rect(100, 200, 800, 600).width(), 800 * PX as i64);
    assert_eq!(rect(100, 200, 800, 600).height(), 600 * PX as i64);
    assert!(rect(0, 0, 10, 10).contains(at(10, 0)));
    assert!(!rect(0, 0, 10, 10).contains(ScreenPos { x: 10 * PX + 1, y: 0 }));
}
