use egui_map_view::input::CursorIcon;
use egui_map_view::input::PointerInput;
use egui_map_view::layers::area::circle_radius_units;
use egui_map_view::layers::area::find_first_edge;
use egui_map_view::layers::area::find_nearest_node;
use egui_map_view::layers::area::is_node_hit;
use egui_map_view::layers::area::is_polygon_move_valid;
use egui_map_view::layers::area::is_ring_hit;
use egui_map_view::layers::area::Area;
use egui_map_view::layers::area::AreaLayer;
use egui_map_view::layers::area::AreaMode;
use egui_map_view::layers::area::AreaShape;
use egui_map_view::layers::area::DraggedObject;
use egui_map_view::layers::DrawCommand;
use egui_map_view::layers::Layer;
use egui_map_view::projection::GeoPos;
use egui_map_view::projection::MapProjection;
use egui_map_view::projection::ScreenPos;
use egui_map_view::projection::ScreenRect;
use egui_map_view::projection::WORLD_SIZE;
use egui_map_view::style::Color;
use egui_map_view::style::Stroke;

fn projection() -> MapProjection {
    MapProjection::new(
        10,
        GeoPos { x: WORLD_SIZE / 2, y: WORLD_SIZE / 2 },
        ScreenRect { min: pos2(0, 0), max: pos2(800, 600) },
    )
}

/// The number of screen units to the pixel.
const PX: u32 = 256;

/// The radius of a node: five pixels.
const NODE: u32 = 5 * PX;

/// The screen position of a pixel.
fn pos2(x: i32, y: i32) -> ScreenPos {
    ScreenPos { x: x * PX as i32, y: y * PX as i32 }
}

/// How many micrometres a screen unit spans at `zoom` and the latitude `lat`,
/// in degrees.
fn resolution(zoom: u8, lat: f64) -> u32 {
    let metres_per_pixel = 156543.03392 * lat.to_radians().cos() / (1u32 << zoom) as f64;
    (metres_per_pixel / PX as f64 * 1e6).round() as u32
}

/// The position that is drawn at the screen position `(x, y)`.
fn at(x: i32, y: i32) -> GeoPos {
    projection().unproject(pos2(x, y))
}

fn polygon(points: &[(i32, i32)]) -> Area {
    Area {
        shape: AreaShape::Polygon(points.iter().map(|p| at(p.0, p.1)).collect()),
        stroke: Stroke::new(2 * PX, Color::red()),
        fill: Color::from_rgba_unmultiplied(255, 0, 0, 50),
    }
}

fn circle(x: i32, y: i32, radius: i64) -> Area {
    Area {
        shape: AreaShape::Circle { center: at(x, y), radius, points: None },
        stroke: Stroke::new(PX, Color::blue()),
        fill: Color::transparent(),
    }
}

fn quadrilateral() -> AreaLayer {
    let mut layer = AreaLayer::default();
    layer.add_area(polygon(&[(100, 100), (300, 100), (300, 300), (100, 300)]));
    layer.mode = AreaMode::Modify;
    layer
}

fn drag_start(x: i32, y: i32) -> PointerInput {
    let mut input = PointerInput::idle();
    input.hovered = true;
    input.drag_started = true;
    input.dragged = true;
    input.interact_pointer_pos = Some(pos2(x, y));
    input
}

fn drag_to(x: i32, y: i32) -> PointerInput {
    let mut input = PointerInput::idle();
    input.hovered = true;
    input.dragged = true;
    input.interact_pointer_pos = Some(pos2(x, y));
    input
}

fn points_of(layer: &AreaLayer, i: usize) -> Vec<GeoPos> {
    match &layer.areas[i].shape {
        AreaShape::Polygon(points) => points.clone(),
        AreaShape::Circle { .. } => panic!("area {} is a circle", i),
    }
}

#[test]
fn area_layer_new() {
    let layer = AreaLayer::default();
    assert_eq!(layer.mode, AreaMode::Disabled);
    assert!(layer.areas.is_empty());
    assert_eq!(layer.node_radius, NODE);
    assert_eq!(layer.node_fill, Color::from_rgb(0, 128, 0));
    assert!(layer.dragged_object.is_none());
    assert_eq!(AreaMode::default(), AreaMode::Disabled);
    let layer = AreaLayer::new();
    assert!(layer.areas.is_empty());
    assert!(layer.is_valid());
}

#[test]
fn a_move_across_the_opposite_edge_is_refused() {
    let p = projection();
    let mut layer = quadrilateral();
    let before = points_of(&layer, 0);
    // take hold of the first corner and drag it across the edge on the right
    assert!(layer.handle_input(&drag_start(101, 99), &p));
    assert_eq!(
        layer.dragged_object,
        Some(DraggedObject::PolygonNode { area_index: 0, node_index: 0 })
    );
    // the drag began off the corner by a pixel, which is an allowed move
    assert_eq!(points_of(&layer, 0)[0], at(101, 99));
    layer.handle_input(&drag_to(100, 100), &p);
    assert_eq!(points_of(&layer, 0), before);
    assert!(layer.handle_input(&drag_to(400, 200), &p));
    assert_eq!(points_of(&layer, 0), before);
    assert!(!layer.is_move_valid(0, 0, pos2(400, 200), &p));
    // the gesture goes on: back in the allowed region the corner follows
    layer.handle_input(&drag_to(150, 120), &p);
    assert_eq!(points_of(&layer, 0)[0], at(150, 120));
    assert_eq!(&points_of(&layer, 0)[1..], &before[1..]);
    let mut stop = PointerInput::idle();
    stop.drag_stopped = true;
    assert!(!layer.handle_input(&stop, &p));
    assert!(layer.dragged_object.is_none());
}

#[test]
fn move_validity_of_a_polygon() {
    let square = vec![pos2(100, 100), pos2(300, 100), pos2(300, 300), pos2(100, 300)];
    assert!(is_polygon_move_valid(&square, 0, pos2(50, 50)));
    assert!(is_polygon_move_valid(&square, 0, pos2(250, 250)));
    // across the right edge and across the bottom edge
    assert!(!is_polygon_move_valid(&square, 0, pos2(400, 200)));
    assert!(!is_polygon_move_valid(&square, 0, pos2(200, 400)));
    assert!(!is_polygon_move_valid(&square, 2, pos2(0, 200)));
    // a triangle has no edge away from a corner's own edges but the opposite one,
    // which shares a corner with each of the two that change
    let triangle = vec![pos2(0, 0), pos2(10, 0), pos2(5, 10)];
    assert!(is_polygon_move_valid(&triangle, 2, pos2(5, -10)));
    // fewer than three corners: anything goes
    assert!(is_polygon_move_valid(&vec![pos2(0, 0), pos2(10, 0)], 1, pos2(5, -10)));
}

#[test]
fn layer_move_validity() {
    let p = projection();
    let mut layer = quadrilateral();
    layer.add_area(circle(500, 300, 1000));
    assert!(layer.is_move_valid(0, 0, pos2(50, 50), &p));
    assert!(!layer.is_move_valid(0, 4, pos2(50, 50), &p));
    assert!(!layer.is_move_valid(2, 0, pos2(50, 50), &p));
    assert!(layer.is_move_valid(1, 0, pos2(50, 50), &p));
    // a polygon of fewer than three corners allows every move, whatever the node
    layer.add_area(polygon(&[(10, 10), (20, 20)]));
    layer.add_area(polygon(&[]));
    assert!(layer.is_move_valid(2, 0, pos2(50, 50), &p));
    assert!(layer.is_move_valid(2, 7, pos2(50, 50), &p));
    assert!(layer.is_move_valid(3, 0, pos2(50, 50), &p));
    assert!(!layer.is_move_valid(4, 0, pos2(50, 50), &p));
}

#[test]
fn the_nearest_node_in_reach_is_found() {
    let nodes = vec![pos2(0, 0), pos2(10, 0), pos2(20, 0), pos2(10, 0)];
    // node radius 5: in reach is less than 15 pixels away
    assert_eq!(find_nearest_node(&nodes, pos2(9, 1), NODE), Some(1));
    assert_eq!(find_nearest_node(&nodes, pos2(4, 0), NODE), Some(0));
    assert_eq!(find_nearest_node(&nodes, pos2(5, 0), NODE), Some(0));
    assert_eq!(find_nearest_node(&nodes, pos2(34, 0), NODE), Some(2));
    assert_eq!(find_nearest_node(&nodes, pos2(35, 0), NODE), None);
    assert_eq!(find_nearest_node(&vec![], pos2(0, 0), NODE), None);
    assert!(is_node_hit(pos2(0, 0), pos2(9, 11), NODE));
    assert!(!is_node_hit(pos2(0, 0), pos2(9, 12), NODE));
}

#[test]
fn the_first_edge_in_reach_is_found() {
    let square = vec![pos2(100, 100), pos2(300, 100), pos2(300, 300), pos2(100, 300)];
    // node radius 5: in reach is less than 10 pixels away
    assert_eq!(find_first_edge(&square, pos2(200, 109), NODE), Some(0));
    assert_eq!(find_first_edge(&square, pos2(200, 110), NODE), None);
    assert_eq!(find_first_edge(&square, pos2(305, 200), NODE), Some(1));
    assert_eq!(find_first_edge(&square, pos2(200, 295), NODE), Some(2));
    // the last edge closes the ring
    assert_eq!(find_first_edge(&square, pos2(95, 200), NODE), Some(3));
    // near a corner the first of the two edges wins
    assert_eq!(find_first_edge(&square, pos2(302, 98), NODE), Some(0));
    assert_eq!(find_first_edge(&vec![pos2(0, 0)], pos2(0, 0), NODE), None);
}

#[test]
fn a_double_click_on_an_edge_adds_a_corner() {
    let p = projection();
    let mut layer = quadrilateral();
    let before = points_of(&layer, 0);
    let mut input = PointerInput::idle();
    input.hovered = true;
    input.double_clicked = true;
    input.interact_pointer_pos = Some(pos2(180, 104));
    assert!(layer.handle_input(&input, &p));
    let after = points_of(&layer, 0);
    assert_eq!(after.len(), 5);
    // the new corner lies on the edge, just after the edge's first corner
    assert_eq!(after[1], at(180, 100));
    assert_eq!(after[0], before[0]);
    assert_eq!(&after[2..], &before[1..]);
    // on a corner nothing is added
    input.interact_pointer_pos = Some(pos2(300, 300));
    layer.handle_input(&input, &p);
    assert_eq!(points_of(&layer, 0).len(), 5);
    // away from every edge nothing is added
    input.interact_pointer_pos = Some(pos2(200, 200));
    layer.handle_input(&input, &p);
    assert_eq!(points_of(&layer, 0).len(), 5);
    // on the closing edge the corner goes to the end
    input.interact_pointer_pos = Some(pos2(102, 200));
    layer.handle_input(&input, &p);
    let after = points_of(&layer, 0);
    assert_eq!(after.len(), 6);
    assert_eq!(after[5], at(100, 200));
}

#[test]
fn the_topmost_area_wins() {
    let p = projection();
    let mut layer = AreaLayer::default();
    layer.add_area(polygon(&[(100, 100), (300, 100), (200, 300)]));
    layer.add_area(polygon(&[(105, 100), (400, 100), (400, 300)]));
    assert_eq!(
        layer.find_object_at(pos2(102, 100), &p),
        Some(DraggedObject::PolygonNode { area_index: 1, node_index: 0 })
    );
    assert_eq!(layer.find_node_at(pos2(102, 100), &p), Some((1, 0)));
    assert_eq!(
        layer.find_object_at(pos2(200, 300), &p),
        Some(DraggedObject::PolygonNode { area_index: 0, node_index: 2 })
    );
    assert_eq!(layer.find_object_at(pos2(600, 500), &p), None);
    assert_eq!(layer.find_line_segment_at(pos2(250, 101), &p), Some((1, 0)));
    assert_eq!(layer.find_line_segment_at(pos2(150, 200), &p), Some((0, 2)));
    assert_eq!(layer.find_line_segment_at(pos2(600, 500), &p), None);
}

#[test]
fn a_circle_is_held_by_its_edge_or_its_center() {
    let p = projection();
    let mut layer = AreaLayer::default();
    // 1024 metres, where a screen unit spans four centimetres: a hundred pixels
    layer.add_area(circle(400, 300, 1_024_000));
    layer.resolutions = vec![40_000];
    layer.mode = AreaMode::Modify;
    assert_eq!(circle_radius_units(1_024_000, 40_000), 100 * PX);
    assert_eq!(
        layer.find_object_at(pos2(500, 300), &p),
        Some(DraggedObject::CircleRadius { area_index: 0 })
    );
    assert_eq!(
        layer.find_object_at(pos2(400, 209), &p),
        Some(DraggedObject::CircleRadius { area_index: 0 })
    );
    assert_eq!(layer.find_object_at(pos2(400, 210), &p), None);
    assert_eq!(layer.find_object_at(pos2(400, 190), &p), None);
    assert_eq!(
        layer.find_object_at(pos2(410, 310), &p),
        Some(DraggedObject::CircleCenter { area_index: 0 })
    );
    assert_eq!(layer.find_object_at(pos2(430, 300), &p), None);
    // a circle has no corners and no edges to double-click
    assert_eq!(layer.find_node_at(pos2(400, 300), &p), None);
    assert_eq!(layer.find_line_segment_at(pos2(500, 300), &p), None);
    assert!(is_ring_hit(pos2(0, 0), 100 * PX, pos2(0, 109), NODE));
    assert!(!is_ring_hit(pos2(0, 0), 100 * PX, pos2(0, 110), NODE));
    assert!(is_ring_hit(pos2(0, 0), 100 * PX, pos2(91, 0), NODE));
    assert!(!is_ring_hit(pos2(0, 0), 100 * PX, pos2(90, 0), NODE));
    // a circle smaller than the reach is held anywhere inside the reach
    assert!(is_ring_hit(pos2(0, 0), 3 * PX, pos2(0, 0), NODE));
}

#[test]
fn moving_a_circle_keeps_its_radius() {
    let p = projection();
    let mut layer = AreaLayer::default();
    layer.add_area(circle(400, 300, 1_024_000));
    layer.resolutions = vec![40_000];
    layer.mode = AreaMode::Modify;
    layer.handle_input(&drag_start(405, 300), &p);
    assert_eq!(layer.dragged_object, Some(DraggedObject::CircleCenter { area_index: 0 }));
    layer.handle_input(&drag_to(200, 250), &p);
    assert_eq!(
        layer.areas[0].shape,
        AreaShape::Circle { center: at(200, 250), radius: 1_024_000, points: None }
    );
}

#[test]
fn resizing_a_circle_sets_its_radius_from_the_pointer() {
    let p = projection();
    let mut layer = AreaLayer::default();
    layer.add_area(circle(400, 300, 1_024_000));
    layer.resolutions = vec![40_000];
    layer.mode = AreaMode::Modify;
    layer.handle_input(&drag_start(500, 300), &p);
    assert_eq!(layer.dragged_object, Some(DraggedObject::CircleRadius { area_index: 0 }));
    // the drag begins on the handle, a hundred pixels from the center
    assert_eq!(
        layer.areas[0].shape,
        AreaShape::Circle { center: at(400, 300), radius: 1_024_000, points: None }
    );
    // three, four, five: fifty pixels are 512 metres
    layer.handle_input(&drag_to(430, 340), &p);
    assert_eq!(
        layer.areas[0].shape,
        AreaShape::Circle { center: at(400, 300), radius: 512_000, points: None }
    );
    // ten pixels right and ten down: the root of 2 * 2560^2 is 3620.4 screen
    // units, 14.14 pixels
    layer.handle_input(&drag_to(410, 310), &p);
    assert_eq!(
        layer.areas[0].shape,
        AreaShape::Circle { center: at(400, 300), radius: 144_800, points: None }
    );
    // a pointer between two pixels: a pixel and a half are 384 screen units
    let mut between = drag_to(400, 300);
    between.interact_pointer_pos = Some(ScreenPos { x: 400 * PX as i32 + 384, y: 300 * PX as i32 });
    layer.handle_input(&between, &p);
    assert_eq!(
        layer.areas[0].shape,
        AreaShape::Circle { center: at(400, 300), radius: 15_360, points: None }
    );
    // a radius of nothing is refused
    layer.handle_input(&drag_to(400, 300), &p);
    assert_eq!(
        layer.areas[0].shape,
        AreaShape::Circle { center: at(400, 300), radius: 15_360, points: None }
    );
    assert!(layer.is_valid());
}

#[test]
fn a_kilometre_comes_back_from_its_handle_within_a_hundredth() {
    // a circle of a kilometre, taken by its handle where it is drawn
    for zoom in 8u8..=19 {
        for lat in [0.0f64, 30.0, 45.0, 59.9] {
            let p = MapProjection::new(
                zoom,
                GeoPos { x: WORLD_SIZE / 2, y: WORLD_SIZE / 2 },
                ScreenRect { min: pos2(0, 0), max: pos2(800, 600) },
            );
            let mut layer = AreaLayer::default();
            layer.add_area(Area {
                shape: AreaShape::Circle { center: p.unproject(pos2(400, 300)), radius: 1_000_000, points: None },
                stroke: Stroke::new(PX, Color::blue()),
                fill: Color::transparent(),
            });
            let res = resolution(zoom, lat);
            layer.resolutions = vec![res];
            layer.mode = AreaMode::Modify;
            let units = circle_radius_units(1_000_000, res) as i32;
            let handle = ScreenPos { x: 400 * PX as i32 + units, y: 300 * PX as i32 };
            let mut input = PointerInput::idle();
            input.hovered = true;
            input.drag_started = true;
            input.dragged = true;
            input.interact_pointer_pos = Some(handle);
            assert!(layer.handle_input(&input, &p));
            assert_eq!(layer.dragged_object, Some(DraggedObject::CircleRadius { area_index: 0 }));
            match layer.areas[0].shape {
                AreaShape::Circle { radius, .. } => {
                    assert!((radius - 1_000_000).abs() <= 10_000, "zoom {} lat {}: {}", zoom, lat, radius);
                    assert!((radius - 1_000_000).abs() * 2000 <= res as i64 + 1001);
                },
                _ => panic!("the area is a circle"),
            }
        }
    }
}

#[test]
fn a_radius_is_drawn_to_the_nearest_screen_unit() {
    // at street level near the equator a screen unit spans 1.166 millimetres
    assert_eq!(circle_radius_units(1_000_000, 1_166), 857_633);
    // two and a half pixels, where a screen unit spans a millimetre
    assert_eq!(circle_radius_units(640, 1_000), 640);
    assert_eq!(circle_radius_units(1_000_000, 0), 0);
    assert_eq!(circle_radius_units(0, 298), 0);
    assert_eq!(circle_radius_units(-5, 298), 0);
    // half a screen unit is rounded up, less is rounded down
    assert_eq!(circle_radius_units(1, 2_000), 1);
    assert_eq!(circle_radius_units(1, 2_001), 0);
    assert_eq!(circle_radius_units(i64::MAX, 1), 0x4000_0000);
}

#[test]
fn areas_are_drawn_in_order() {
    let p = projection();
    let mut layer = AreaLayer::default();
    layer.add_area(polygon(&[(100, 100), (300, 100), (200, 300)]));
    layer.add_area(polygon(&[(10, 10), (20, 20)]));
    layer.add_area(circle(400, 300, 1_024_000));
    layer.resolutions = vec![0, 0, 40_000];
    let stroke = Stroke::new(2 * PX, Color::red());
    let fill = Color::from_rgba_unmultiplied(255, 0, 0, 50);
    let outline = DrawCommand::Polygon {
        points: vec![pos2(100, 100), pos2(300, 100), pos2(200, 300)],
        stroke,
        fill,
    };
    let ring = DrawCommand::Circle {
        center: pos2(400, 300),
        radius: 100 * PX,
        points: 64,
        stroke: Stroke::new(PX, Color::blue()),
        fill: Color::transparent(),
    };
    // a polygon of two corners is not drawn
    assert_eq!(layer.draw(&p), vec![outline, ring]);
    layer.mode = AreaMode::Modify;
    let node = |x: i32, y: i32| DrawCommand::Node {
        center: pos2(x, y),
        radius: NODE,
        fill: Color::from_rgb(0, 128, 0),
    };
    let commands = layer.draw(&p);
    assert_eq!(commands.len(), 9);
    assert_eq!(commands[1], node(100, 100));
    assert_eq!(commands[3], node(200, 300));
    assert_eq!(commands[4], node(10, 10));
    assert_eq!(commands[5], node(20, 20));
    assert_eq!(commands[7], node(400, 300));
    assert_eq!(commands[8], node(500, 300));
}

#[test]
fn a_circle_names_its_corners() {
    let p = projection();
    let mut layer = AreaLayer::default();
    for points in [Some(12), Some(2), Some(-1), None] {
        layer.add_area(Area {
            shape: AreaShape::Circle { center: at(400, 300), radius: 5, points },
            stroke: Stroke::new(PX, Color::blue()),
            fill: Color::transparent(),
        });
    }
    let counts: Vec<u32> = layer
        .draw(&p)
        .iter()
        .map(|c| match c {
            DrawCommand::Circle { points, .. } => *points,
            _ => 0,
        })
        .collect();
    assert_eq!(counts, vec![12, 64, 64, 64]);
}

#[test]
fn a_disabled_area_layer_takes_no_input() {
    let p = projection();
    let mut layer = quadrilateral();
    layer.mode = AreaMode::Disabled;
    let before = points_of(&layer, 0);
    assert!(!layer.handle_input(&drag_start(100, 100), &p));
    assert!(!layer.handle_input(&drag_to(150, 150), &p));
    assert_eq!(points_of(&layer, 0), before);
    assert!(layer.dragged_object.is_none());
}

#[test]
fn area_validity() {
    assert!(polygon(&[(1, 1)]).is_valid());
    assert!(circle(1, 1, 1).is_valid());
    assert!(!circle(1, 1, 0).is_valid());
    let outside = Area {
        shape: AreaShape::Polygon(vec![GeoPos { x: -1, y: 0 }]),
        stroke: Stroke::new(PX, Color::red()),
        fill: Color::red(),
    };
    assert!(!outside.is_valid());
}

#[test]
fn the_pointer_shows_what_it_can_hold() {
    let p = projection();
    let mut layer = quadrilateral();
    let mut hover = PointerInput::idle();
    hover.hovered = true;
    hover.hover_pos = Some(pos2(101, 101));
    assert_eq!(layer.cursor_icon(&hover, &p), Some(CursorIcon::Grab));
    hover.hover_pos = Some(pos2(200, 200));
    assert_eq!(layer.cursor_icon(&hover, &p), None);
    layer.handle_input(&drag_start(100, 100), &p);
    assert_eq!(layer.cursor_icon(&hover, &p), Some(CursorIcon::Grabbing));
    layer.mode = AreaMode::Disabled;
    assert_eq!(layer.cursor_icon(&hover, &p), None);
}
