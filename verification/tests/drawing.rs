use egui_map_view::input::CursorIcon;
use egui_map_view::input::PointerInput;
use egui_map_view::layers::drawing::split_polyline_by_erase_circle;
use egui_map_view::layers::drawing::DrawMode;
use egui_map_view::layers::drawing::DrawingLayer;
use egui_map_view::layers::drawing::Polyline;
use egui_map_view::layers::DrawCommand;
use egui_map_view::layers::Layer;
use egui_map_view::projection::GeoPos;
use egui_map_view::projection::MapProjection;
use egui_map_view::projection::ScreenPos;
use egui_map_view::projection::ScreenRect;
use egui_map_view::projection::WORLD_SIZE;
use egui_map_view::style::Color;
use egui_map_view::style::Stroke;

fn projection() -> MapProjection {
    MapProjection::new(
        10,
        GeoPos { x: WORLD_SIZE / 2, y: WORLD_SIZE / 2 },
        ScreenRect { min: pos2(0, 0), max: pos2(800, 600) },
    )
}

/// The number of screen units to the pixel.
const PX: u32 = 256;

/// The screen position of a pixel.
fn pos2(x: i32, y: i32) -> ScreenPos {
    ScreenPos { x: x * PX as i32, y: y * PX as i32 }
}

/// The square of a radius given in pixels, in screen units.
fn radius_sq(pixels: u64) -> u64 {
    (pixels * PX as u64) * (pixels * PX as u64)
}

/// The position that is drawn at the screen position `(x, y)`.
fn at(x: i32, y: i32) -> GeoPos {
    projection().unproject(pos2(x, y))
}

fn line(points: &[(i32, i32)]) -> Vec<GeoPos> {
    points.iter().map(|p| at(p.0, p.1)).collect()
}

#[test]
fn layers_drawing_layer_new() {
    let layer = DrawingLayer::new(Stroke::new(2 * PX, Color::red()));
    assert!(layer.draw_mode == DrawMode::Disabled);
    assert!(layer.polylines.is_empty());
}

#[test]
fn drawing_drawing_layer_new() {
    let layer = DrawingLayer::default();
    assert_eq!(layer.draw_mode, DrawMode::Disabled);
    assert!(layer.polylines.is_empty());
    assert_eq!(layer.stroke, Stroke::new(2 * PX, Color::red()));
    assert_eq!(DrawMode::default(), DrawMode::Disabled);
    assert!(layer.is_valid());
}

#[test]
fn erasing_the_middle_of_a_line_leaves_two_lines() {
    let p = projection();
    // five points on a straight line, the eraser on the middle one
    let points = line(&[(100, 100), (200, 100), (300, 100), (400, 100), (500, 100)]);
    let pieces = split_polyline_by_erase_circle(&points, pos2(300, 100), radius_sq(10), &p);
    assert_eq!(pieces.len(), 2);
    assert!(pieces.iter().all(|piece| piece.len() >= 2));
    // the first piece ends where the line enters the eraser, the second begins
    // where it leaves
    assert_eq!(pieces[0], line(&[(100, 100), (200, 100), (290, 100)]));
    assert_eq!(pieces[1], line(&[(310, 100), (400, 100), (500, 100)]));
}

#[test]
fn erasing_a_three_point_line_at_its_middle_point_leaves_both_ends() {
    let p = projection();
    let points = line(&[(100, 100), (200, 100), (300, 100)]);
    let pieces = split_polyline_by_erase_circle(&points, pos2(200, 100), radius_sq(5), &p);
    assert_eq!(pieces.len(), 2);
    assert!(pieces.iter().all(|piece| piece.len() >= 2));
    assert_eq!(pieces[0][0], points[0]);
    assert_eq!(*pieces[1].last().unwrap(), points[2]);
    assert!(pieces.iter().all(|piece| !piece.contains(&points[1])));
    assert_eq!(pieces[0], line(&[(100, 100), (195, 100)]));
    assert_eq!(pieces[1], line(&[(205, 100), (300, 100)]));
}

#[test]
fn erasing_a_bent_line_at_its_corner_cuts_both_arms() {
    let p = projection();
    // the eraser sits on the corner: each arm loses what lies within its reach
    let points = line(&[(100, 100), (200, 100), (200, 300)]);
    let pieces = split_polyline_by_erase_circle(&points, pos2(200, 100), radius_sq(20), &p);
    assert_eq!(pieces, vec![line(&[(100, 100), (180, 100)]), line(&[(200, 120), (200, 300)])]);
}

#[test]
fn erasing_one_end_of_a_line_shortens_it() {
    let p = projection();
    let points = line(&[(100, 100), (200, 100), (300, 100)]);
    // the eraser covers the first point: the line begins where it leaves the eraser
    let pieces = split_polyline_by_erase_circle(&points, pos2(100, 100), radius_sq(5), &p);
    assert_eq!(pieces, vec![line(&[(105, 100), (200, 100), (300, 100)])]);
    // the eraser covers the last point: the line ends where it enters the eraser
    let pieces = split_polyline_by_erase_circle(&points, pos2(302, 100), radius_sq(5), &p);
    assert_eq!(pieces, vec![line(&[(100, 100), (200, 100), (297, 100)])]);
}

#[test]
fn erasing_within_a_segment_cuts_it_twice() {
    let p = projection();
    let points = line(&[(100, 100), (200, 100), (300, 100)]);
    // three pixels beside the first segment, a radius of five: the chord is
    // eight pixels long
    let pieces = split_polyline_by_erase_circle(&points, pos2(150, 103), radius_sq(5), &p);
    assert_eq!(
        pieces,
        vec![line(&[(100, 100), (146, 100)]), line(&[(154, 100), (200, 100), (300, 100)])]
    );
    let pieces = split_polyline_by_erase_circle(&points, pos2(250, 97), radius_sq(5), &p);
    assert_eq!(
        pieces,
        vec![line(&[(100, 100), (200, 100), (246, 100)]), line(&[(254, 100), (300, 100)])]
    );
}

#[test]
fn erasing_cuts_between_pixels() {
    let p = projection();
    let points = line(&[(100, 100), (200, 100)]);
    // a radius of a pixel and a half, on the line: the cuts lie half a pixel
    // beside whole pixels
    let reach: u64 = 3 * PX as u64 / 2;
    let pieces = split_polyline_by_erase_circle(&points, pos2(150, 100), reach * reach, &p);
    let cut = |x: i32| p.unproject(ScreenPos { x, y: 100 * PX as i32 });
    assert_eq!(
        pieces,
        vec![
            vec![points[0], cut(150 * PX as i32 - 384)],
            vec![cut(150 * PX as i32 + 384), points[1]],
        ]
    );
}

#[test]
fn erasing_the_whole_line_leaves_nothing() {
    let p = projection();
    let points = line(&[(100, 100), (110, 100), (120, 105)]);
    let pieces = split_polyline_by_erase_circle(&points, pos2(110, 100), radius_sq(30), &p);
    assert!(pieces.is_empty());
}

#[test]
fn erasing_away_from_a_line_changes_nothing() {
    let p = projection();
    let points = line(&[(100, 100), (200, 100), (300, 150)]);
    let pieces = split_polyline_by_erase_circle(&points, pos2(200, 300), radius_sq(5), &p);
    assert_eq!(pieces, vec![points.clone()]);
    // the eraser's edge does not erase: the distance must be less than the radius
    let pieces = split_polyline_by_erase_circle(&points, pos2(150, 105), radius_sq(5), &p);
    assert_eq!(pieces, vec![points.clone()]);
    let pieces = split_polyline_by_erase_circle(&points, pos2(150, 104), radius_sq(5), &p);
    assert_eq!(
        pieces,
        vec![line(&[(100, 100), (147, 100)]), line(&[(153, 100), (200, 100), (300, 150)])]
    );
    // erasing twice over empty space is erasing once
    let again = split_polyline_by_erase_circle(&pieces[1], pos2(150, 104), radius_sq(5), &p);
    assert_eq!(again, vec![pieces[1].clone()]);
}

#[test]
fn lines_of_fewer_than_two_points_are_dropped_by_the_eraser() {
    let p = projection();
    assert!(split_polyline_by_erase_circle(&vec![], pos2(0, 0), radius_sq(5), &p).is_empty());
    assert!(split_polyline_by_erase_circle(&line(&[(5, 5)]), pos2(500, 500), radius_sq(5), &p).is_empty());
}

#[test]
fn dragging_draws_a_line() {
    let p = projection();
    let mut layer = DrawingLayer::default();
    layer.draw_mode = DrawMode::Draw;
    let mut input = PointerInput::idle();
    input.hovered = true;
    input.drag_started = true;
    input.dragged = true;
    input.interact_pointer_pos = Some(pos2(10, 10));
    assert!(layer.handle_input(&input, &p));
    input.drag_started = false;
    input.interact_pointer_pos = Some(pos2(20, 15));
    assert!(layer.handle_input(&input, &p));
    assert_eq!(layer.polylines, vec![Polyline(line(&[(10, 10), (20, 15)]))]);
    // a click begins a line one pixel long
    let mut click = PointerInput::idle();
    click.clicked = true;
    click.interact_pointer_pos = Some(pos2(50, 60));
    assert!(!layer.handle_input(&click, &p));
    assert_eq!(layer.polylines.len(), 2);
    assert_eq!(layer.polylines[1], Polyline(line(&[(50, 60), (51, 60)])));
    // a click with shift extends the last line
    click.shift = true;
    click.interact_pointer_pos = Some(pos2(70, 80));
    layer.handle_input(&click, &p);
    assert_eq!(layer.polylines.len(), 2);
    assert_eq!(layer.polylines[1], Polyline(line(&[(50, 60), (51, 60), (70, 80)])));
}

#[test]
fn a_disabled_layer_takes_no_input() {
    let p = projection();
    let mut layer = DrawingLayer::default();
    let mut input = PointerInput::idle();
    input.hovered = true;
    input.clicked = true;
    input.interact_pointer_pos = Some(pos2(10, 10));
    assert!(!layer.handle_input(&input, &p));
    assert!(layer.polylines.is_empty());
}

#[test]
fn the_eraser_is_as_wide_as_the_stroke() {
    let p = projection();
    let mut layer = DrawingLayer::new(Stroke::new(5 * PX, Color::blue()));
    layer.polylines.push(Polyline(line(&[(100, 100), (200, 100), (300, 100), (400, 100)])));
    layer.polylines.push(Polyline(line(&[(100, 300), (200, 300)])));
    layer.draw_mode = DrawMode::Erase;
    let mut input = PointerInput::idle();
    input.clicked = true;
    // five pixels above the middle segment: just out of reach
    input.interact_pointer_pos = Some(pos2(250, 95));
    layer.handle_input(&input, &p);
    assert_eq!(layer.polylines.len(), 2);
    assert_eq!(layer.polylines[0].0.len(), 4);
    // four pixels above it: six pixels of the middle segment go
    input.interact_pointer_pos = Some(pos2(250, 96));
    layer.handle_input(&input, &p);
    assert_eq!(
        layer.polylines,
        vec![
            Polyline(line(&[(100, 100), (200, 100), (247, 100)])),
            Polyline(line(&[(253, 100), (300, 100), (400, 100)])),
            Polyline(line(&[(100, 300), (200, 300)])),
        ]
    );
    assert_eq!(layer.stroke, Stroke::new(5 * PX, Color::blue()));
}

#[test]
fn lines_are_drawn_where_they_are_projected() {
    let p = projection();
    let mut layer = DrawingLayer::new(Stroke::new(3 * PX, Color::blue()));
    layer.polylines.push(Polyline(line(&[(10, 10), (20, 30), (40, 50)])));
    layer.polylines.push(Polyline(line(&[(1, 1)])));
    layer.polylines.push(Polyline(vec![]));
    let commands = layer.draw(&p);
    assert_eq!(
        commands,
        vec![DrawCommand::Line {
            points: vec![pos2(10, 10), pos2(20, 30), pos2(40, 50)],
            stroke: Stroke::new(3 * PX, Color::blue())
        }]
    );
}

#[test]
fn drawing_outside_the_world_stays_on_its_edge() {
    // at zoom 0 the world is 256 pixels wide, and the widget is wider
    let p = MapProjection::new(
        0,
        GeoPos { x: WORLD_SIZE / 2, y: WORLD_SIZE / 2 },
        ScreenRect { min: pos2(0, 0), max: pos2(800, 600) },
    );
    let mut layer = DrawingLayer::default();
    layer.draw_mode = DrawMode::Draw;
    let mut input = PointerInput::idle();
    input.drag_started = true;
    input.dragged = true;
    input.interact_pointer_pos = Some(pos2(0, 0));
    layer.handle_input(&input, &p);
    assert_eq!(layer.polylines, vec![Polyline(vec![GeoPos { x: 0, y: 0 }])]);
    assert!(layer.is_valid());
}

#[test]
fn the_pointer_shows_the_mode() {
    let mut layer = DrawingLayer::default();
    let mut hover = PointerInput::idle();
    hover.hovered = true;
    assert_eq!(layer.cursor_icon(&hover), None);
    layer.draw_mode = DrawMode::Draw;
    assert_eq!(layer.cursor_icon(&hover), Some(CursorIcon::Crosshair));
    layer.draw_mode = DrawMode::Erase;
    assert_eq!(layer.cursor_icon(&hover), Some(CursorIcon::NotAllowed));
    assert_eq!(layer.cursor_icon(&PointerInput::idle()), None);
}
