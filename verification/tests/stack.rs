use egui_map_view::config::OpenStreetMapConfig;
use egui_map_view::input::CursorIcon;
use egui_map_view::input::PointerInput;
use egui_map_view::layers::area::Area;
use egui_map_view::layers::area::AreaLayer;
use egui_map_view::layers::area::AreaMode;
use egui_map_view::layers::area::AreaShape;
use egui_map_view::layers::drawing::DrawMode;
use egui_map_view::layers::drawing::DrawingLayer;
use egui_map_view::layers::stack::AnyLayer;
use egui_map_view::layers::stack::LayerStack;
use egui_map_view::layers::text::TextLayer;
use egui_map_view::layers::DrawCommand;
use egui_map_view::layers::Layer;
use egui_map_view::projection::GeoPos;
use egui_map_view::projection::MapProjection;
use egui_map_view::projection::ScreenPos;
use egui_map_view::projection::ScreenRect;
use egui_map_view::projection::WORLD_SIZE;
use egui_map_view::style::Color;
use egui_map_view::style::Stroke;
use egui_map_view::MapWidget;

fn rect() -> ScreenRect {
    ScreenRect { min: pos2(0, 0), max: pos2(800, 600) }
}

fn projection() -> MapProjection {
    MapProjection::new(10, GeoPos { x: WORLD_SIZE / 2, y: WORLD_SIZE / 2 }, rect())
}

/// The screen position of a pixel: a pixel holds 256 screen units.
fn pos2(x: i32, y: i32) -> ScreenPos {
    ScreenPos { x: x * 256, y: y * 256 }
}

fn at(x: i32, y: i32) -> GeoPos {
    projection().unproject(pos2(x, y))
}

fn drawing(mode: DrawMode) -> AnyLayer {
    let mut layer = DrawingLayer::default();
    layer.draw_mode = mode;
    AnyLayer::Drawing(layer)
}

fn areas(mode: AreaMode) -> AnyLayer {
    let mut layer = AreaLayer::default();
    layer.add_area(Area {
        shape: AreaShape::Polygon(vec![at(100, 100), at(300, 100), at(200, 300)]),
        stroke: Stroke::new(256, Color::red()),
        fill: Color::transparent(),
    });
    layer.mode = mode;
    AnyLayer::Area(layer)
}

fn drag(x: i32, y: i32) -> PointerInput {
    let mut input = PointerInput::idle();
    input.hovered = true;
    input.drag_started = true;
    input.dragged = true;
    input.drag_delta = pos2(10, 0);
    input.interact_pointer_pos = Some(pos2(x, y));
    input
}

fn lines(layer: &AnyLayer) -> usize {
    match layer {
        AnyLayer::Drawing(l) => l.polylines.len(),
        _ => panic!("not a drawing layer"),
    }
}

#[test]
fn the_topmost_layer_that_takes_the_input_ends_the_offer() {
    let p = projection();
    let mut stack = LayerStack::new();
    stack.add_layer("below".to_string(), drawing(DrawMode::Draw));
    stack.add_layer("middle".to_string(), drawing(DrawMode::Draw));
    stack.add_layer("top".to_string(), drawing(DrawMode::Disabled));
    assert!(stack.handle_input(&drag(10, 10), &p));
    // the disabled layer on top passes the input on, the middle one takes it
    assert_eq!(lines(&stack.layers[2].1), 0);
    assert_eq!(lines(&stack.layers[1].1), 1);
    assert_eq!(lines(&stack.layers[0].1), 0);
    // away from the map nobody takes the input, but every drawing layer sees it
    let mut away = drag(10, 10);
    away.hovered = false;
    assert!(!stack.handle_input(&away, &p));
    assert_eq!(lines(&stack.layers[1].1), 2);
    assert_eq!(lines(&stack.layers[0].1), 1);
    assert_eq!(stack.position("middle"), Some(1));
    assert_eq!(stack.position("nowhere"), None);
}

#[test]
fn the_map_pans_only_where_no_layer_takes_the_input() {
    let mut map = MapWidget::new(OpenStreetMapConfig::default());
    map.zoom = 10;
    map.center = GeoPos { x: WORLD_SIZE / 2, y: WORLD_SIZE / 2 };
    let mut stack = LayerStack::new();
    stack.add_layer("areas".to_string(), areas(AreaMode::Modify));
    // a drag on a corner moves the corner, not the map
    assert!(map.handle_frame(&mut stack, &drag(100, 100), &rect()));
    assert_eq!(map.center, GeoPos { x: WORLD_SIZE / 2, y: WORLD_SIZE / 2 });
    // with the layer disabled the same drag pans the map
    let mut stack = LayerStack::new();
    stack.add_layer("areas".to_string(), areas(AreaMode::Disabled));
    assert!(!map.handle_frame(&mut stack, &drag(100, 100), &rect()));
    assert_eq!(map.center, GeoPos { x: WORLD_SIZE / 2 - 10 * 4194304, y: WORLD_SIZE / 2 });
}

#[test]
fn the_layers_are_drawn_from_the_lowest_up() {
    let p = projection();
    let mut stack = LayerStack::new();
    stack.add_layer("areas".to_string(), areas(AreaMode::Disabled));
    stack.add_layer("texts".to_string(), AnyLayer::Text(TextLayer::default()));
    let mut lines = DrawingLayer::default();
    lines.polylines.push(egui_map_view::layers::drawing::Polyline(vec![at(1, 1), at(2, 2)]));
    stack.add_layer("lines".to_string(), AnyLayer::Drawing(lines));
    let commands = stack.draw(&p);
    assert_eq!(commands.len(), 2);
    assert!(matches!(commands[0], DrawCommand::Polygon { .. }));
    assert!(matches!(commands[1], DrawCommand::Line { .. }));
    let mut expected = stack.layers[0].1.draw(&p);
    expected.extend(stack.layers[2].1.draw(&p));
    assert_eq!(commands, expected);
}

#[test]
fn the_topmost_layer_with_a_cursor_gives_it() {
    let p = projection();
    let mut stack = LayerStack::new();
    assert!(stack.is_valid());
    assert_eq!(stack.cursor_icon(&PointerInput::idle(), &p), None);
    stack.add_layer("areas".to_string(), areas(AreaMode::Modify));
    stack.add_layer("lines".to_string(), drawing(DrawMode::Disabled));
    let mut hover = PointerInput::idle();
    hover.hovered = true;
    hover.hover_pos = Some(pos2(100, 100));
    assert_eq!(stack.cursor_icon(&hover, &p), Some(CursorIcon::Grab));
    stack.add_layer("eraser".to_string(), drawing(DrawMode::Erase));
    assert_eq!(stack.cursor_icon(&hover, &p), Some(CursorIcon::NotAllowed));
    assert!(stack.is_valid());
    assert!(stack.layers[0].1.is_valid());
}
