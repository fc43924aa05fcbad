use egui_map_view::input::CursorIcon;
use egui_map_view::input::PointerInput;
use egui_map_view::layers::text::EditingText;
use egui_map_view::layers::text::Text;
use egui_map_view::layers::text::TextLayer;
use egui_map_view::layers::text::TextLayerMode;
use egui_map_view::layers::text::TextSize;
use egui_map_view::layers::DrawCommand;
use egui_map_view::layers::Layer;
use egui_map_view::projection::GeoPos;
use egui_map_view::projection::MapProjection;
use egui_map_view::projection::ScreenPos;
use egui_map_view::projection::ScreenRect;
use egui_map_view::projection::WORLD_SIZE;
use egui_map_view::style::Color;

fn projection() -> MapProjection {
    MapProjection::new(
        10,
        GeoPos { x: WORLD_SIZE / 2, y: WORLD_SIZE / 2 },
        ScreenRect { min: pos2(0, 0), max: pos2(800, 600) },
    )
}

/// The number of screen units to the pixel.
const PX: u32 = 256;

/// The screen position of a pixel.
fn pos2(x: i32, y: i32) -> ScreenPos {
    ScreenPos { x: x * PX as i32, y: y * PX as i32 }
}

/// The position that is drawn at the screen position `(x, y)`.
fn at(x: i32, y: i32) -> GeoPos {
    projection().unproject(pos2(x, y))
}

fn label(s: &str, x: i32, y: i32) -> Text {
    Text { text: s.to_string(), pos: at(x, y), ..Text::default() }
}

fn two_texts() -> TextLayer {
    let mut layer = TextLayer::default();
    layer.texts.push(label("one", 100, 100));
    layer.texts.push(label("two", 120, 100));
    layer.extents = vec![(40 * PX, 20 * PX), (40 * PX, 20 * PX)];
    layer.mode = TextLayerMode::Modify;
    layer
}

fn click(x: i32, y: i32) -> PointerInput {
    let mut input = PointerInput::idle();
    input.hovered = true;
    input.clicked = true;
    input.interact_pointer_pos = Some(pos2(x, y));
    input
}

#[test]
fn a_new_text_layer_is_empty() {
    let layer = TextLayer::default();
    assert!(layer.texts.is_empty());
    assert_eq!(layer.mode, TextLayerMode::Disabled);
    assert_eq!(layer.new_text_properties, Text::default());
    assert!(layer.editing.is_none());
    assert!(layer.dragged_text_index.is_none());
    assert_eq!(TextLayerMode::default(), TextLayerMode::Disabled);
    assert_eq!(TextSize::default(), TextSize::Static(12 * PX));
    let text = Text::default();
    assert_eq!(text.text, "New Text");
    assert_eq!(text.pos, GeoPos { x: 0, y: 0 });
    assert_eq!(text.color, Color::black());
    assert_eq!(text.background, Color::from_rgba_unmultiplied(255, 255, 255, 180));
}

#[test]
fn an_edit_is_begun_committed_or_cancelled() {
    let mut layer = two_texts();
    layer.start_editing(5);
    assert!(layer.editing.is_none());
    layer.start_editing(1);
    assert_eq!(layer.editing, Some(EditingText { index: Some(1), properties: label("two", 120, 100) }));
    layer.editing.as_mut().unwrap().properties.text = "deux".to_string();
    layer.cancel_edit();
    assert!(layer.editing.is_none());
    assert_eq!(layer.texts[1].text, "two");
    layer.start_editing(1);
    layer.editing.as_mut().unwrap().properties.text = "deux".to_string();
    layer.commit_edit();
    assert!(layer.editing.is_none());
    assert_eq!(layer.texts, vec![label("one", 100, 100), label("deux", 120, 100)]);
    // a commit without an edit does nothing
    layer.commit_edit();
    assert_eq!(layer.texts.len(), 2);
    // a new text goes to the end
    layer.editing = Some(EditingText { index: None, properties: label("three", 5, 5) });
    layer.commit_edit();
    assert_eq!(layer.texts.len(), 3);
    assert_eq!(layer.texts[2], label("three", 5, 5));
    // an edit of a text that is gone is dropped
    layer.editing = Some(EditingText { index: Some(7), properties: label("seven", 5, 5) });
    layer.commit_edit();
    assert_eq!(layer.texts.len(), 3);
    assert!(layer.editing.is_none());
    // a committed text is held within the world
    let mut outside = label("out", 5, 5);
    outside.pos = GeoPos { x: -1, y: WORLD_SIZE + 1 };
    layer.editing = Some(EditingText { index: Some(0), properties: outside });
    layer.commit_edit();
    assert_eq!(layer.texts[0].pos, GeoPos { x: 0, y: WORLD_SIZE });
    assert!(layer.is_valid());
}

#[test]
fn texts_are_deleted_by_index() {
    let mut layer = two_texts();
    layer.delete(2);
    assert_eq!(layer.texts.len(), 2);
    layer.delete(0);
    assert_eq!(layer.texts, vec![label("two", 120, 100)]);
    layer.delete(0);
    assert!(layer.texts.is_empty());
    layer.delete(0);
    assert!(layer.texts.is_empty());
}

#[test]
fn the_topmost_text_under_the_pointer_is_found() {
    let p = projection();
    let layer = two_texts();
    // the texts are 40 by 20 pixels around (100, 100) and (120, 100), with
    // five pixels of tolerance
    assert_eq!(layer.find_text_at(pos2(110, 100), &p), Some(1));
    assert_eq!(layer.find_text_at(pos2(90, 100), &p), Some(0));
    assert_eq!(layer.find_text_at(pos2(75, 85), &p), Some(0));
    assert_eq!(layer.find_text_at(pos2(74, 85), &p), None);
    assert_eq!(layer.find_text_at(ScreenPos { x: 75 * PX as i32 - 1, y: 85 * PX as i32 }, &p), None);
    assert_eq!(layer.find_text_at(pos2(75, 84), &p), None);
    assert_eq!(layer.find_text_at(pos2(145, 115), &p), Some(1));
    assert_eq!(layer.find_text_at(pos2(146, 115), &p), None);
    assert_eq!(layer.find_text_at(pos2(300, 300), &p), None);
    // a text that was not measured is a point with its tolerance
    let mut layer = two_texts();
    layer.extents = vec![];
    assert_eq!(layer.find_text_at(pos2(105, 100), &p), Some(0));
    assert_eq!(layer.find_text_at(pos2(115, 100), &p), Some(1));
    assert_eq!(layer.find_text_at(pos2(110, 106), &p), None);
}

#[test]
fn a_click_opens_an_edit() {
    let p = projection();
    let mut layer = two_texts();
    assert!(layer.handle_input(&click(110, 100), &p));
    assert_eq!(layer.editing, Some(EditingText { index: Some(1), properties: label("two", 120, 100) }));
    // while the edit is open the map does not react
    let texts = layer.texts.clone();
    let mut drag = click(90, 100);
    drag.drag_started = true;
    drag.dragged = true;
    assert!(layer.handle_input(&drag, &p));
    assert_eq!(layer.texts, texts);
    assert!(layer.dragged_text_index.is_none());
    layer.cancel_edit();
    // a click on nothing begins a new text there
    layer.new_text_properties.text = "fresh".to_string();
    layer.handle_input(&click(400, 300), &p);
    assert_eq!(layer.editing, Some(EditingText { index: None, properties: label("fresh", 400, 300) }));
    layer.commit_edit();
    assert_eq!(layer.texts.len(), 3);
    assert_eq!(layer.texts[2], label("fresh", 400, 300));
}

#[test]
fn a_drag_moves_a_text() {
    let p = projection();
    let mut layer = two_texts();
    let mut input = PointerInput::idle();
    input.hovered = true;
    input.drag_started = true;
    input.dragged = true;
    input.interact_pointer_pos = Some(pos2(90, 100));
    assert!(layer.handle_input(&input, &p));
    assert_eq!(layer.dragged_text_index, Some(0));
    assert_eq!(layer.texts[0].pos, at(90, 100));
    input.drag_started = false;
    input.interact_pointer_pos = Some(pos2(300, 200));
    layer.handle_input(&input, &p);
    assert_eq!(layer.texts[0], label("one", 300, 200));
    assert_eq!(layer.texts[1], label("two", 120, 100));
    // a drag that ends with a click opens no edit
    input.clicked = true;
    input.drag_stopped = true;
    layer.handle_input(&input, &p);
    assert!(layer.editing.is_none());
    assert!(layer.dragged_text_index.is_none());
    // a drag that begins on nothing moves nothing
    input = PointerInput::idle();
    input.drag_started = true;
    input.dragged = true;
    input.interact_pointer_pos = Some(pos2(600, 500));
    assert!(!layer.handle_input(&input, &p));
    assert_eq!(layer.texts[0], label("one", 300, 200));
}

#[test]
fn a_disabled_text_layer_takes_no_input() {
    let p = projection();
    let mut layer = two_texts();
    layer.mode = TextLayerMode::Disabled;
    assert!(!layer.handle_input(&click(110, 100), &p));
    assert!(layer.editing.is_none());
}

#[test]
fn texts_are_drawn_at_their_size() {
    let p = projection();
    let mut layer = two_texts();
    layer.texts[1].size = TextSize::Relative(30_000);
    layer.texts[1].color = Color::red();
    // where a screen unit spans eight millimetres, thirty metres are 3750
    // screen units, a little under fifteen pixels
    layer.resolutions = vec![0, 8000];
    assert_eq!(layer.get_font_size(0), 12 * PX);
    assert_eq!(layer.get_font_size(1), 3750);
    let commands = layer.draw(&p);
    assert_eq!(
        commands,
        vec![
            DrawCommand::Label {
                center: pos2(100, 100),
                text: "one".to_string(),
                size: 12 * PX,
                color: Color::black(),
                background: Color { r: 180, g: 180, b: 180, a: 180 },
            },
            DrawCommand::Label {
                center: pos2(120, 100),
                text: "two".to_string(),
                size: 3750,
                color: Color::red(),
                background: Color { r: 180, g: 180, b: 180, a: 180 },
            },
        ]
    );
    // a size on the ground that was not measured is not drawn
    layer.resolutions = vec![];
    assert_eq!(layer.get_font_size(1), 0);
}

#[test]
fn the_pointer_shows_what_a_click_would_do() {
    let p = projection();
    let mut layer = two_texts();
    let mut hover = PointerInput::idle();
    hover.hovered = true;
    hover.hover_pos = Some(pos2(110, 100));
    assert_eq!(layer.cursor_icon(&hover, &p), Some(CursorIcon::PointingHand));
    hover.hover_pos = Some(pos2(400, 300));
    assert_eq!(layer.cursor_icon(&hover, &p), Some(CursorIcon::Crosshair));
    assert_eq!(layer.cursor_icon(&PointerInput::idle(), &p), None);
    layer.dragged_text_index = Some(0);
    assert_eq!(layer.cursor_icon(&hover, &p), Some(CursorIcon::Grabbing));
    layer.start_editing(0);
    assert_eq!(layer.cursor_icon(&hover, &p), None);
    layer.cancel_edit();
    layer.mode = TextLayerMode::Disabled;
    assert_eq!(layer.cursor_icon(&hover, &p), None);
}
