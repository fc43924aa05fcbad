use egui_map_view::layers::text::deserialize;
use egui_map_view::layers::text::serialize;
use egui_map_view::style::Color;
use egui_map_view::style::Stroke;

#[test]
fn colors_are_written_as_egui_writes_them() {
    assert_eq!(Color::red().to_hex(), "#ff0000ff");
    assert_eq!(Color::blue().to_hex(), "#0000ffff");
    assert_eq!(Color::transparent().to_hex(), "#00000000");
    assert_eq!(Color::from_rgb(1, 35, 171).to_hex(), "#0123abff");
    assert_eq!(Color::white().to_hex(), egui::Color32::WHITE.to_hex());
    // a half-transparent red: the components are divided by the opacity
    let c = Color::from_rgba_premultiplied(128, 0, 0, 128);
    assert_eq!(c.to_hex(), "#ff000080");
    assert_eq!(c.to_hex(), egui::Color32::from_rgba_premultiplied(128, 0, 0, 128).to_hex());
    assert_eq!(serialize(&Color::black()), "#000000ff");
}

#[test]
fn colors_are_read_as_egui_reads_them() {
    assert_eq!(Color::from_hex("#ff0000ff"), Some(Color::red()));
    assert_eq!(Color::from_hex("#00ff00"), Some(Color::from_rgb(0, 255, 0)));
    assert_eq!(Color::from_hex("#00f"), Some(Color::blue()));
    assert_eq!(Color::from_hex("#0000"), Some(Color::transparent()));
    assert_eq!(Color::from_hex("#ff000080"), Some(Color::from_rgba_premultiplied(128, 0, 0, 128)));
    assert_eq!(Color::from_hex("ff0000ff"), None);
    assert_eq!(Color::from_hex("#12345"), None);
    assert_eq!(Color::from_hex("#gg0000"), None);
    assert_eq!(Color::from_hex(""), None);
}

#[test]
fn written_colors_read_back() {
    for c in [
        Color::red(),
        Color::black(),
        Color::white(),
        Color::transparent(),
        Color::from_rgb(12, 34, 56),
        Color::from_rgba_unmultiplied(255, 0, 0, 50),
        Color::from_rgba_unmultiplied(10, 100, 200, 100),
    ] {
        assert_eq!(Color::from_hex(&c.to_hex()), Some(c));
    }
}

#[test]
fn unmultiplied_colors_are_multiplied_by_their_opacity() {
    assert_eq!(Color::from_rgba_unmultiplied(255, 255, 255, 180), Color { r: 180, g: 180, b: 180, a: 180 });
    assert_eq!(Color::from_rgba_unmultiplied(255, 0, 0, 128), Color { r: 128, g: 0, b: 0, a: 128 });
    assert_eq!(Color::from_rgba_unmultiplied(10, 20, 30, 255), Color { r: 10, g: 20, b: 30, a: 255 });
    assert_eq!(Color::from_rgba_unmultiplied(10, 20, 30, 0), Color { r: 0, g: 0, b: 0, a: 0 });
    // (100 * 50 + 128 + (100 * 50 + 128) / 256) / 256 = 20
    assert_eq!(Color::from_rgba_unmultiplied(100, 200, 7, 50), Color { r: 20, g: 39, b: 1, a: 50 });
    for (r, g, b, a) in [(1u8, 2u8, 3u8, 4u8), (200, 100, 50, 25), (255, 255, 255, 1), (7, 77, 177, 254)] {
        let [er, eg, eb, ea] = egui::Color32::from_rgba_unmultiplied(r, g, b, a).to_array();
        assert_eq!(Color::from_rgba_unmultiplied(r, g, b, a), Color { r: er, g: eg, b: eb, a: ea });
    }
}

#[test]
fn hex_color_text_is_read_by_hand() {
    assert_eq!(deserialize("#0000ffff"), Ok(Color { r: 0, g: 0, b: 255, a: 255 }));
    assert_eq!(deserialize("#ff000080"), Ok(Color { r: 128, g: 0, b: 0, a: 128 }));
    assert_eq!(deserialize("#FF8000"), Ok(Color { r: 255, g: 128, b: 0, a: 255 }));
    assert_eq!(deserialize("#0a0B0c"), Ok(Color { r: 10, g: 11, b: 12, a: 255 }));
    // a plus sign and one digit is a number too
    assert_eq!(deserialize("#+f+0+a"), Ok(Color { r: 15, g: 0, b: 10, a: 255 }));
    assert_eq!(deserialize("0000ff"), Err("hex color must start with '#'".to_string()));
    assert_eq!(deserialize(""), Err("hex color must start with '#'".to_string()));
    assert_eq!(deserialize("#00f"), Err("invalid hex color length".to_string()));
    assert_eq!(deserialize("#0000ff0"), Err("invalid hex color length".to_string()));
    assert_eq!(deserialize("#"), Err("invalid hex color length".to_string()));
    assert_eq!(deserialize("#00gg00"), Err("invalid digit found in string".to_string()));
    assert_eq!(deserialize("#0000f+"), Err("invalid digit found in string".to_string()));
    assert_eq!(deserialize("#-10000"), Err("invalid digit found in string".to_string()));
    assert_eq!(deserialize("#ää"), Err("invalid digit found in string".to_string()));
    assert_eq!(deserialize("ä"), Err("hex color must start with '#'".to_string()));
}

#[test]
fn what_is_written_by_egui_is_read_by_hand() {
    for c in [Color::red(), Color::from_rgb(1, 2, 3), Color::from_rgba_unmultiplied(255, 0, 0, 128)] {
        assert_eq!(deserialize(&serialize(&c)), Ok(c));
    }
}

#[test]
fn strokes_hold_width_and_color() {
    let s = Stroke::new(5, Color::blue());
    assert_eq!(s.width, 5);
    assert_eq!(s.color, Color { r: 0, g: 0, b: 255, a: 255 });
}

#[test]
fn every_component_is_multiplied_as_egui_multiplies_it() {
    for a in 0..=255u8 {
        for v in 0..=255u8 {
            let [er, eg, eb, ea] = egui::Color32::from_rgba_unmultiplied(v, 255 - v, 255, a).to_array();
            assert_eq!(
                Color::from_rgba_unmultiplied(v, 255 - v, 255, a),
                Color { r: er, g: eg, b: eb, a: ea },
                "component {} opacity {}",
                v,
                a
            );
        }
    }
}
