//! A layer for placing text on the map.

use vstd::prelude::*;
use vstd::string::StrSliceExecFns;
use vstd::string::StringExecFns;
use crate::input::CursorIcon;
use crate::input::PointerInput;
use crate::layers::command_views;
use crate::layers::geo_under;
use crate::layers::position_under;
use crate::layers::DrawCommand;
use crate::layers::DrawCommandView;
use crate::layers::Layer;
use crate::layers::area::circle_radius_units;
use crate::layers::area::radius_in_units;
use crate::layers::area::resolution_at;
use crate::projection::GeoPos;
use crate::projection::MapProjection;
use crate::projection::ScreenPos;
use crate::style::unmultiplied;
use crate::style::Color;

verus! {

/// The value of a hexadecimal digit, in either case.
pub open spec fn hex_value(c: char) -> Option<int> {
    let v = c as int;
    if 48 <= v <= 57 {
        Some(v - 48)
    } else if 97 <= v <= 102 {
        Some(v - 87)
    } else if 65 <= v <= 70 {
        Some(v - 55)
    } else {
        None
    }
}

/// The byte that two characters denote in base sixteen: two digits, or a plus
/// sign and one digit.
pub open spec fn hex_byte(hi: char, lo: char) -> Option<u8> {
    match hex_value(lo) {
        Some(l) => if hi == '+' {
            Some(l as u8)
        } else {
            match hex_value(hi) {
                Some(h) => Some((16 * h + l) as u8),
                None => None,
            }
        },
        None => None,
    }
}

/// The color that a text denotes, or why it denotes none. The text is a hash
/// sign and then three or four bytes in base sixteen: red, green, blue and, if
/// there is a fourth, the opacity, which is otherwise full.
pub open spec fn color_of_text(s: Seq<char>) -> Result<Color, Seq<char>> {
    if s.len() == 0 || s[0] != '#' {
        Err("hex color must start with '#'"@)
    } else if !vstd::utf8::is_ascii_chars(s) {
        Err("invalid digit found in string"@)
    } else if s.len() == 7 {
        match (hex_byte(s[1], s[2]), hex_byte(s[3], s[4]), hex_byte(s[5], s[6])) {
            (Some(r), Some(g), Some(b)) => Ok(unmultiplied(r, g, b, 255)),
            _ => Err("invalid digit found in string"@),
        }
    } else if s.len() == 9 {
        match (hex_byte(s[1], s[2]), hex_byte(s[3], s[4]), hex_byte(s[5], s[6]), hex_byte(s[7], s[8])) {
            (Some(r), Some(g), Some(b), Some(a)) => Ok(unmultiplied(r, g, b, a)),
            _ => Err("invalid digit found in string"@),
        }
    } else {
        Err("invalid hex color length"@)
    }
}

/// The value of a hexadecimal digit.
fn hex_digit_value(b: u8) -> (r: Option<u8>)
    ensures
        match r {
            Some(v) => hex_value(b as char) == Some(v as int) && v < 16,
            None => hex_value(b as char) is None,
        },
{
    if 48 <= b && b <= 57 {
        Some(b - 48)
    } else if 97 <= b && b <= 102 {
        Some(b - 87)
    } else if 65 <= b && b <= 70 {
        Some(b - 55)
    } else {
        None
    }
}

/// The byte that the characters `i` and `i + 1` of `s` denote.
fn parse_hex_byte(s: &str, i: usize) -> (r: Option<u8>)
    requires
        s.is_ascii(),
        i < 8,
        i + 1 < s@.len(),
    ensures
        r == hex_byte(s@[i as int], s@[i + 1]),
{
    let hi: u8 = s.get_ascii(i);
    let lo: u8 = s.get_ascii(i + 1);
    proof {
        vstd::utf8::is_ascii_chars_nat_bound(s@);
        assert(s@[i as int] as u8 as char == s@[i as int]);
        assert(s@[i + 1] as u8 as char == s@[i + 1]);
        assert(('+' as u8) == 43u8);
    }
    match hex_digit_value(lo) {
        Some(l) => {
            if hi == 43 {
                Some(l)
            } else {
                match hex_digit_value(hi) {
                    Some(h) => Some(16 * h + l),
                    None => None,
                }
            }
        },
        None => None,
    }
}

/// Writes a color as text: a hash sign and eight hexadecimal digits, as `egui`
/// writes it.
pub fn serialize(color: &Color) -> (s: String)
    ensures
        s@ == color.spec_hex(),
{
    color.to_hex()
}

/// Reads a color from text.
pub fn deserialize(s: &str) -> (r: Result<Color, String>)
    ensures
        match r {
            Ok(c) => color_of_text(s@) == Ok::<Color, Seq<char>>(c),
            Err(e) => color_of_text(s@) == Err::<Color, Seq<char>>(e@),
        },
{
    if !s.is_ascii() {
        // a hash sign is one byte, so the first character decides alone
        let starts: bool = s.unicode_len() > 0 && s.get_char(0) == '#';
        if !starts {
            return Err(String::from_str("hex color must start with '#'"));
        }
        return Err(String::from_str("invalid digit found in string"));
    }
    let n: usize = s.unicode_len();
    if n == 0 || s.get_ascii(0) != 35 {
        proof {
            vstd::utf8::is_ascii_chars_nat_bound(s@);
            if n > 0 {
                assert(s@[0] as u8 as char == s@[0]);
                assert(('#' as u8) == 35u8);
            }
        }
        return Err(String::from_str("hex color must start with '#'"));
    }
    proof {
        vstd::utf8::is_ascii_chars_nat_bound(s@);
        assert(s@[0] as u8 as char == s@[0]);
        assert(('#' as u8) == 35u8);
    }
    if n == 7 {
        let r = parse_hex_byte(s, 1);
        let g = parse_hex_byte(s, 3);
        let b = parse_hex_byte(s, 5);
        match (r, g, b) {
            (Some(r), Some(g), Some(b)) => Ok(Color::from_rgba_unmultiplied(r, g, b, 255)),
            _ => Err(String::from_str("invalid digit found in string")),
        }
    } else if n == 9 {
        let r = parse_hex_byte(s, 1);
        let g = parse_hex_byte(s, 3);
        let b = parse_hex_byte(s, 5);
        let a = parse_hex_byte(s, 7);
        match (r, g, b, a) {
            (Some(r), Some(g), Some(b), Some(a)) => Ok(Color::from_rgba_unmultiplied(r, g, b, a)),
            _ => Err(String::from_str("invalid digit found in string")),
        }
    } else {
        Err(String::from_str("invalid hex color length"))
    }
}

/// How far around a text the pointer still takes hold of it: five pixels, in
/// screen units.
pub const TEXT_MARGIN: i64 = 1280;

/// The size of the text.
#[derive(Clone, Copy, Debug, PartialEq, Eq, Structural)]
pub enum TextSize {
    /// Size is in screen units, of which a pixel holds 256, and does not scale
    /// with zoom.
    Static(u32),
    /// Size is in millimetres on the ground, and scales with zoom.
    Relative(u32),
}

impl Default for TextSize {
    fn default() -> (size: TextSize)
        ensures
            size == TextSize::Static(3072),
    {
        // A reasonable default.
        TextSize::Static(3072)
    }
}

/// A piece of text on the map.
#[derive(Debug, PartialEq, Eq)]
pub struct Text {
    /// The text to display.
    pub text: String,
    /// The geographical position of the text.
    pub pos: GeoPos,
    /// The size of the text.
    pub size: TextSize,
    /// The color of the text.
    pub color: Color,
    /// The color of the background.
    pub background: Color,
}

/// What a `Text` holds, with a sequence for its string.
pub struct TextView {
    /// The text to display.
    pub text: Seq<char>,
    /// The geographical position of the text.
    pub pos: GeoPos,
    /// The size of the text.
    pub size: TextSize,
    /// The color of the text.
    pub color: Color,
    /// The color of the background.
    pub background: Color,
}

impl View for Text {
    type V = TextView;

    open spec fn view(&self) -> TextView {
        TextView {
            text: self.text@,
            pos: self.pos,
            size: self.size,
            color: self.color,
            background: self.background,
        }
    }
}

impl Clone for Text {
    fn clone(&self) -> (r: Self)
        ensures
            r@ == self@,
    {
        Text {
            text: self.text.clone(),
            pos: self.pos,
            size: self.size,
            color: self.color,
            background: self.background,
        }
    }
}

/// The text that a new text begins with.
pub open spec fn default_text() -> TextView {
    TextView {
        text: "New Text"@,
        pos: GeoPos { x: 0, y: 0 },
        size: TextSize::Static(3072),
        color: Color { r: 0, g: 0, b: 0, a: 255 },
        background: unmultiplied(255, 255, 255, 180),
    }
}

impl Default for Text {
    fn default() -> (text: Text)
        ensures
            text@ == default_text(),
    {
        Text {
            text: String::from_str("New Text"),
            pos: GeoPos { x: 0, y: 0 },  // This will be updated on click.
            size: TextSize::Static(3072),
            color: Color::black(),
            background: Color::from_rgba_unmultiplied(255, 255, 255, 180),
        }
    }
}

/// The state of the text currently being edited or added.
#[derive(Debug, PartialEq, Eq)]
pub struct EditingText {
    /// The index of the text being edited, if it's an existing one.
    pub index: Option<usize>,
    /// The properties of the text being edited.
    pub properties: Text,
}

/// What an `EditingText` holds, with a sequence for its string.
pub struct EditingView {
    /// The index of the text being edited, if it's an existing one.
    pub index: Option<usize>,
    /// The properties of the text being edited.
    pub properties: TextView,
}

impl View for EditingText {
    type V = EditingView;

    open spec fn view(&self) -> EditingView {
        EditingView { index: self.index, properties: self.properties@ }
    }
}

/// The mode of the `TextLayer`.
#[derive(Clone, Copy, Debug, PartialEq, Eq, Structural)]
pub enum TextLayerMode {
    /// The layer is not interactive.
    Disabled,
    /// The user can add, remove, and modify text elements.
    Modify,
}

impl Default for TextLayerMode {
    fn default() -> (m: TextLayerMode)
        ensures
            m == TextLayerMode::Disabled,
    {
        TextLayerMode::Disabled
    }
}

/// The width and height that the host measured for text `i`, or nothing where
/// it measured none.
pub open spec fn extent_at(extents: Seq<(u32, u32)>, i: int) -> (u32, u32) {
    if 0 <= i < extents.len() {
        extents[i]
    } else {
        (0, 0)
    }
}

/// The size in screen units at which a text is drawn: a static size as it is,
/// and a size on the ground as many screen units as it spans at `resolution`
/// micrometres to the screen unit.
pub open spec fn font_size(size: TextSize, resolution: u32) -> u32 {
    match size {
        TextSize::Static(s) => s,
        TextSize::Relative(m) => radius_in_units(m as i64, resolution) as u32,
    }
}

/// Whether `pos` is on the text that is drawn centered on `center` with the
/// width and height `extent`, or within five pixels of it.
pub open spec fn text_hit(center: ScreenPos, extent: (u32, u32), pos: ScreenPos) -> bool {
    let left = center.x - extent.0 / 2 - TEXT_MARGIN;
    let top = center.y - extent.1 / 2 - TEXT_MARGIN;
    left <= pos.x <= left + extent.0 + 2 * TEXT_MARGIN && top <= pos.y <= top + extent.1 + 2 * TEXT_MARGIN
}

/// The text that `pos` is on among the first `n` texts: the texts are tried
/// from the last, which is drawn on top, to the first.
pub open spec fn text_among(
    texts: Seq<TextView>,
    extents: Seq<(u32, u32)>,
    projection: MapProjection,
    pos: ScreenPos,
    n: int,
) -> Option<usize>
    decreases n,
{
    if n <= 0 {
        None
    } else if text_hit(projection.project_spec(texts[n - 1].pos), extent_at(extents, n - 1), pos) {
        Some((n - 1) as usize)
    } else {
        text_among(texts, extents, projection, pos, n - 1)
    }
}

/// The views of the texts of `texts`.
pub open spec fn text_views(texts: Seq<Text>) -> Seq<TextView> {
    texts.map_values(|t: Text| t@)
}

/// The text with another position.
pub open spec fn text_at(text: TextView, pos: GeoPos) -> TextView {
    TextView { text: text.text, pos, size: text.size, color: text.color, background: text.background }
}

/// The texts after an edit was committed: the edited text takes the place of
/// the text it was made from, if that is still there, and a new text goes to
/// the end.
pub open spec fn committed(texts: Seq<TextView>, editing: Option<EditingView>) -> Seq<TextView> {
    match editing {
        Some(e) => match e.index {
            Some(i) => if i < texts.len() {
                texts.update(i as int, e.properties)
            } else {
                texts
            },
            None => texts.push(e.properties),
        },
        None => texts,
    }
}

/// The commands that draw the first `n` texts.
pub open spec fn drawn_texts(
    texts: Seq<TextView>,
    resolutions: Seq<u32>,
    projection: MapProjection,
    n: int,
) -> Seq<DrawCommandView>
    decreases n,
{
    if n <= 0 {
        Seq::empty()
    } else {
        drawn_texts(texts, resolutions, projection, n - 1).push(
            DrawCommandView::Label {
                center: projection.project_spec(texts[n - 1].pos),
                text: texts[n - 1].text,
                size: font_size(texts[n - 1].size, resolution_at(resolutions, n - 1)),
                color: texts[n - 1].color,
                background: texts[n - 1].background,
            },
        )
    }
}

/// Layer implementation that allows placing text on the map.
pub struct TextLayer {
    /// The texts, in the order in which they are drawn.
    pub texts: Vec<Text>,
    /// The current mode.
    pub mode: TextLayerMode,
    /// The properties for the next text to be added.
    pub new_text_properties: Text,
    /// The state of the text currently being edited or added.
    pub editing: Option<EditingText>,
    /// The text that the pointer drags.
    pub dragged_text_index: Option<usize>,
    /// For each text, the width and height in screen units at which the host lays it
    /// out. The host measures this for each frame; no entry means "not
    /// measured".
    pub extents: Vec<(u32, u32)>,
    /// For each text, how many micrometres on the ground a screen unit spans
    /// where the text lies; zero, or no entry, means "not measured".
    pub resolutions: Vec<u32>,
}

impl Default for TextLayer {
    fn default() -> (layer: TextLayer)
        ensures
            layer.views() == Seq::<TextView>::empty(),
            layer.mode == TextLayerMode::Disabled,
            layer.new_text_properties@ == default_text(),
            layer.editing is None,
            layer.dragged_text_index is None,
            layer.wf(),
    {
        let layer = TextLayer {
            texts: Vec::new(),
            mode: TextLayerMode::Disabled,
            new_text_properties: Text::default(),
            editing: None,
            dragged_text_index: None,
            extents: Vec::new(),
            resolutions: Vec::new(),
        };
        assert(layer.views() =~= Seq::<TextView>::empty());
        layer
    }
}

impl TextLayer {
    /// The texts of the layer, with sequences for their strings.
    pub open spec fn views(&self) -> Seq<TextView> {
        text_views(self.texts@)
    }

    /// The edit that is open, if one is.
    pub open spec fn editing_view(&self) -> Option<EditingView> {
        match self.editing {
            Some(e) => Some(e@),
            None => None,
        }
    }

    /// Whether every text lies within the world.
    pub open spec fn wf(&self) -> bool {
        forall|i: int| 0 <= i < self.texts@.len() ==> (#[trigger] self.texts@[i]).pos.in_world()
    }

    /// Whether nothing but the texts, the edit and what is dragged differs
    /// between `self` and `other`.
    pub open spec fn same_settings(&self, other: &TextLayer) -> bool {
        &&& self.mode == other.mode
        &&& self.new_text_properties@ == other.new_text_properties@
        &&& self.extents@ == other.extents@
        &&& self.resolutions@ == other.resolutions@
    }

    /// Whether `after` is what a frame of input in modify mode leaves of this
    /// layer.
    ///
    /// While an edit is open, nothing changes. Otherwise a drag that begins on a
    /// text takes hold of it, a drag moves the text that is held to the position
    /// under the pointer, and the end of a drag lets go of it; a click without a
    /// drag opens an edit, of the text clicked or of a new text at the position
    /// clicked.
    pub open spec fn modified(self, after: TextLayer, input: PointerInput, projection: MapProjection) -> bool {
        &&& after.same_settings(&self)
        &&& (self.editing is Some ==> after.texts == self.texts && after.editing == self.editing
            && after.dragged_text_index == self.dragged_text_index)
        &&& (self.editing is None ==> {
            let held = match input.interact_pointer_pos {
                Some(p) if input.drag_started => text_among(
                    self.views(),
                    self.extents@,
                    projection,
                    p,
                    self.texts@.len() as int,
                ),
                _ => self.dragged_text_index,
            };
            let texts = match (held, input.interact_pointer_pos) {
                (Some(i), Some(p)) if input.dragged && i < self.texts@.len() => self.views().update(
                    i as int,
                    text_at(self.views()[i as int], geo_under(projection, p)),
                ),
                _ => self.views(),
            };
            &&& after.views() == texts
            &&& after.dragged_text_index == if input.drag_stopped {
                None
            } else {
                held
            }
            &&& after.editing_view() == match input.interact_pointer_pos {
                Some(p) if !input.dragged && input.clicked => match text_among(
                    texts,
                    self.extents@,
                    projection,
                    p,
                    texts.len() as int,
                ) {
                    Some(i) => Some(EditingView { index: Some(i), properties: texts[i as int] }),
                    None => Some(
                        EditingView {
                            index: None,
                            properties: text_at(self.new_text_properties@, geo_under(projection, p)),
                        },
                    ),
                },
                _ => None,
            }
        })
    }

    /// Tests whether every text lies within the world.
    pub fn is_valid(&self) -> (r: bool)
        ensures
            r == self.wf(),
    {
        let mut i: usize = 0;
        while i < self.texts.len()
            invariant
                i <= self.texts@.len(),
                forall|k: int| 0 <= k < i ==> (#[trigger] self.texts@[k]).pos.in_world(),
            decreases self.texts@.len() - i,
        {
            if !self.texts[i].pos.is_in_world() {
                return false;
            }
            i = i + 1;
        }
        true
    }

    /// Starts editing an existing text element. An index without a text opens
    /// no edit.
    pub fn start_editing(&mut self, index: usize)
        ensures
            final(self).views() == old(self).views(),
            final(self).texts == old(self).texts,
            final(self).same_settings(old(self)),
            final(self).dragged_text_index == old(self).dragged_text_index,
            final(self).editing_view() == if index < old(self).texts@.len() {
                Some(EditingView { index: Some(index), properties: old(self).views()[index as int] })
            } else {
                old(self).editing_view()
            },
    {
        if index < self.texts.len() {
            self.editing = Some(EditingText { index: Some(index), properties: self.texts[index].clone() });
        }
    }

    /// Deletes a text element. An index without a text deletes nothing.
    pub fn delete(&mut self, index: usize)
        requires
            old(self).wf(),
        ensures
            final(self).wf(),
            final(self).views() == if index < old(self).texts@.len() {
                old(self).views().remove(index as int)
            } else {
                old(self).views()
            },
            final(self).same_settings(old(self)),
            final(self).editing_view() == old(self).editing_view(),
            final(self).dragged_text_index == old(self).dragged_text_index,
    {
        if index < self.texts.len() {
            let ghost before = self.texts@;
            let _ = self.texts.remove(index);
            proof {
                assert(self.views() =~= text_views(before).remove(index as int));
                assert forall|i: int| 0 <= i < self.texts@.len() implies (#[trigger] self.texts@[i]).pos.in_world() by {
                    if i < index {
                        assert(self.texts@[i] == before[i]);
                    } else {
                        assert(self.texts@[i] == before[i + 1]);
                    }
                }
            }
        }
    }

    /// Puts `text` in the place of text `i`.
    fn replace_text(&mut self, i: usize, text: Text)
        requires
            old(self).wf(),
            i < old(self).texts@.len(),
            text.pos.in_world(),
        ensures
            final(self).wf(),
            final(self).views() == old(self).views().update(i as int, text@),
            final(self).same_settings(old(self)),
            final(self).editing == old(self).editing,
            final(self).dragged_text_index == old(self).dragged_text_index,
    {
        let ghost before = self.texts@;
        let _ = self.texts.remove(i);
        self.texts.insert(i, text);
        proof {
            assert(self.texts@ =~= before.update(i as int, text));
            assert(self.views() =~= text_views(before).update(i as int, text@));
            assert forall|k: int| 0 <= k < self.texts@.len() implies (#[trigger] self.texts@[k]).pos.in_world() by {
                if k != i {
                    assert(self.texts@[k] == before[k]);
                }
            }
        }
    }

    /// Saves the changes made in the editing dialog, and closes the edit. The
    /// text is held within the world.
    pub fn commit_edit(&mut self)
        requires
            old(self).wf(),
        ensures
            final(self).wf(),
            final(self).views() == committed(
                old(self).views(),
                match old(self).editing_view() {
                    Some(e) => Some(
                        EditingView { index: e.index, properties: text_at(e.properties, e.properties.pos.clamped()) },
                    ),
                    None => None,
                },
            ),
            final(self).editing is None,
            final(self).same_settings(old(self)),
            final(self).dragged_text_index == old(self).dragged_text_index,
    {
        let mut taken: Option<EditingText> = None;
        std::mem::swap(&mut self.editing, &mut taken);
        if let Some(editing) = taken {
            let EditingText { index, properties } = editing;
            let Text { text, pos, size, color, background } = properties;
            let held = Text { text, pos: pos.clamp_to_world(), size, color, background };
            match index {
                Some(index) => {
                    // It's an existing text.
                    if index < self.texts.len() {
                        self.replace_text(index, held);
                    }
                },
                None => {
                    // It's a new text.
                    let ghost before = self.texts@;
                    self.texts.push(held);
                    proof {
                        assert(self.views() =~= text_views(before).push(held@));
                        assert forall|k: int| 0 <= k < self.texts@.len() implies (
                        #[trigger] self.texts@[k]).pos.in_world() by {
                            if k < before.len() {
                                assert(self.texts@[k] == before[k]);
                            }
                        }
                    }
                },
            }
        }
    }

    /// Discards the changes made in the editing dialog.
    pub fn cancel_edit(&mut self)
        ensures
            final(self).editing is None,
            final(self).texts == old(self).texts,
            final(self).same_settings(old(self)),
            final(self).dragged_text_index == old(self).dragged_text_index,
    {
        self.editing = None;
    }

    /// The width and height that the host measured for text `i`.
    fn extent(&self, i: usize) -> (r: (u32, u32))
        ensures
            r == extent_at(self.extents@, i as int),
    {
        if i < self.extents.len() {
            self.extents[i]
        } else {
            (0, 0)
        }
    }

    /// The resolution that the host measured for text `i`.
    fn resolution(&self, i: usize) -> (r: u32)
        ensures
            r == resolution_at(self.resolutions@, i as int),
    {
        if i < self.resolutions.len() {
            self.resolutions[i]
        } else {
            0
        }
    }

    /// The size in screen units at which text `i` is drawn.
    pub fn get_font_size(&self, i: usize) -> (size: u32)
        requires
            i < self.texts@.len(),
        ensures
            size == font_size(self.views()[i as int].size, resolution_at(self.resolutions@, i as int)),
    {
        match self.texts[i].size {
            TextSize::Static(size) => size,
            TextSize::Relative(size_on_ground) => circle_radius_units(
                size_on_ground as i64,
                self.resolution(i),
            ),
        }
    }

    /// Tests whether `screen_pos` is on text `i` or within five pixels of it.
    fn is_text_hit(&self, i: usize, screen_pos: ScreenPos, projection: &MapProjection) -> (r: bool)
        requires
            self.wf(),
            projection.wf(),
            i < self.texts@.len(),
        ensures
            r == text_hit(
                projection.project_spec(self.views()[i as int].pos),
                extent_at(self.extents@, i as int),
                screen_pos,
            ),
    {
        assert(self.texts@[i as int].pos.in_world());
        let center = projection.project(self.texts[i].pos);
        let extent = self.extent(i);
        let left: i64 = center.x as i64 - (extent.0 / 2) as i64 - TEXT_MARGIN;
        let top: i64 = center.y as i64 - (extent.1 / 2) as i64 - TEXT_MARGIN;
        let x: i64 = screen_pos.x as i64;
        let y: i64 = screen_pos.y as i64;
        left <= x && x <= left + extent.0 as i64 + 2 * TEXT_MARGIN && top <= y && y <= top + extent.1 as i64
            + 2 * TEXT_MARGIN
    }

    /// The text that `screen_pos` is on, if any.
    pub fn find_text_at(&self, screen_pos: ScreenPos, projection: &MapProjection) -> (r: Option<usize>)
        requires
            self.wf(),
            projection.wf(),
        ensures
            r == text_among(self.views(), self.extents@, *projection, screen_pos, self.texts@.len() as int),
            r matches Some(i) ==> i < self.texts@.len(),
    {
        let mut idx: usize = self.texts.len();
        while idx > 0
            invariant
                self.wf(),
                projection.wf(),
                idx <= self.texts@.len(),
                text_among(self.views(), self.extents@, *projection, screen_pos, self.texts@.len() as int)
                    == text_among(self.views(), self.extents@, *projection, screen_pos, idx as int),
            decreases idx,
        {
            if self.is_text_hit(idx - 1, screen_pos, projection) {
                return Some(idx - 1);
            }
            idx = idx - 1;
        }
        None
    }

    /// Moves text `i` to `pos`.
    fn move_text(&mut self, i: usize, pos: GeoPos)
        requires
            old(self).wf(),
            i < old(self).texts@.len(),
            pos.in_world(),
        ensures
            final(self).wf(),
            final(self).views() == old(self).views().update(i as int, text_at(old(self).views()[i as int], pos)),
            final(self).same_settings(old(self)),
            final(self).editing == old(self).editing,
            final(self).dragged_text_index == old(self).dragged_text_index,
    {
        let mut text = self.texts[i].clone();
        text.pos = pos;
        self.replace_text(i, text);
    }

    /// Handles one frame of input in modify mode. Returns whether the pointer is
    /// over the map.
    ///
    /// While an edit is open, nothing on the map reacts. Otherwise a drag that
    /// begins on a text takes hold of it and moves it with the pointer, and a
    /// click opens an edit: of the text clicked, or of a new text at the
    /// position clicked.
    pub fn handle_modify_input(&mut self, input: &PointerInput, projection: &MapProjection) -> (handled: bool)
        requires
            old(self).wf(),
            input.wf(),
            projection.wf(),
        ensures
            final(self).wf(),
            handled == input.hovered,
            old(self).modified(*final(self), *input, *projection),
    {
        if self.editing.is_some() {
            // While editing in a dialog, we don't want to interact with the map.
            // We consume all hover events to prevent panning and zooming.
            return input.hovered;
        }
        if input.drag_started {
            if let Some(pointer_pos) = input.interact_pointer_pos {
                self.dragged_text_index = self.find_text_at(pointer_pos, projection);
            }
        }
        if input.dragged {
            if let Some(text_index) = self.dragged_text_index {
                if text_index < self.texts.len() {
                    if let Some(pointer_pos) = input.interact_pointer_pos {
                        self.move_text(text_index, position_under(projection, pointer_pos));
                    }
                }
            }
        }
        if input.drag_stopped {
            self.dragged_text_index = None;
        }
        if !input.dragged && input.clicked {
            // Left-click to add or edit a text element
            if let Some(pointer_pos) = input.interact_pointer_pos {
                if let Some(index) = self.find_text_at(pointer_pos, projection) {
                    // Clicked on an existing text, start editing it.
                    self.start_editing(index);
                } else {
                    // Clicked on an empty spot, start adding a new text.
                    let geo_pos = position_under(projection, pointer_pos);
                    let mut properties = self.new_text_properties.clone();
                    properties.pos = geo_pos;
                    self.editing = Some(EditingText { index: None, properties });
                }
            }
        }
        input.hovered
    }

    /// The shape that the pointer takes over the layer in modify mode, while
    /// no edit is open: a closed hand while it drags a text, a pointing hand
    /// over a text, and a crosshair elsewhere on the map.
    pub open spec fn cursor_spec(&self, input: PointerInput, projection: MapProjection) -> Option<CursorIcon> {
        if self.mode == TextLayerMode::Disabled || self.editing is Some {
            None
        } else if self.dragged_text_index is Some {
            Some(CursorIcon::Grabbing)
        } else {
            match input.hover_pos {
                Some(p) => if text_among(self.views(), self.extents@, projection, p, self.texts@.len() as int)
                    is Some {
                    Some(CursorIcon::PointingHand)
                } else {
                    Some(CursorIcon::Crosshair)
                },
                None => None,
            }
        }
    }

    /// The shape that the pointer takes over the layer.
    pub fn cursor_icon(&self, input: &PointerInput, projection: &MapProjection) -> (icon: Option<CursorIcon>)
        requires
            self.wf(),
            input.wf(),
            projection.wf(),
        ensures
            icon == self.cursor_spec(*input, *projection),
    {
        match self.mode {
            TextLayerMode::Disabled => None,
            TextLayerMode::Modify => {
                if self.editing.is_some() {
                    None
                } else if self.dragged_text_index.is_some() {
                    Some(CursorIcon::Grabbing)
                } else if let Some(hover_pos) = input.hover_pos {
                    if self.find_text_at(hover_pos, projection).is_some() {
                        Some(CursorIcon::PointingHand)
                    } else {
                        Some(CursorIcon::Crosshair)
                    }
                } else {
                    None
                }
            },
        }
    }

    /// Draws the layer: a label for each text.
    pub fn draw_texts(&self, projection: &MapProjection) -> (commands: Vec<DrawCommand>)
        requires
            self.wf(),
            projection.wf(),
        ensures
            command_views(commands@) == drawn_texts(
                self.views(),
                self.resolutions@,
                *projection,
                self.texts@.len() as int,
            ),
    {
        let mut commands: Vec<DrawCommand> = Vec::new();
        let mut i: usize = 0;
        assert(command_views(commands@) =~= Seq::<DrawCommandView>::empty());
        while i < self.texts.len()
            invariant
                self.wf(),
                projection.wf(),
                i <= self.texts@.len(),
                command_views(commands@) == drawn_texts(self.views(), self.resolutions@, *projection, i as int),
            decreases self.texts@.len() - i,
        {
            let text = &self.texts[i];
            assert(self.texts@[i as int].pos.in_world());
            let ghost prev = commands@;
            let command = DrawCommand::Label {
                center: projection.project(text.pos),
                text: text.text.clone(),
                size: self.get_font_size(i),
                color: text.color,
                background: text.background,
            };
            commands.push(command);
            assert(command_views(commands@) =~= command_views(prev).push(command@));
            i = i + 1;
        }
        commands
    }
}

impl Layer for TextLayer {
    open spec fn layer_wf(&self) -> bool {
        self.wf()
    }

    /// A disabled layer takes no input and stays as it is. In modify mode the
    /// layer takes the input while the pointer is over the map, and changes as
    /// `modified` says.
    open spec fn stepped(&self, after: &Self, input: PointerInput, projection: MapProjection, handled: bool) -> bool {
        &&& after.same_settings(self)
        &&& (self.mode == TextLayerMode::Disabled ==> !handled && after.texts == self.texts && after.editing
            == self.editing && after.dragged_text_index == self.dragged_text_index)
        &&& (self.mode == TextLayerMode::Modify ==> handled == input.hovered && self.modified(
            *after,
            input,
            projection,
        ))
    }

    open spec fn drawn(&self, projection: MapProjection) -> Seq<DrawCommandView> {
        drawn_texts(self.views(), self.resolutions@, projection, self.texts@.len() as int)
    }

    fn handle_input(&mut self, input: &PointerInput, projection: &MapProjection) -> (handled: bool) {
        match self.mode {
            TextLayerMode::Disabled => false,
            TextLayerMode::Modify => self.handle_modify_input(input, projection),
        }
    }

    fn draw(&self, projection: &MapProjection) -> (commands: Vec<DrawCommand>) {
        self.draw_texts(projection)
    }
}

} // verus!
