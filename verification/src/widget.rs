//! The map widget: the viewport, the tiles it shows and where they come from.

use vstd::prelude::*;
use crate::MAX_ZOOM;
use crate::TileId;
use crate::cache::ensured;
use crate::cache::fresh_ids;
use crate::cache::request_ids;
use crate::cache::request_visible;
use crate::cache::resolved;
use crate::cache::tile_draw;
use crate::cache::tile_ids;
use crate::cache::FetchOutcome;
use crate::cache::Tile;
use crate::cache::TileCache;
use crate::cache::TileDraw;
use crate::config::MapConfig;
use crate::input::PointerInput;
use crate::layers::stack::layer_names;
use crate::layers::stack::offered;
use crate::layers::stack::LayerStack;
use crate::projection::GeoPos;
use crate::projection::MapProjection;
use crate::projection::ScreenPos;
use crate::projection::ScreenRect;
use crate::style::Color;
use crate::tiles::visible_tiles;
use crate::viewport::Viewport;

verus! {

/// The attribution that is shown in a corner of the map.
#[derive(Debug, PartialEq, Eq)]
pub struct Attribution {
    /// The text.
    pub text: String,
    /// The address that the text links to, if any.
    pub url: Option<String>,
    /// The color of the text.
    pub text_color: Color,
    /// The color of the box behind the text.
    pub background: Color,
}

/// What the host paints for the map itself, below the layers.
#[derive(Debug)]
pub struct MapDrawing {
    /// The color behind the tiles.
    pub background: Color,
    /// The visible tiles, in the order in which they are painted.
    pub tiles: Vec<TileDraw>,
    /// The attribution, if the map's source asks for one.
    pub attribution: Option<Attribution>,
}

/// The colors of the attribution's text and of the box behind it: light on
/// dark where the host draws in dark mode, and dark on light otherwise.
pub open spec fn attribution_colors(dark_mode: bool) -> (Color, Color) {
    if dark_mode {
        (Color { r: 230, g: 230, b: 230, a: 255 }, Color { r: 0, g: 0, b: 0, a: 150 })
    } else {
        (Color { r: 80, g: 80, b: 80, a: 255 }, Color { r: 150, g: 150, b: 150, a: 150 })
    }
}

/// The map widget.
pub struct MapWidget<C: MapConfig> {
    /// The geographical center of the map.
    pub center: GeoPos,
    /// The zoom level of the map.
    pub zoom: u8,
    /// The tiles that were asked for so far.
    pub tiles: TileCache,
    /// The geographical position under the mouse pointer, if any.
    pub mouse_pos: Option<GeoPos>,
    /// Configuration for the map, such as the tile server URL.
    pub config: C,
}

impl<C: MapConfig> MapWidget<C> {
    /// Whether the zoom level is within the limits, the center within the
    /// world, and the cache well formed.
    pub open spec fn wf(&self) -> bool {
        &&& self.zoom <= MAX_ZOOM
        &&& self.center.in_world()
        &&& self.tiles.wf()
    }

    /// The center and zoom level of the map.
    pub open spec fn viewport(&self) -> Viewport {
        Viewport { center: self.center, zoom: self.zoom }
    }

    /// The projector for the map in the widget rectangle `rect`.
    pub open spec fn projection_spec(&self, rect: ScreenRect) -> MapProjection {
        MapProjection { zoom: self.zoom, center: self.center, widget_rect: rect }
    }

    /// Creates a new map widget, which shows the default view of `config`: its
    /// center, held within the world, at its zoom level, held within the limits.
    pub fn new(config: C) -> (map: Self)
        ensures
            map.wf(),
            map.center == config.center_spec().clamped(),
            map.zoom == if config.zoom_spec() > MAX_ZOOM {
                MAX_ZOOM
            } else {
                config.zoom_spec()
            },
            map.tiles@ == Map::<TileId, Tile>::empty(),
            map.mouse_pos is None,
            map.config == config,
    {
        let center = config.default_center().clamp_to_world();
        let default_zoom: u8 = config.default_zoom();
        let zoom: u8 = if default_zoom > MAX_ZOOM {
            MAX_ZOOM
        } else {
            default_zoom
        };
        MapWidget { tiles: TileCache::new(), mouse_pos: None, config, center, zoom }
    }

    /// Tests whether the zoom level is within the limits and the center within
    /// the world. The cache is well formed in every map that `new` made.
    pub fn is_valid(&self) -> (r: bool)
        requires
            self.tiles.wf(),
        ensures
            r == self.wf(),
    {
        self.zoom <= MAX_ZOOM && self.center.is_in_world()
    }

    /// The projector for the map in the widget rectangle `rect`.
    pub fn projection(&self, rect: &ScreenRect) -> (p: MapProjection)
        ensures
            p == self.projection_spec(*rect),
    {
        MapProjection::new(self.zoom, self.center, *rect)
    }

    /// Handles user input for panning and zooming.
    pub fn handle_input(&mut self, input: &PointerInput, rect: &ScreenRect)
        requires
            old(self).wf(),
            input.wf(),
            rect.wf(),
        ensures
            final(self).wf(),
            final(self).viewport() == old(self).viewport().after_input(*input, *rect),
            final(self).mouse_pos == old(self).viewport().pointer_position(*input, *rect),
            final(self).tiles == old(self).tiles,
            final(self).config == old(self).config,
    {
        let mut viewport = Viewport { center: self.center, zoom: self.zoom };
        self.mouse_pos = viewport.handle_input(input, rect);
        self.center = viewport.center;
        self.zoom = viewport.zoom;
    }

    /// Handles one frame of input: the layers are offered it first, from the
    /// topmost down, and only if none of them takes it does the map pan or zoom.
    /// Returns whether a layer took it.
    pub fn handle_frame(&mut self, layers: &mut LayerStack, input: &PointerInput, rect: &ScreenRect) -> (handled:
        bool)
        requires
            old(self).wf(),
            old(layers).wf(),
            input.wf(),
            rect.wf(),
        ensures
            final(self).wf(),
            final(layers).wf(),
            layer_names(final(layers).layers@) == layer_names(old(layers).layers@),
            offered(
                old(layers).layers@,
                final(layers).layers@,
                *input,
                old(self).projection_spec(*rect),
                handled,
                old(layers).layers@.len() as int,
            ),
            handled ==> final(self).viewport() == old(self).viewport(),
            handled ==> final(self).mouse_pos == old(self).mouse_pos,
            !handled ==> final(self).viewport() == old(self).viewport().after_input(*input, *rect),
            !handled ==> final(self).mouse_pos == old(self).viewport().pointer_position(*input, *rect),
            final(self).tiles == old(self).tiles,
            final(self).config == old(self).config,
    {
        let projection = self.projection(rect);
        let handled = layers.handle_input(input, &projection);
        if !handled {
            self.handle_input(input, rect);
        }
        handled
    }

    /// Returns the visible tiles, each with the screen position of its top-left
    /// corner.
    pub fn visible_tiles(&self, rect: &ScreenRect) -> (tiles: Vec<(TileId, ScreenPos)>)
        requires
            self.wf(),
            rect.wf(),
        ensures
            tiles@ == self.projection_spec(*rect).visible_tiles_spec(),
            forall|i: int| 0 <= i < tiles@.len() ==> (#[trigger] tiles@[i]).1.wf(),
    {
        visible_tiles(&self.projection(rect))
    }

    /// Enters every visible tile that the cache does not know as loading, and
    /// returns each of them with its address, for the host to fetch.
    pub fn request_tiles(&mut self, rect: &ScreenRect) -> (requests: Vec<(TileId, String)>)
        requires
            old(self).wf(),
            rect.wf(),
            forall|t: TileId| old(self).config.url_ready(&t),
        ensures
            final(self).wf(),
            final(self).tiles@ == ensured(
                old(self).tiles@,
                tile_ids(old(self).projection_spec(*rect).visible_tiles_spec()),
            ),
            request_ids(requests@) == fresh_ids(
                old(self).tiles@.dom(),
                tile_ids(old(self).projection_spec(*rect).visible_tiles_spec()),
            ),
            forall|k: int|
                0 <= k < requests@.len() ==> final(self).config.is_url(
                    &(#[trigger] requests@[k]).0,
                    requests@[k].1,
                ),
            final(self).center == old(self).center,
            final(self).zoom == old(self).zoom,
            final(self).mouse_pos == old(self).mouse_pos,
            final(self).config == old(self).config,
    {
        let visible = self.visible_tiles(rect);
        let mut requests: Vec<(TileId, String)> = Vec::new();
        request_visible(&mut self.tiles, &self.config, &visible, &mut requests);
        assert(requests@.skip(0) =~= requests@);
        requests
    }

    /// Records how the fetch of `id` ended. Returns whether the tile was
    /// loading; the outcome of any other tile is dropped.
    pub fn resolve_tile(&mut self, id: TileId, outcome: FetchOutcome) -> (applied: bool)
        requires
            old(self).wf(),
        ensures
            final(self).wf(),
            final(self).tiles@ == resolved(old(self).tiles@, id, outcome),
            applied == (old(self).tiles@.contains_key(id) && old(self).tiles@[id] is Loading),
            final(self).center == old(self).center,
            final(self).zoom == old(self).zoom,
            final(self).mouse_pos == old(self).mouse_pos,
            final(self).config == old(self).config,
    {
        self.tiles.resolve(id, outcome)
    }

    /// The attribution to show, if the map's source asks for one.
    pub fn draw_attribution(&self, dark_mode: bool) -> (r: Option<Attribution>)
        ensures
            match r {
                Some(a) => self.config.attribution_spec() == Some(a.text) && a.url
                    == self.config.attribution_url_spec() && (a.text_color, a.background)
                    == attribution_colors(dark_mode),
                None => self.config.attribution_spec() is None,
            },
    {
        match self.config.attribution() {
            Some(attribution) => {
                let (text_color, background) = if dark_mode {
                    (Color::from_rgb(230, 230, 230), Color::from_rgba_premultiplied(0, 0, 0, 150))
                } else {
                    (Color::from_rgb(80, 80, 80), Color::from_rgba_premultiplied(150, 150, 150, 150))
                };
                let url: Option<String> = match self.config.attribution_url() {
                    Some(u) => Some(u.clone()),
                    None => None,
                };
                Some(Attribution { text: attribution.clone(), url, text_color, background })
            },
            None => None,
        }
    }

    /// Draws the map tiles and attribution: what to paint for the background,
    /// for each visible tile and for the attribution.
    pub fn draw_map_and_attribution(&self, rect: &ScreenRect, dark_mode: bool) -> (drawing: MapDrawing)
        requires
            self.wf(),
            rect.wf(),
        ensures
            drawing.background == (Color { r: 220, g: 220, b: 220, a: 255 }),
            drawing.tiles@.len() == self.projection_spec(*rect).visible_tiles_spec().len(),
            forall|i: int|
                0 <= i < drawing.tiles@.len() ==> #[trigger] drawing.tiles@[i] == tile_draw(
                    if self.tiles@.contains_key(self.projection_spec(*rect).visible_tiles_spec()[i].0) {
                        Some(self.tiles@[self.projection_spec(*rect).visible_tiles_spec()[i].0])
                    } else {
                        None
                    },
                    self.projection_spec(*rect).visible_tiles_spec()[i].1,
                ),
            match drawing.attribution {
                Some(a) => self.config.attribution_spec() == Some(a.text) && a.url
                    == self.config.attribution_url_spec() && (a.text_color, a.background)
                    == attribution_colors(dark_mode),
                None => self.config.attribution_spec() is None,
            },
    {
        let visible = self.visible_tiles(rect);
        let tiles = self.tiles.draw_visible(&visible);
        MapDrawing {
            background: Color::from_rgb(220, 220, 220),
            tiles,
            attribution: self.draw_attribution(dark_mode),
        }
    }
}

} // verus!
