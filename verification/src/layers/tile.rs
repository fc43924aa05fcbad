//! A layer for tile maps on the map.

use vstd::prelude::*;
use crate::TileId;
use crate::cache::draw_tile;
use crate::cache::ensured;
use crate::cache::fresh_ids;
use crate::cache::request_ids;
use crate::cache::request_visible;
use crate::cache::tile_draw;
use crate::cache::tile_ids;
use crate::cache::FetchOutcome;
use crate::cache::Tile;
use crate::cache::TileCache;
use crate::config::MapConfig;
use crate::input::PointerInput;
use crate::layers::command_views;
use crate::layers::DrawCommand;
use crate::layers::DrawCommandView;
use crate::layers::Layer;
use crate::projection::MapProjection;
use crate::projection::ScreenPos;
use crate::style::Color;
use crate::tiles::visible_tiles;

verus! {

/// The state of a tile in the cache, if the cache knows it.
pub open spec fn state_of(tiles: Map<TileId, Tile>, id: TileId) -> Option<Tile> {
    if tiles.contains_key(id) {
        Some(tiles[id])
    } else {
        None
    }
}

/// A layer that manages and renders map tiles on the map view.
pub struct TileLayer<C: MapConfig> {
    /// The tiles that were asked for so far.
    pub tiles: TileCache,
    /// The tiles that the last frame showed, each with the screen position of
    /// its top-left corner.
    pub visible_tiles: Vec<(TileId, ScreenPos)>,
    /// Color tint applied to the tile images when rendering
    pub tint: Color,
    /// The tiles that are to be fetched, each with its address. The host takes
    /// them, fetches each, and tells the layer how the fetch ended.
    pub requests: Vec<(TileId, String)>,
    /// Where the tiles come from.
    pub config: C,
}

impl<C: MapConfig> TileLayer<C> {
    /// Whether the cache is well formed, every visible tile has a screen
    /// position within the limit, and the configuration names an address for
    /// every tile.
    pub open spec fn wf(&self) -> bool {
        &&& self.tiles.wf()
        &&& forall|i: int| 0 <= i < self.visible_tiles@.len() ==> (#[trigger] self.visible_tiles@[i]).1.wf()
        &&& forall|t: TileId| self.config.url_ready(&t)
    }

    /// Creates a new tile layer with the given map configuration.
    pub fn new(config: C) -> (layer: Self)
        requires
            forall|t: TileId| config.url_ready(&t),
        ensures
            layer.wf(),
            layer.tiles@ == Map::<TileId, Tile>::empty(),
            layer.visible_tiles@ == Seq::<(TileId, ScreenPos)>::empty(),
            layer.requests@.len() == 0,
            layer.tint == (Color { r: 255, g: 255, b: 255, a: 255 }),
            layer.config == config,
    {
        TileLayer {
            tiles: TileCache::new(),
            visible_tiles: Vec::new(),
            tint: Color::white(),
            requests: Vec::new(),
            config,
        }
    }

    /// Records how the fetch of `id` ended.
    pub fn resolve(&mut self, id: TileId, outcome: FetchOutcome) -> (applied: bool)
        requires
            old(self).wf(),
        ensures
            final(self).wf(),
            final(self).tiles@ == crate::cache::resolved(old(self).tiles@, id, outcome),
            applied == (old(self).tiles@.contains_key(id) && old(self).tiles@[id] is Loading),
            final(self).visible_tiles == old(self).visible_tiles,
            final(self).requests == old(self).requests,
            final(self).tint == old(self).tint,
            final(self).config == old(self).config,
    {
        self.tiles.resolve(id, outcome)
    }

    /// Looks at the map through `projection`: notes the tiles that it shows,
    /// and enters each that the cache does not know as loading, with a request
    /// for the host to fetch it.
    pub fn update(&mut self, projection: &MapProjection)
        requires
            old(self).wf(),
            projection.wf(),
        ensures
            final(self).wf(),
            final(self).visible_tiles@ == projection.visible_tiles_spec(),
            final(self).tiles@ == ensured(old(self).tiles@, tile_ids(projection.visible_tiles_spec())),
            final(self).requests@.len() >= old(self).requests@.len(),
            final(self).requests@.take(old(self).requests@.len() as int) == old(self).requests@,
            request_ids(final(self).requests@.skip(old(self).requests@.len() as int)) == fresh_ids(
                old(self).tiles@.dom(),
                tile_ids(projection.visible_tiles_spec()),
            ),
            forall|k: int|
                old(self).requests@.len() <= k < final(self).requests@.len() ==> final(self).config.is_url(
                    &(#[trigger] final(self).requests@[k]).0,
                    final(self).requests@[k].1,
                ),
            final(self).tint == old(self).tint,
            final(self).config == old(self).config,
    {
        let visible = visible_tiles(projection);
        request_visible(&mut self.tiles, &self.config, &visible, &mut self.requests);
        self.visible_tiles = visible;
    }

    /// Draws the layer: each tile that the last frame showed, tinted.
    pub fn draw_tiles(&self) -> (commands: Vec<DrawCommand>)
        requires
            self.wf(),
        ensures
            commands@.len() == self.visible_tiles@.len(),
            forall|i: int|
                0 <= i < commands@.len() ==> (#[trigger] commands@[i])@ == (DrawCommandView::Tile {
                    draw: tile_draw(
                        state_of(self.tiles@, self.visible_tiles@[i].0),
                        self.visible_tiles@[i].1,
                    ),
                    tint: self.tint,
                }),
    {
        let mut commands: Vec<DrawCommand> = Vec::new();
        let mut i: usize = 0;
        while i < self.visible_tiles.len()
            invariant
                self.wf(),
                i <= self.visible_tiles@.len(),
                commands@.len() == i,
                forall|k: int|
                    0 <= k < i ==> (#[trigger] commands@[k])@ == (DrawCommandView::Tile {
                        draw: tile_draw(
                            state_of(self.tiles@, self.visible_tiles@[k].0),
                            self.visible_tiles@[k].1,
                        ),
                        tint: self.tint,
                    }),
            decreases self.visible_tiles@.len() - i,
        {
            assert(self.visible_tiles@[i as int].1.wf());
            let draw = draw_tile(&self.tiles, self.visible_tiles[i].0, self.visible_tiles[i].1);
            commands.push(DrawCommand::Tile { draw, tint: self.tint });
            i = i + 1;
        }
        commands
    }
}

impl<C: MapConfig> Layer for TileLayer<C> {
    open spec fn layer_wf(&self) -> bool {
        self.wf()
    }

    /// The layer never takes the input. It notes the tiles that the frame shows,
    /// enters each that the cache does not know as loading, and adds a request
    /// for each of those.
    open spec fn stepped(&self, after: &Self, input: PointerInput, projection: MapProjection, handled: bool) -> bool {
        &&& !handled
        &&& after.visible_tiles@ == projection.visible_tiles_spec()
        &&& after.tiles@ == ensured(self.tiles@, tile_ids(projection.visible_tiles_spec()))
        &&& after.requests@.len() >= self.requests@.len()
        &&& after.requests@.take(self.requests@.len() as int) == self.requests@
        &&& request_ids(after.requests@.skip(self.requests@.len() as int)) == fresh_ids(
            self.tiles@.dom(),
            tile_ids(projection.visible_tiles_spec()),
        )
        &&& after.tint == self.tint
        &&& after.config == self.config
    }

    /// A tile for each tile that the last frame showed, tinted.
    open spec fn drawn(&self, projection: MapProjection) -> Seq<DrawCommandView> {
        Seq::new(
            self.visible_tiles@.len(),
            |i: int|
                DrawCommandView::Tile {
                    draw: tile_draw(state_of(self.tiles@, self.visible_tiles@[i].0), self.visible_tiles@[i].1),
                    tint: self.tint,
                },
        )
    }

    fn handle_input(&mut self, input: &PointerInput, projection: &MapProjection) -> (handled: bool) {
        self.update(projection);
        false
    }

    fn draw(&self, projection: &MapProjection) -> (commands: Vec<DrawCommand>) {
        let commands = self.draw_tiles();
        assert(command_views(commands@) =~= self.drawn(*projection));
        commands
    }
}

} // verus!
