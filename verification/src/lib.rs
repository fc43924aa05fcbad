//! The verified core of a pannable, zoomable tiled map with editable vector
//! overlays.
//!
//! Everything in this crate is integer arithmetic. Geographic positions are held
//! in *world units* on the Web-Mercator plane (see [`projection::GeoPos`]) and
//! screen positions, widths and radii in *screen units*, of which a pixel holds
//! 256, so that projecting, hit-testing and editing are exact and can be stated
//! and proved.
//!
//! The crate neither reads input nor paints nor fetches. The host hands it a
//! [`input::PointerInput`] for each frame and what only the host can measure,
//! and takes back [`layers::DrawCommand`]s to paint and tiles to fetch.

use vstd::prelude::*;

/// Small arithmetic helpers.
pub mod arith;
/// The tile cache and the states of a tile.
pub mod cache;
/// Configuration for different map providers.
pub mod config;
/// What the host hands to the map for one frame.
pub mod input;
/// Layers on top of the map, and the screen-space geometry that they share.
pub mod layers;
/// Positions on the map and on the screen, and the projector between them.
pub mod projection;
/// Colors and strokes.
pub mod style;
/// Which tiles a viewport shows.
pub mod tiles;
/// The viewport controller: panning and zooming.
pub mod viewport;
/// The map widget.
pub mod widget;

pub use cache::MapError;
pub use widget::MapWidget;

verus! {

/// The edge length of a map tile in pixels.
pub const TILE_SIZE: u32 = 256;

/// The minimum zoom level.
pub const MIN_ZOOM: u8 = 0;

/// The maximum zoom level.
pub const MAX_ZOOM: u8 = 19;

/// Identifies one map tile: the zoom level and the column and row at that zoom.
#[derive(Clone, Copy, Debug, Hash, PartialEq, Eq, Structural)]
pub struct TileId {
    /// The zoom level.
    pub z: u8,
    /// The column, counted eastward from the antimeridian.
    pub x: u32,
    /// The row, counted southward from the northern edge.
    pub y: u32,
}

impl TileId {
    /// The address of the tile at the server that `config` names.
    pub fn to_url<C: config::MapConfig>(&self, config: &C) -> (url: String)
        requires
            config.url_ready(self),
        ensures
            config.is_url(self, url),
    {
        config.tile_url(self)
    }
}

} // verus!
