use egui_map_view::cache::draw_tile;
use egui_map_view::cache::load_tile;
use egui_map_view::cache::MapError;
use egui_map_view::cache::Tile;
use egui_map_view::cache::TileCache;
use egui_map_view::cache::TileDraw;
use egui_map_view::config::OpenStreetMapConfig;
use egui_map_view::layers::tile::TileLayer;
use egui_map_view::layers::DrawCommand;
use egui_map_view::layers::Layer;
use egui_map_view::input::PointerInput;
use egui_map_view::projection::GeoPos;
use egui_map_view::projection::MapProjection;
use egui_map_view::projection::ScreenPos;
use egui_map_view::projection::ScreenRect;
use egui_map_view::projection::WORLD_SIZE;
use egui_map_view::style::Color;
use egui_map_view::tiles::visible_tiles;
use egui_map_view::MapWidget;
use egui_map_view::TileId;

/// The screen position of a pixel: a pixel holds 256 screen units.
fn at(x: i32, y: i32) -> ScreenPos {
    ScreenPos { x: x * 256, y: y * 256 }
}

/// A rectangle given in pixels.
fn rect(x: i32, y: i32, w: i32, h: i32) -> ScreenRect {
    ScreenRect { min: at(x, y), max: at(x + w, y + h) }
}

fn tile(z: u8, x: u32, y: u32) -> TileId {
    TileId { z, x, y }
}

#[test]
fn visible_tiles_at_zoom_zero() {
    let center = GeoPos { x: WORLD_SIZE / 2, y: WORLD_SIZE / 2 };
    let projection = MapProjection::new(0, center, rect(0, 0, 256, 256));
    let tiles = visible_tiles(&projection);
    assert_eq!(tiles, vec![(tile(0, 0, 0), at(0, 0))]);
}

#[test]
fn visible_tiles_cover_the_widget_by_column_then_row() {
    // zoom 2, four tiles across; the view is 512 pixels wide and 256 high
    // around the middle of the world
    let center = GeoPos { x: WORLD_SIZE / 2, y: WORLD_SIZE / 2 };
    let projection = MapProjection::new(2, center, rect(0, 0, 512, 256));
    let tiles = visible_tiles(&projection);
    let ids: Vec<TileId> = tiles.iter().map(|t| t.0).collect();
    assert_eq!(
        ids,
        vec![
            tile(2, 1, 1), tile(2, 1, 2), tile(2, 1, 3),
            tile(2, 2, 1), tile(2, 2, 2), tile(2, 2, 3),
            tile(2, 3, 1), tile(2, 3, 2), tile(2, 3, 3),
        ]
    );
    assert_eq!(tiles[0].1, at(0, -128));
    assert_eq!(tiles[4].1, at(256, 128));
    for (id, pos) in &tiles {
        let corner = GeoPos { x: id.x as i64 * (WORLD_SIZE / 4), y: id.y as i64 * (WORLD_SIZE / 4) };
        assert_eq!(projection.project(corner), *pos);
    }
}

#[test]
fn visible_tiles_include_the_tile_under_the_center() {
    let centers = [
        GeoPos { x: 0, y: 0 },
        GeoPos { x: WORLD_SIZE, y: WORLD_SIZE },
        GeoPos { x: 625913639496, y: 318259622347 },
        GeoPos { x: WORLD_SIZE / 2, y: WORLD_SIZE - 1 },
    ];
    for zoom in [0u8, 1, 5, 10, 19] {
        for center in centers {
            for r in [rect(0, 0, 0, 0), rect(0, 0, 1, 1), rect(100, 200, 800, 600)] {
                let projection = MapProjection::new(zoom, center, r);
                let span = WORLD_SIZE >> zoom;
                let last = (1i64 << zoom) - 1;
                let under = tile(
                    zoom,
                    (center.x / span).min(last) as u32,
                    (center.y / span).min(last) as u32,
                );
                let tiles = visible_tiles(&projection);
                assert!(tiles.iter().any(|t| t.0 == under), "zoom {} center {:?}", zoom, center);
                assert!(tiles.iter().all(|t| t.0.z == zoom && (t.0.x as i64) <= last && (t.0.y as i64) <= last));
            }
        }
    }
}

#[test]
fn the_cache_fetches_each_tile_once() {
    let mut cache = TileCache::new();
    assert!(cache.is_empty());
    let a = tile(3, 1, 2);
    let b = tile(3, 1, 3);
    let started = cache.ensure_visible(&vec![a, b, a]);
    assert_eq!(started, vec![a, b]);
    assert_eq!(cache.len(), 2);
    assert_eq!(cache.get(a), Some(&Tile::Loading));
    // already loading: not fetched again
    let started = cache.ensure_visible(&vec![b, a]);
    assert!(started.is_empty());
    assert_eq!(cache.len(), 2);
    assert_eq!(cache.loading(), vec![a, b]);
}

#[test]
fn tiles_go_one_way() {
    let mut cache = TileCache::new();
    let a = tile(3, 1, 2);
    let b = tile(3, 1, 3);
    let c = tile(3, 1, 4);
    // the end of a fetch that never began is dropped
    assert!(!cache.resolve(a, Ok(7)));
    assert!(cache.is_empty());
    cache.ensure_visible(&vec![a, b]);
    assert!(cache.resolve(a, Ok(7)));
    assert!(cache.resolve(b, Err(MapError::TileDownloadError("404 Not Found".to_string()))));
    assert_eq!(cache.get(a), Some(&Tile::Loaded(7)));
    assert_eq!(cache.get(b), Some(&Tile::Failed(MapError::TileDownloadError("404 Not Found".to_string()))));
    // a second end changes nothing
    assert!(!cache.resolve(a, Err(MapError::ConnectionError("late".to_string()))));
    assert!(!cache.resolve(b, Ok(9)));
    assert_eq!(cache.get(a), Some(&Tile::Loaded(7)));
    assert_eq!(cache.get(b), Some(&Tile::Failed(MapError::TileDownloadError("404 Not Found".to_string()))));
    // a failed tile is not fetched again, a new one is
    let started = cache.ensure_visible(&vec![a, b, c]);
    assert_eq!(started, vec![c]);
    assert_eq!(cache.loading(), vec![c]);
    assert_eq!(cache.len(), 3);
}

#[test]
fn tiles_are_drawn_by_their_state() {
    let mut cache = TileCache::new();
    let a = tile(3, 1, 2);
    let b = tile(3, 1, 3);
    let c = tile(3, 1, 4);
    let d = tile(3, 1, 5);
    cache.ensure_visible(&vec![a, b, c]);
    cache.resolve(a, Ok(42));
    cache.resolve(b, Err(MapError::TileBytesConversionError("bad".to_string())));
    let pos = at(10, -20);
    let square = ScreenRect { min: pos, max: at(266, 236) };
    let draws = cache.draw_visible(&vec![(a, pos), (b, pos), (c, pos), (d, pos)]);
    assert_eq!(
        draws,
        vec![
            TileDraw::Image { rect: square, image: 42 },
            TileDraw::Broken { rect: square, error: MapError::TileBytesConversionError("bad".to_string()) },
            TileDraw::Placeholder { rect: square },
            TileDraw::Placeholder { rect: square },
        ]
    );
    assert_eq!(draw_tile(&cache, a, pos), TileDraw::Image { rect: square, image: 42 });
}

#[test]
fn load_tile_names_the_address_of_a_new_tile_only() {
    let config = OpenStreetMapConfig::default();
    let mut cache = TileCache::new();
    let a = tile(10, 559, 330);
    assert_eq!(
        load_tile(&mut cache, &config, a),
        Some("https://tile.openstreetmap.org/10/559/330.png".to_string())
    );
    assert_eq!(load_tile(&mut cache, &config, a), None);
    cache.resolve(a, Err(MapError::ConnectionError("refused".to_string())));
    assert_eq!(load_tile(&mut cache, &config, a), None);
}

#[test]
fn map_errors_have_words() {
    assert_eq!(MapError::ConnectionError("x".to_string()).message(), "Connection error");
    assert_eq!(
        MapError::TileDownloadError("404 Not Found".to_string()).message(),
        "A map tile failed to download. HTTP Status: `404 Not Found`"
    );
    assert_eq!(
        MapError::TileBytesConversionError("x".to_string()).message(),
        "Unable to convert downloaded map tile bytes as image"
    );
    assert_eq!(MapError::check_status(true, "200 OK".to_string()), Ok(()));
    assert_eq!(
        MapError::check_status(false, "503 Service Unavailable".to_string()),
        Err(MapError::TileDownloadError("503 Service Unavailable".to_string()))
    );
}

#[test]
fn the_map_asks_for_its_visible_tiles() {
    let mut map = MapWidget::new(OpenStreetMapConfig::default());
    map.center = GeoPos { x: WORLD_SIZE / 2, y: WORLD_SIZE / 2 };
    map.zoom = 1;
    let r = rect(0, 0, 256, 256);
    let visible = map.visible_tiles(&r);
    let ids: Vec<TileId> = visible.iter().map(|t| t.0).collect();
    assert_eq!(ids, vec![tile(1, 0, 0), tile(1, 0, 1), tile(1, 1, 0), tile(1, 1, 1)]);
    let requests = map.request_tiles(&r);
    assert_eq!(requests.len(), 4);
    assert_eq!(requests[0], (tile(1, 0, 0), "https://tile.openstreetmap.org/1/0/0.png".to_string()));
    assert_eq!(requests[3], (tile(1, 1, 1), "https://tile.openstreetmap.org/1/1/1.png".to_string()));
    // the next frame asks for nothing
    assert!(map.request_tiles(&r).is_empty());
    assert!(map.resolve_tile(tile(1, 0, 1), Ok(5)));
    let drawing = map.draw_map_and_attribution(&r, false);
    assert_eq!(drawing.background, Color { r: 220, g: 220, b: 220, a: 255 });
    assert_eq!(drawing.tiles.len(), 4);
    assert_eq!(
        drawing.tiles[1],
        TileDraw::Image {
            rect: ScreenRect { min: at(-128, 128), max: at(128, 384) },
            image: 5
        }
    );
    assert!(matches!(drawing.tiles[0], TileDraw::Placeholder { .. }));
    let attribution = drawing.attribution.unwrap();
    assert_eq!(attribution.text, "© OpenStreetMap contributors");
    assert_eq!(attribution.url, Some("https://www.openstreetmap.org".to_string()));
    assert_eq!(attribution.text_color, Color { r: 80, g: 80, b: 80, a: 255 });
    assert_eq!(attribution.background, Color { r: 150, g: 150, b: 150, a: 150 });
    let dark = map.draw_attribution(true).unwrap();
    assert_eq!(dark.text_color, Color { r: 230, g: 230, b: 230, a: 255 });
    assert_eq!(dark.background, Color { r: 0, g: 0, b: 0, a: 150 });
}

#[test]
fn the_tile_layer_requests_and_draws() {
    let mut layer = TileLayer::new(OpenStreetMapConfig::default());
    assert_eq!(layer.tint, Color { r: 255, g: 255, b: 255, a: 255 });
    let center = GeoPos { x: WORLD_SIZE / 2, y: WORLD_SIZE / 2 };
    let projection = MapProjection::new(0, center, rect(0, 0, 256, 256));
    let handled = layer.handle_input(&PointerInput::idle(), &projection);
    assert!(!handled);
    assert_eq!(layer.visible_tiles, vec![(tile(0, 0, 0), at(0, 0))]);
    assert_eq!(layer.requests, vec![(tile(0, 0, 0), "https://tile.openstreetmap.org/0/0/0.png".to_string())]);
    // a second frame asks for nothing more
    layer.handle_input(&PointerInput::idle(), &projection);
    assert_eq!(layer.requests.len(), 1);
    assert!(layer.resolve(tile(0, 0, 0), Ok(3)));
    let commands = layer.draw(&projection);
    let square = ScreenRect { min: at(0, 0), max: at(256, 256) };
    assert_eq!(
        commands,
        vec![DrawCommand::Tile { draw: TileDraw::Image { rect: square, image: 3 }, tint: layer.tint }]
    );
}
