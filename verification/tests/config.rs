use egui_map_view::cache::Tile;
use egui_map_view::config::DynMapConfig;
use egui_map_view::config::KarttapaikkaMapConfig;
use egui_map_view::config::MapConfig;
use egui_map_view::config::OpenStreetMapConfig;
use egui_map_view::config::push_decimal;
use egui_map_view::projection::GeoPos;
use egui_map_view::projection::WORLD_SIZE;
use egui_map_view::MapWidget;
use egui_map_view::TileId;
use egui_map_view::MAX_ZOOM;

/// The position of a longitude and latitude in degrees, in world units.
fn geo(lon: f64, lat: f64) -> GeoPos {
    let world = WORLD_SIZE as f64;
    let x = (lon + 180.0) / 360.0 * world;
    let y = (1.0 - lat.to_radians().tan().asinh() / std::f64::consts::PI) / 2.0 * world;
    GeoPos { x: x.round() as i64, y: y.round() as i64 }
}

#[test]
fn openstreetmap_config_default() {
    let config = OpenStreetMapConfig::default();
    assert_eq!(config.base_url, "https://tile.openstreetmap.org");
    assert_eq!(config.attribution, "© OpenStreetMap contributors");
    assert_eq!(config.default_center, geo(24.93545, 60.16952));
    assert_eq!(config.default_zoom, 5);
}

#[test]
fn openstreetmap_config_tile_url() {
    let config = OpenStreetMapConfig::default();
    let tile_id = TileId { z: 10, x: 1, y: 2 };
    let url = config.tile_url(&tile_id);
    assert_eq!(url, "https://tile.openstreetmap.org/10/1/2.png");
}

#[test]
fn karttapaikka_config_new() {
    let api_key = "test-api-key".to_string();
    let config = KarttapaikkaMapConfig::new(api_key.clone());
    assert_eq!(config.api_key, api_key);
    assert_eq!(
        config.base_url,
        "https://avoin-karttakuva.maanmittauslaitos.fi/avoin/wmts/1.0.0/maastokartta/default/WGS84_Pseudo-Mercator"
    );
    assert_eq!(config.attribution, "© Maanmittauslaitos");
    assert_eq!(config.default_center, geo(24.93545, 60.16952));
    assert_eq!(config.default_zoom, 15);
}

#[test]
fn karttapaikka_config_tile_url() {
    let api_key = "test-api-key".to_string();
    let config = KarttapaikkaMapConfig::new(api_key.clone());
    let tile_id = TileId { z: 10, x: 1, y: 2 };
    let url = config.tile_url(&tile_id);
    assert_eq!(
        url,
        "https://avoin-karttakuva.maanmittauslaitos.fi/avoin/wmts/1.0.0/maastokartta/default/WGS84_Pseudo-Mercator/10/2/1.png?api-key=test-api-key"
    );
}

#[test]
fn test_tile_id_to_url() {
    let config = OpenStreetMapConfig::default();
    let tile_id = TileId { z: 10, x: 559, y: 330 };
    let url = tile_id.to_url(&config);
    assert_eq!(url, "https://tile.openstreetmap.org/10/559/330.png");
}

#[test]
fn test_map_new() {
    let config = OpenStreetMapConfig::default();
    let default_center = config.default_center();
    let default_zoom = config.default_zoom();

    let map = MapWidget::new(config);

    assert_eq!(map.center, default_center);
    assert_eq!(map.zoom, default_zoom);
    assert!(map.mouse_pos.is_none());
    assert!(map.tiles.is_empty());
    assert!(map.is_valid());
}

#[test]
fn map_new_holds_the_default_view_within_the_limits() {
    let mut config = OpenStreetMapConfig::default();
    config.default_zoom = 42;
    config.default_center = GeoPos { x: -7, y: WORLD_SIZE + 1 };
    let map = MapWidget::new(config);
    assert_eq!(map.zoom, MAX_ZOOM);
    assert_eq!(map.center, GeoPos { x: 0, y: WORLD_SIZE });
}

#[test]
fn openstreetmap_config_attribution() {
    let config = OpenStreetMapConfig::default();
    assert_eq!(config.attribution().unwrap(), "© OpenStreetMap contributors");
    assert_eq!(config.attribution_url().unwrap(), "https://www.openstreetmap.org");
    let config = KarttapaikkaMapConfig::default();
    assert_eq!(config.api_key, "your-key-here");
    assert_eq!(
        config.attribution_url().unwrap(),
        "https://www.maanmittauslaitos.fi/asioi-verkossa/karttapaikka"
    );
}

#[test]
fn dyn_map_config_uses_the_function() {
    let config = DynMapConfig::new(|tile: &TileId| {
        format!("https://my-tile-server/{}/{}/{}.png", tile.z, tile.x, tile.y)
    });
    let url = config.tile_url(&TileId { z: 3, x: 4, y: 5 });
    assert_eq!(url, "https://my-tile-server/3/4/5.png");
    assert!(config.attribution().is_none());
    assert!(config.attribution_url().is_none());
    assert_eq!(config.default_center(), geo(24.93545, 60.16952));
    assert_eq!(config.default_zoom(), 2);
    let map = MapWidget::new(config);
    assert_eq!(map.zoom, 2);
}

#[test]
fn decimal_notation_of_tile_indices() {
    for n in [0u32, 7, 10, 99, 100, 559, 524287, 4294967295] {
        let mut s = String::from("x");
        push_decimal(&mut s, n);
        assert_eq!(s, format!("x{}", n));
    }
    let config = OpenStreetMapConfig::default();
    assert_eq!(
        config.tile_url(&TileId { z: 0, x: 0, y: 4294967295 }),
        "https://tile.openstreetmap.org/0/0/4294967295.png"
    );
}

#[test]
fn a_new_map_has_no_tiles() {
    let map = MapWidget::new(OpenStreetMapConfig::default());
    assert_eq!(map.tiles.len(), 0);
    assert!(map.tiles.get(TileId { z: 0, x: 0, y: 0 }).is_none());
    assert!(!map.tiles.contains(TileId { z: 0, x: 0, y: 0 }));
    assert!(map.tiles.loading().is_empty());
    let _: Option<&Tile> = map.tiles.get(TileId { z: 1, x: 0, y: 0 });
}
