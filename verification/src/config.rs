//! Configuration for different map providers.

use vstd::prelude::*;
use vstd::string::StringExecFns;
use crate::TileId;
use crate::projection::GeoPos;

verus! {

/// Configuration for a map provider.
pub trait MapConfig {
    /// Whether the configuration can name the address of `tile`.
    spec fn url_ready(&self, tile: &TileId) -> bool;

    /// Whether `url` is an address that the configuration names for `tile`.
    spec fn is_url(&self, tile: &TileId, url: String) -> bool;

    /// Returns the URL for a given tile.
    fn tile_url(&self, tile: &TileId) -> (url: String)
        requires
            self.url_ready(tile),
        ensures
            self.is_url(tile, url),
    ;

    /// The attribution text to be displayed on the map, if any.
    spec fn attribution_spec(&self) -> Option<String>;

    /// The address to be linked from the attribution text, if any.
    spec fn attribution_url_spec(&self) -> Option<String>;

    /// Returns the attribution text to be displayed on the map. If returns
    /// `None`, no attribution is shown.
    fn attribution(&self) -> (text: Option<&String>)
        ensures
            match text {
                Some(t) => self.attribution_spec() == Some(*t),
                None => self.attribution_spec() is None,
            },
    ;

    /// Returns the attribution URL to be linked from the attribution text.
    fn attribution_url(&self) -> (url: Option<&String>)
        ensures
            match url {
                Some(u) => self.attribution_url_spec() == Some(*u),
                None => self.attribution_url_spec() is None,
            },
    ;

    /// The default geographical center of the map.
    spec fn center_spec(&self) -> GeoPos;

    /// The default zoom level of the map.
    spec fn zoom_spec(&self) -> u8;

    /// The default geographical center of the map.
    fn default_center(&self) -> (center: GeoPos)
        ensures
            center == self.center_spec(),
    ;

    /// The default zoom level of the map.
    fn default_zoom(&self) -> (zoom: u8)
        ensures
            zoom == self.zoom_spec(),
    ;
}

/// The decimal digit of a number below ten.
pub open spec fn decimal_digit(d: int) -> char {
    if d == 0 {
        '0'
    } else if d == 1 {
        '1'
    } else if d == 2 {
        '2'
    } else if d == 3 {
        '3'
    } else if d == 4 {
        '4'
    } else if d == 5 {
        '5'
    } else if d == 6 {
        '6'
    } else if d == 7 {
        '7'
    } else if d == 8 {
        '8'
    } else {
        '9'
    }
}

/// The decimal notation of `n`, without leading zeros.
pub open spec fn decimal(n: nat) -> Seq<char>
    decreases n,
{
    if n < 10 {
        seq![decimal_digit(n as int)]
    } else {
        decimal(n / 10).push(decimal_digit((n % 10) as int))
    }
}

/// The path of a tile below a server's base address: zoom level, column and
/// row, and the ending of a PNG image.
pub open spec fn zxy_path(tile: TileId) -> Seq<char> {
    "/"@ + decimal(tile.z as nat) + "/"@ + decimal(tile.x as nat) + "/"@ + decimal(tile.y as nat)
        + ".png"@
}

/// The path of a tile below a server's base address with the row before the
/// column.
pub open spec fn zyx_path(tile: TileId) -> Seq<char> {
    "/"@ + decimal(tile.z as nat) + "/"@ + decimal(tile.y as nat) + "/"@ + decimal(tile.x as nat)
        + ".png"@
}

/// Appends the decimal digit of `d` to `s`.
fn push_digit(s: &mut String, d: u32)
    requires
        d < 10,
    ensures
        final(s)@ == old(s)@.push(decimal_digit(d as int)),
{
    proof {
        reveal_strlit("0");
        reveal_strlit("1");
        reveal_strlit("2");
        reveal_strlit("3");
        reveal_strlit("4");
        reveal_strlit("5");
        reveal_strlit("6");
        reveal_strlit("7");
        reveal_strlit("8");
        reveal_strlit("9");
    }
    let ghost before = s@;
    if d == 0 {
        s.append("0");
    } else if d == 1 {
        s.append("1");
    } else if d == 2 {
        s.append("2");
    } else if d == 3 {
        s.append("3");
    } else if d == 4 {
        s.append("4");
    } else if d == 5 {
        s.append("5");
    } else if d == 6 {
        s.append("6");
    } else if d == 7 {
        s.append("7");
    } else if d == 8 {
        s.append("8");
    } else {
        s.append("9");
    }
    assert(s@ =~= before.push(decimal_digit(d as int)));
}

/// Appends the decimal notation of `n` to `s`.
pub fn push_decimal(s: &mut String, n: u32)
    ensures
        final(s)@ == old(s)@ + decimal(n as nat),
    decreases n,
{
    let ghost before = s@;
    if n >= 10 {
        push_decimal(s, n / 10);
    }
    push_digit(s, n % 10);
    proof {
        if n >= 10 {
            assert(s@ =~= before + decimal((n / 10) as nat).push(decimal_digit((n % 10) as int)));
        } else {
            assert(s@ =~= before + seq![decimal_digit(n as int)]);
        }
    }
}

/// Appends a slash and three numbers, separated by slashes, and `.png`.
fn push_path(s: &mut String, a: u32, b: u32, c: u32)
    ensures
        final(s)@ == old(s)@ + "/"@ + decimal(a as nat) + "/"@ + decimal(b as nat) + "/"@ + decimal(
            c as nat,
        ) + ".png"@,
{
    s.append("/");
    push_decimal(s, a);
    s.append("/");
    push_decimal(s, b);
    s.append("/");
    push_decimal(s, c);
    s.append(".png");
}

/// Configuration for the OpenStreetMap tile server.
pub struct OpenStreetMapConfig {
    /// The address below which the tiles are found.
    pub base_url: String,
    /// The attribution text.
    pub attribution: String,
    /// The address that the attribution links to.
    pub attribution_url: String,
    /// The default center of the map.
    pub default_center: GeoPos,
    /// The default zoom level of the map.
    pub default_zoom: u8,
}

impl Default for OpenStreetMapConfig {
    /// The public OpenStreetMap server, with the map centered on Helsinki.
    fn default() -> (config: OpenStreetMapConfig)
        ensures
            config.base_url@ == "https://tile.openstreetmap.org"@,
            config.attribution@ == "© OpenStreetMap contributors"@,
            config.attribution_url@ == "https://www.openstreetmap.org"@,
            config.default_center == (GeoPos { x: 625913639496, y: 318259622347 }),
            config.default_zoom == 5,
    {
        OpenStreetMapConfig {
            base_url: String::from_str("https://tile.openstreetmap.org"),
            attribution: String::from_str("© OpenStreetMap contributors"),
            attribution_url: String::from_str("https://www.openstreetmap.org"),
            default_center: GeoPos { x: 625913639496, y: 318259622347 },  // Helsinki, Finland
            default_zoom: 5,
        }
    }
}

impl MapConfig for OpenStreetMapConfig {
    open spec fn url_ready(&self, tile: &TileId) -> bool {
        true
    }

    open spec fn is_url(&self, tile: &TileId, url: String) -> bool {
        url@ == self.base_url@ + zxy_path(*tile)
    }

    fn tile_url(&self, tile: &TileId) -> (url: String) {
        let mut url = self.base_url.clone();
        push_path(&mut url, tile.z as u32, tile.x, tile.y);
        assert(url@ =~= self.base_url@ + zxy_path(*tile));
        url
    }

    open spec fn attribution_spec(&self) -> Option<String> {
        Some(self.attribution)
    }

    open spec fn attribution_url_spec(&self) -> Option<String> {
        Some(self.attribution_url)
    }

    fn attribution(&self) -> (text: Option<&String>) {
        Some(&self.attribution)
    }

    fn attribution_url(&self) -> (url: Option<&String>) {
        Some(&self.attribution_url)
    }

    open spec fn center_spec(&self) -> GeoPos {
        self.default_center
    }

    open spec fn zoom_spec(&self) -> u8 {
        self.default_zoom
    }

    fn default_center(&self) -> (center: GeoPos) {
        self.default_center
    }

    fn default_zoom(&self) -> (zoom: u8) {
        self.default_zoom
    }
}

/// Configuration for the Karttapaikka tile server.
pub struct KarttapaikkaMapConfig {
    /// The address below which the tiles are found.
    pub base_url: String,
    /// The attribution text.
    pub attribution: String,
    /// The address that the attribution links to.
    pub attribution_url: String,
    /// The default center of the map.
    pub default_center: GeoPos,
    /// The default zoom level of the map.
    pub default_zoom: u8,
    /// The key that the server asks for.
    pub api_key: String,
}

impl Default for KarttapaikkaMapConfig {
    /// The public Karttapaikka server, with the map centered on Helsinki and a
    /// key that the server will not accept.
    fn default() -> (config: KarttapaikkaMapConfig)
        ensures
            config.base_url@
                == "https://avoin-karttakuva.maanmittauslaitos.fi/avoin/wmts/1.0.0/maastokartta/default/WGS84_Pseudo-Mercator"@,
            config.attribution@ == "© Maanmittauslaitos"@,
            config.attribution_url@ == "https://www.maanmittauslaitos.fi/asioi-verkossa/karttapaikka"@,
            config.default_center == (GeoPos { x: 625913639496, y: 318259622347 }),
            config.default_zoom == 15,
            config.api_key@ == "your-key-here"@,
    {
        KarttapaikkaMapConfig {
            base_url: String::from_str(
                "https://avoin-karttakuva.maanmittauslaitos.fi/avoin/wmts/1.0.0/maastokartta/default/WGS84_Pseudo-Mercator",
            ),
            attribution: String::from_str("© Maanmittauslaitos"),
            attribution_url: String::from_str(
                "https://www.maanmittauslaitos.fi/asioi-verkossa/karttapaikka",
            ),
            default_center: GeoPos { x: 625913639496, y: 318259622347 },  // Helsinki, Finland
            default_zoom: 15,
            api_key: String::from_str("your-key-here"),
        }
    }
}

impl KarttapaikkaMapConfig {
    /// Creates a new `KarttapaikkaMapConfig` with the given API key.
    pub fn new(api_key: String) -> (config: Self)
        ensures
            config.base_url@
                == "https://avoin-karttakuva.maanmittauslaitos.fi/avoin/wmts/1.0.0/maastokartta/default/WGS84_Pseudo-Mercator"@,
            config.attribution@ == "© Maanmittauslaitos"@,
            config.attribution_url@ == "https://www.maanmittauslaitos.fi/asioi-verkossa/karttapaikka"@,
            config.default_center == (GeoPos { x: 625913639496, y: 318259622347 }),
            config.default_zoom == 15,
            config.api_key == api_key,
    {
        let mut config = KarttapaikkaMapConfig::default();
        config.api_key = api_key;
        config
    }
}

impl MapConfig for KarttapaikkaMapConfig {
    open spec fn url_ready(&self, tile: &TileId) -> bool {
        true
    }

    open spec fn is_url(&self, tile: &TileId, url: String) -> bool {
        url@ == self.base_url@ + zyx_path(*tile) + "?api-key="@ + self.api_key@
    }

    fn tile_url(&self, tile: &TileId) -> (url: String) {
        let mut url = self.base_url.clone();
        push_path(&mut url, tile.z as u32, tile.y, tile.x);
        url.append("?api-key=");
        url.append(self.api_key.as_str());
        assert(url@ =~= self.base_url@ + zyx_path(*tile) + "?api-key="@ + self.api_key@);
        url
    }

    open spec fn attribution_spec(&self) -> Option<String> {
        Some(self.attribution)
    }

    open spec fn attribution_url_spec(&self) -> Option<String> {
        Some(self.attribution_url)
    }

    fn attribution(&self) -> (text: Option<&String>) {
        Some(&self.attribution)
    }

    fn attribution_url(&self) -> (url: Option<&String>) {
        Some(&self.attribution_url)
    }

    open spec fn center_spec(&self) -> GeoPos {
        self.default_center
    }

    open spec fn zoom_spec(&self) -> u8 {
        self.default_zoom
    }

    fn default_center(&self) -> (center: GeoPos) {
        self.default_center
    }

    fn default_zoom(&self) -> (zoom: u8) {
        self.default_zoom
    }
}

/// A dynamic map configuration that allows defining a custom tile URL function
/// at runtime.
pub struct DynMapConfig<F: Fn(&TileId) -> String> {
    /// The function that names the address of a tile.
    pub tile_url: F,
}

impl<F: Fn(&TileId) -> String> DynMapConfig<F> {
    /// Creates a new `DynMapConfig` with a custom tile URL function.
    pub fn new(tile_url: F) -> (config: Self)
        ensures
            config.tile_url == tile_url,
    {
        Self { tile_url }
    }
}

impl<F: Fn(&TileId) -> String> MapConfig for DynMapConfig<F> {
    open spec fn url_ready(&self, tile: &TileId) -> bool {
        call_requires(self.tile_url, (tile,))
    }

    open spec fn is_url(&self, tile: &TileId, url: String) -> bool {
        call_ensures(self.tile_url, (tile,), url)
    }

    fn tile_url(&self, tile: &TileId) -> (url: String) {
        (self.tile_url)(tile)
    }

    open spec fn attribution_spec(&self) -> Option<String> {
        None
    }

    open spec fn attribution_url_spec(&self) -> Option<String> {
        None
    }

    fn attribution(&self) -> (text: Option<&String>) {
        None
    }

    fn attribution_url(&self) -> (url: Option<&String>) {
        None
    }

    open spec fn center_spec(&self) -> GeoPos {
        GeoPos { x: 625913639496, y: 318259622347 }
    }

    open spec fn zoom_spec(&self) -> u8 {
        2
    }

    fn default_center(&self) -> (center: GeoPos) {
        GeoPos { x: 625913639496, y: 318259622347 }
    }

    fn default_zoom(&self) -> (zoom: u8) {
        2
    }
}

} // verus!
