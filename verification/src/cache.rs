//! The tile cache: one entry for each tile that was ever asked for, which goes
//! from loading to loaded or to failed and then stays as it is.
//!
//! The cache does not fetch. It says which tiles are to be fetched, and is told
//! how each fetch ended. Nothing is ever removed: the cache grows with the
//! number of distinct tiles seen.

use vstd::prelude::*;
use vstd::string::StringExecFns;
use crate::TileId;
use crate::projection::TILE_UNITS;
use crate::config::MapConfig;
use crate::projection::ScreenPos;
use crate::projection::ScreenRect;

verus! {

/// Errors that can occur while fetching a map tile.
#[derive(Debug, PartialEq, Eq)]
pub enum MapError {
    /// The request could not be made or answered; holds the transport's words.
    ConnectionError(String),
    /// The server answered with a status other than success; holds the status.
    TileDownloadError(String),
    /// The bytes received are no image; holds the decoder's words.
    TileBytesConversionError(String),
}

/// The state of a tile in the cache.
#[derive(Debug, PartialEq, Eq)]
pub enum Tile {
    /// The tile is being fetched.
    Loading,
    /// The tile is in memory; holds the host's handle of the decoded image.
    Loaded(u64),
    /// The fetch failed.
    Failed(MapError),
}

/// How a fetch ended: the host's handle of the decoded image, or the error.
pub type FetchOutcome = Result<u64, MapError>;

/// What to draw for one visible tile.
#[derive(Debug, PartialEq, Eq)]
pub enum TileDraw {
    /// A neutral placeholder; the host is to ask for another frame.
    Placeholder { rect: ScreenRect },
    /// The image with the given handle.
    Image { rect: ScreenRect, image: u64 },
    /// An error placeholder that shows the error when hovered.
    Broken { rect: ScreenRect, error: MapError },
}

impl Clone for MapError {
    fn clone(&self) -> (r: Self)
        ensures
            r == *self,
    {
        match self {
            MapError::ConnectionError(s) => MapError::ConnectionError(s.clone()),
            MapError::TileDownloadError(s) => MapError::TileDownloadError(s.clone()),
            MapError::TileBytesConversionError(s) => MapError::TileBytesConversionError(s.clone()),
        }
    }
}

impl Clone for Tile {
    fn clone(&self) -> (r: Self)
        ensures
            r == *self,
    {
        match self {
            Tile::Loading => Tile::Loading,
            Tile::Loaded(image) => Tile::Loaded(*image),
            Tile::Failed(e) => Tile::Failed(e.clone()),
        }
    }
}

/// The words of an error for the user.
pub open spec fn error_message(e: MapError) -> Seq<char> {
    match e {
        MapError::ConnectionError(_) => "Connection error"@,
        MapError::TileDownloadError(status) => "A map tile failed to download. HTTP Status: `"@ + status@
            + "`"@,
        MapError::TileBytesConversionError(_) => "Unable to convert downloaded map tile bytes as image"@,
    }
}

impl MapError {
    /// The words of the error for the user.
    pub fn message(&self) -> (s: String)
        ensures
            s@ == error_message(*self),
    {
        match self {
            MapError::ConnectionError(_) => String::from_str("Connection error"),
            MapError::TileDownloadError(status) => {
                let mut s = String::from_str("A map tile failed to download. HTTP Status: `");
                s.append(status.as_str());
                s.append("`");
                s
            },
            MapError::TileBytesConversionError(_) => String::from_str(
                "Unable to convert downloaded map tile bytes as image",
            ),
        }
    }

    /// What the status of a server's answer means for the fetch: any status but
    /// success fails it, with the status as the reason.
    pub fn check_status(success: bool, status: String) -> (r: Result<(), MapError>)
        ensures
            r == if success {
                Ok::<(), MapError>(())
            } else {
                Err::<(), MapError>(MapError::TileDownloadError(status))
            },
    {
        if success {
            Ok(())
        } else {
            Err(MapError::TileDownloadError(status))
        }
    }
}

/// Whether no tile has two entries.
pub open spec fn distinct_ids(entries: Seq<(TileId, Tile)>) -> bool {
    forall|i: int, j: int|
        0 <= i < entries.len() && 0 <= j < entries.len() && i != j ==> (#[trigger] entries[i]).0
            != (#[trigger] entries[j]).0
}

/// The ids of the entries, in order.
pub open spec fn entry_ids(entries: Seq<(TileId, Tile)>) -> Seq<TileId> {
    entries.map_values(|e: (TileId, Tile)| e.0)
}

/// The tiles among the first `n` of `order` that are loading in `m`, in order.
pub open spec fn loading_among(order: Seq<TileId>, m: Map<TileId, Tile>, n: int) -> Seq<TileId>
    decreases n,
{
    if n <= 0 {
        Seq::empty()
    } else if m.contains_key(order[n - 1]) && m[order[n - 1]] is Loading {
        loading_among(order, m, n - 1).push(order[n - 1])
    } else {
        loading_among(order, m, n - 1)
    }
}

/// The entries as a map from tile to state.
pub open spec fn entries_map(entries: Seq<(TileId, Tile)>) -> Map<TileId, Tile> {
    Map::new(
        |id: TileId| exists|i: int| 0 <= i < entries.len() && (#[trigger] entries[i]).0 == id,
        |id: TileId|
            entries[choose|i: int| 0 <= i < entries.len() && (#[trigger] entries[i]).0 == id].1,
    )
}

/// The tiles of `ids` that are to be fetched, given the set of tiles that the
/// cache knows: each tile that is not known, once, in the order of its first
/// appearance.
pub open spec fn fresh_ids(known: Set<TileId>, ids: Seq<TileId>) -> Seq<TileId>
    decreases ids.len(),
{
    if ids.len() == 0 {
        Seq::empty()
    } else {
        let before = fresh_ids(known, ids.drop_last());
        if known.contains(ids.last()) || ids.drop_last().contains(ids.last()) {
            before
        } else {
            before.push(ids.last())
        }
    }
}

/// The cache after the tiles of `ids` were asked for: each tile that was not
/// known is now loading, and every other entry is as it was.
pub open spec fn ensured(m: Map<TileId, Tile>, ids: Seq<TileId>) -> Map<TileId, Tile> {
    Map::new(
        |id: TileId| m.contains_key(id) || ids.contains(id),
        |id: TileId|
            if m.contains_key(id) {
                m[id]
            } else {
                Tile::Loading
            },
    )
}

/// The state that a fetch's outcome leads to.
pub open spec fn outcome_state(outcome: FetchOutcome) -> Tile {
    match outcome {
        Ok(image) => Tile::Loaded(image),
        Err(e) => Tile::Failed(e),
    }
}

/// The cache after the fetch of `id` ended with `outcome`: a loading tile takes
/// the outcome's state; a tile in any other state, or an unknown tile, changes
/// nothing.
pub open spec fn resolved(m: Map<TileId, Tile>, id: TileId, outcome: FetchOutcome) -> Map<
    TileId,
    Tile,
> {
    if m.contains_key(id) && m[id] is Loading {
        m.insert(id, outcome_state(outcome))
    } else {
        m
    }
}

/// The square of a tile whose top-left corner is drawn at `pos`.
pub open spec fn tile_rect(pos: ScreenPos) -> ScreenRect {
    ScreenRect {
        min: pos,
        max: ScreenPos { x: (pos.x + TILE_UNITS) as i32, y: (pos.y + TILE_UNITS) as i32 },
    }
}

/// What to draw for a tile in state `state` (`None`: not in the cache) at `pos`.
pub open spec fn tile_draw(state: Option<Tile>, pos: ScreenPos) -> TileDraw {
    match state {
        Some(Tile::Loaded(image)) => TileDraw::Image { rect: tile_rect(pos), image },
        Some(Tile::Failed(error)) => TileDraw::Broken { rect: tile_rect(pos), error },
        _ => TileDraw::Placeholder { rect: tile_rect(pos) },
    }
}

/// The keyed store of tile states.
///
/// The entries are kept in a vector, in the order in which the tiles were first
/// asked for, and no tile has two of them. A tile's id is a struct, and a hash
/// map would find it by a hash and an equality that were derived for the struct
/// and that the verifier has not read; with the vector, finding a tile is a
/// loop of this module, and the map that the contracts speak of is the view.
pub struct TileCache {
    entries: Vec<(TileId, Tile)>,
}

impl TileCache {
    /// Whether no tile has two entries. Every cache that `new` made and the
    /// methods below changed is well formed.
    pub closed spec fn wf(&self) -> bool {
        distinct_ids(self.entries@)
    }

    /// The cache as a map from tile to state.
    pub closed spec fn view(&self) -> Map<TileId, Tile> {
        entries_map(self.entries@)
    }

    /// The tiles of the cache in the order in which they were first asked for.
    pub closed spec fn order(&self) -> Seq<TileId> {
        entry_ids(self.entries@)
    }

    /// The number of tiles in the cache.
    pub closed spec fn spec_len(&self) -> nat {
        self.entries@.len()
    }

    /// The order holds every tile of the cache, once.
    pub proof fn lemma_order(&self)
        requires
            self.wf(),
        ensures
            self.order().len() == self.spec_len(),
            self.order().no_duplicates(),
            forall|id: TileId| self.order().contains(id) <==> self@.contains_key(id),
    {
        let entries = self.entries@;
        let order = self.order();
        assert forall|i: int, j: int| 0 <= i < order.len() && 0 <= j < order.len() && i != j implies order[i]
            != order[j] by {
            assert(entries[i].0 != entries[j].0);
        }
        assert forall|id: TileId| order.contains(id) <==> self@.contains_key(id) by {
            if order.contains(id) {
                let k = choose|k: int| 0 <= k < order.len() && order[k] == id;
                assert(entries[k].0 == id);
            }
            if self@.contains_key(id) {
                let k = choose|k: int| 0 <= k < entries.len() && (#[trigger] entries[k]).0 == id;
                assert(order[k] == id);
            }
        }
    }

    /// Creates an empty cache.
    pub fn new() -> (cache: Self)
        ensures
            cache.wf(),
            cache@ == Map::<TileId, Tile>::empty(),
            cache.order() == Seq::<TileId>::empty(),
            cache.spec_len() == 0,
    {
        let cache = TileCache { entries: Vec::new() };
        assert(cache@ =~= Map::<TileId, Tile>::empty());
        assert(cache.order() =~= Seq::<TileId>::empty());
        cache
    }

    /// The number of tiles in the cache.
    pub fn len(&self) -> (n: usize)
        ensures
            n == self.spec_len(),
    {
        self.entries.len()
    }

    /// Whether the cache holds no tile.
    pub fn is_empty(&self) -> (r: bool)
        ensures
            r == (self.spec_len() == 0),
            r == (self@ == Map::<TileId, Tile>::empty()),
    {
        proof {
            if self.entries@.len() == 0 {
                assert(self@ =~= Map::<TileId, Tile>::empty());
            } else {
                assert(self@.contains_key(self.entries@[0].0));
            }
        }
        self.entries.len() == 0
    }

    /// The index of the entry of `id`, if there is one.
    fn find(&self, id: TileId) -> (r: Option<usize>)
        requires
            self.wf(),
        ensures
            match r {
                Some(i) => i < self.entries@.len() && self.entries@[i as int].0 == id
                    && self@.contains_key(id) && self@[id] == self.entries@[i as int].1,
                None => !self@.contains_key(id) && forall|j: int|
                    0 <= j < self.entries@.len() ==> (#[trigger] self.entries@[j]).0 != id,
            },
    {
        let mut i: usize = 0;
        while i < self.entries.len()
            invariant
                self.wf(),
                i <= self.entries@.len(),
                forall|j: int| 0 <= j < i ==> (#[trigger] self.entries@[j]).0 != id,
            decreases self.entries@.len() - i,
        {
            if self.entries[i].0 == id {
                proof {
                    lemma_entry_at(self.entries@, i as int);
                }
                return Some(i);
            }
            i = i + 1;
        }
        None
    }

    /// The state of the tile `id`, if the cache knows it.
    pub fn get(&self, id: TileId) -> (r: Option<&Tile>)
        requires
            self.wf(),
        ensures
            match r {
                Some(t) => self@.contains_key(id) && self@[id] == *t,
                None => !self@.contains_key(id),
            },
    {
        match self.find(id) {
            Some(i) => Some(&self.entries[i].1),
            None => None,
        }
    }

    /// Whether the cache knows the tile `id`.
    pub fn contains(&self, id: TileId) -> (r: bool)
        requires
            self.wf(),
        ensures
            r == self@.contains_key(id),
    {
        self.find(id).is_some()
    }

    /// Asks for the tiles of `ids`: each one that the cache does not know is
    /// entered as loading. Returns the tiles that were entered, for the host to
    /// fetch: one fetch for each.
    pub fn ensure_visible(&mut self, ids: &Vec<TileId>) -> (started: Vec<TileId>)
        requires
            old(self).wf(),
        ensures
            final(self).wf(),
            final(self)@ == ensured(old(self)@, ids@),
            final(self).order() == old(self).order() + fresh_ids(old(self)@.dom(), ids@),
            started@ == fresh_ids(old(self)@.dom(), ids@),
    {
        let ghost before: Map<TileId, Tile> = self@;
        let ghost order_before: Seq<TileId> = self.order();
        assert(self.order() =~= order_before + Seq::<TileId>::empty());
        let mut started: Vec<TileId> = Vec::new();
        let mut i: usize = 0;
        proof {
            assert(ids@.take(0) =~= Seq::<TileId>::empty());
            assert(self@ =~= ensured(before, ids@.take(0)));
        }
        while i < ids.len()
            invariant
                self.wf(),
                i <= ids@.len(),
                self@ == ensured(before, ids@.take(i as int)),
                self.order() == order_before + started@,
                started@ == fresh_ids(before.dom(), ids@.take(i as int)),
            decreases ids@.len() - i,
        {
            let id: TileId = ids[i];
            let ghost seen: Seq<TileId> = ids@.take(i as int);
            let ghost next: Seq<TileId> = ids@.take(i + 1);
            proof {
                assert(next.drop_last() =~= seen);
                assert(next.last() == id);
                assert forall|t: TileId| next.contains(t) <==> (seen.contains(t) || t == id) by {
                    if next.contains(t) {
                        let k = choose|k: int| 0 <= k < next.len() && next[k] == t;
                        if k < i {
                            assert(seen[k] == t);
                        }
                    }
                    if seen.contains(t) {
                        let k = choose|k: int| 0 <= k < seen.len() && seen[k] == t;
                        assert(next[k] == t);
                    }
                    assert(next[i as int] == id);
                }
            }
            if self.find(id).is_none() {
                proof {
                    lemma_push_entry(self.entries@, id, Tile::Loading);
                }
                let ghost started_before = started@;
                self.entries.push((id, Tile::Loading));
                started.push(id);
                proof {
                    assert(!before.contains_key(id) && !seen.contains(id));
                    assert(self@ =~= ensured(before, next));
                    assert(self.order() =~= (order_before + started_before).push(id));
                    assert(self.order() =~= order_before + started@);
                }
            } else {
                proof {
                    assert(before.contains_key(id) || seen.contains(id));
                    assert(self@ =~= ensured(before, next));
                }
            }
            i = i + 1;
        }
        proof {
            assert(ids@.take(ids@.len() as int) =~= ids@);
        }
        started
    }

    /// Records how the fetch of `id` ended. A loading tile becomes loaded or
    /// failed; anything else is left as it is. Returns whether the tile was
    /// loading.
    pub fn resolve(&mut self, id: TileId, outcome: FetchOutcome) -> (applied: bool)
        requires
            old(self).wf(),
        ensures
            final(self).wf(),
            final(self)@ == resolved(old(self)@, id, outcome),
            applied == (old(self)@.contains_key(id) && old(self)@[id] is Loading),
            final(self).order() == old(self).order(),
            final(self).spec_len() == old(self).spec_len(),
    {
        let ghost order_before: Seq<TileId> = self.order();
        match self.find(id) {
            Some(i) => {
                let loading: bool = match &self.entries[i].1 {
                    Tile::Loading => true,
                    _ => false,
                };
                if loading {
                    let state: Tile = match outcome {
                        Ok(image) => Tile::Loaded(image),
                        Err(e) => Tile::Failed(e),
                    };
                    proof {
                        lemma_update_entry(self.entries@, i as int, state);
                    }
                    self.entries.set(i, (id, state));
                    assert(self.order() =~= order_before);
                    true
                } else {
                    false
                }
            },
            None => false,
        }
    }

    /// The tiles that are loading, for the host to ask whether their fetches
    /// have ended.
    pub fn loading(&self) -> (ids: Vec<TileId>)
        requires
            self.wf(),
        ensures
            ids@ == loading_among(self.order(), self@, self.order().len() as int),
            forall|id: TileId|
                ids@.contains(id) <==> (self@.contains_key(id) && self@[id] is Loading),
            ids@.no_duplicates(),
    {
        let mut ids: Vec<TileId> = Vec::new();
        let mut i: usize = 0;
        while i < self.entries.len()
            invariant
                i <= self.entries@.len(),
                ids@ == loading_prefix(self.entries@, i as int),
            decreases self.entries@.len() - i,
        {
            let is_loading: bool = match &self.entries[i].1 {
                Tile::Loading => true,
                _ => false,
            };
            if is_loading {
                ids.push(self.entries[i].0);
            }
            i = i + 1;
        }
        proof {
            lemma_loading_prefix(self.entries@, i as int);
            lemma_loading_among(self.entries@, i as int);
            assert forall|id: TileId|
                ids@.contains(id) <==> (self@.contains_key(id) && self@[id] is Loading) by {
                if ids@.contains(id) {
                    let j = choose|j: int|
                        0 <= j < i && (#[trigger] self.entries@[j]).0 == id
                            && self.entries@[j].1 is Loading;
                    lemma_entry_at(self.entries@, j);
                }
                if self@.contains_key(id) && self@[id] is Loading {
                    let j = choose|j: int|
                        0 <= j < self.entries@.len() && (#[trigger] self.entries@[j]).0 == id;
                    lemma_entry_at(self.entries@, j);
                }
            }
        }
        ids
    }

    /// What to draw for each visible tile, in the order given. A tile that the
    /// cache does not know is drawn as a placeholder, like a loading one.
    pub fn draw_visible(&self, visible: &Vec<(TileId, ScreenPos)>) -> (draws: Vec<TileDraw>)
        requires
            self.wf(),
            forall|i: int| 0 <= i < visible@.len() ==> (#[trigger] visible@[i]).1.wf(),
        ensures
            draws@.len() == visible@.len(),
            forall|i: int|
                0 <= i < visible@.len() ==> #[trigger] draws@[i] == tile_draw(
                    if self@.contains_key(visible@[i].0) {
                        Some(self@[visible@[i].0])
                    } else {
                        None
                    },
                    visible@[i].1,
                ),
    {
        let mut draws: Vec<TileDraw> = Vec::new();
        let mut i: usize = 0;
        while i < visible.len()
            invariant
                self.wf(),
                i <= visible@.len(),
                draws@.len() == i,
                forall|k: int| 0 <= k < visible@.len() ==> (#[trigger] visible@[k]).1.wf(),
                forall|k: int|
                    0 <= k < i ==> #[trigger] draws@[k] == tile_draw(
                        if self@.contains_key(visible@[k].0) {
                            Some(self@[visible@[k].0])
                        } else {
                            None
                        },
                        visible@[k].1,
                    ),
            decreases visible@.len() - i,
        {
            assert(visible@[i as int].1.wf());
            draws.push(draw_tile(self, visible[i].0, visible[i].1));
            i = i + 1;
        }
        draws
    }
}

/// The ids of the loading entries among the first `n`, in order.
pub open spec fn loading_prefix(entries: Seq<(TileId, Tile)>, n: int) -> Seq<TileId>
    decreases n,
{
    if n <= 0 {
        Seq::empty()
    } else if entries[n - 1].1 is Loading {
        loading_prefix(entries, n - 1).push(entries[n - 1].0)
    } else {
        loading_prefix(entries, n - 1)
    }
}

/// The loading ids among the first `n` entries are the tiles among the first
/// `n` of the order that are loading in the map.
proof fn lemma_loading_among(entries: Seq<(TileId, Tile)>, n: int)
    requires
        distinct_ids(entries),
        0 <= n <= entries.len(),
    ensures
        loading_prefix(entries, n) == loading_among(entry_ids(entries), entries_map(entries), n),
    decreases n,
{
    if n > 0 {
        lemma_loading_among(entries, n - 1);
        lemma_entry_at(entries, n - 1);
    }
}

/// With distinct ids, the loading ids among the first `n` entries are distinct,
/// and are just the ids of the loading entries.
proof fn lemma_loading_prefix(entries: Seq<(TileId, Tile)>, n: int)
    requires
        distinct_ids(entries),
        0 <= n <= entries.len(),
    ensures
        loading_prefix(entries, n).no_duplicates(),
        forall|id: TileId|
            loading_prefix(entries, n).contains(id) <==> exists|j: int|
                0 <= j < n && (#[trigger] entries[j]).0 == id && entries[j].1 is Loading,
    decreases n,
{
    if n > 0 {
        lemma_loading_prefix(entries, n - 1);
        let before = loading_prefix(entries, n - 1);
        let now = loading_prefix(entries, n);
        let last = entries[n - 1];
        assert forall|id: TileId|
            now.contains(id) <==> exists|j: int|
                0 <= j < n && (#[trigger] entries[j]).0 == id && entries[j].1 is Loading by {
            if now.contains(id) {
                let k = choose|k: int| 0 <= k < now.len() && now[k] == id;
                if k < before.len() {
                    assert(before[k] == id);
                    assert(before.contains(id));
                } else {
                    assert(entries[n - 1].0 == id && entries[n - 1].1 is Loading);
                }
            }
            if exists|j: int|
                0 <= j < n && (#[trigger] entries[j]).0 == id && entries[j].1 is Loading {
                let j = choose|j: int|
                    0 <= j < n && (#[trigger] entries[j]).0 == id && entries[j].1 is Loading;
                if j < n - 1 {
                    assert(before.contains(id));
                    let k = choose|k: int| 0 <= k < before.len() && before[k] == id;
                    assert(now[k] == id);
                } else {
                    assert(now[now.len() - 1] == id);
                }
            }
        }
        if last.1 is Loading {
            assert(!before.contains(last.0)) by {
                if before.contains(last.0) {
                    let j = choose|j: int|
                        0 <= j < n - 1 && (#[trigger] entries[j]).0 == last.0
                            && entries[j].1 is Loading;
                    assert(entries[j].0 != entries[n - 1].0);
                }
            }
            assert forall|a: int, b: int|
                0 <= a < now.len() && 0 <= b < now.len() && a != b implies now[a] != now[b] by {
                if a < before.len() && b < before.len() {
                    assert(before[a] != before[b]);
                } else if a < before.len() {
                    assert(before.contains(before[a]));
                } else {
                    assert(before.contains(before[b]));
                }
            }
        }
    }
}

/// Makes sure that the cache knows `tile_id`. A tile that it did not know is
/// entered as loading, and its address is returned for the host to fetch; for a
/// tile that it knows, in whatever state, nothing is returned and nothing is
/// fetched.
pub fn load_tile<C: MapConfig>(tiles: &mut TileCache, config: &C, tile_id: TileId) -> (request: Option<String>)
    requires
        old(tiles).wf(),
        config.url_ready(&tile_id),
    ensures
        final(tiles).wf(),
        final(tiles)@ == ensured(old(tiles)@, seq![tile_id]),
        request is Some <==> !old(tiles)@.contains_key(tile_id),
        request matches Some(url) ==> config.is_url(&tile_id, url),
{
    let mut ids: Vec<TileId> = Vec::new();
    ids.push(tile_id);
    assert(ids@ =~= seq![tile_id]);
    let ghost known = tiles@.dom();
    let started = tiles.ensure_visible(&ids);
    proof {
        assert(ids@.drop_last() =~= Seq::<TileId>::empty());
        assert(ids@.last() == tile_id);
        assert(fresh_ids(known, ids@.drop_last()) =~= Seq::<TileId>::empty());
    }
    if started.len() > 0 {
        Some(config.tile_url(&tile_id))
    } else {
        None
    }
}

/// The ids of the placed tiles.
pub open spec fn tile_ids(placed: Seq<(TileId, ScreenPos)>) -> Seq<TileId> {
    placed.map_values(|t: (TileId, ScreenPos)| t.0)
}

/// The ids of the tiles that are asked for.
pub open spec fn request_ids(requests: Seq<(TileId, String)>) -> Seq<TileId> {
    requests.map_values(|r: (TileId, String)| r.0)
}

/// Makes sure that the cache knows every tile of `visible`. Each tile that it
/// did not know is entered as loading, and is added to `requests` with its
/// address, for the host to fetch.
pub fn request_visible<C: MapConfig>(
    tiles: &mut TileCache,
    config: &C,
    visible: &Vec<(TileId, ScreenPos)>,
    requests: &mut Vec<(TileId, String)>,
)
    requires
        old(tiles).wf(),
        forall|t: TileId| config.url_ready(&t),
    ensures
        final(tiles).wf(),
        final(tiles)@ == ensured(old(tiles)@, tile_ids(visible@)),
        final(requests)@.len() >= old(requests)@.len(),
        final(requests)@.take(old(requests)@.len() as int) == old(requests)@,
        request_ids(final(requests)@.skip(old(requests)@.len() as int)) == fresh_ids(
            old(tiles)@.dom(),
            tile_ids(visible@),
        ),
        forall|k: int|
            old(requests)@.len() <= k < final(requests)@.len() ==> !old(tiles)@.contains_key(
                (#[trigger] final(requests)@[k]).0,
            ) && config.is_url(&final(requests)@[k].0, final(requests)@[k].1),
{
    let ghost before = tiles@;
    let ghost asked = requests@;
    let ghost ids = tile_ids(visible@);
    let mut i: usize = 0;
    proof {
        assert(ids.take(0) =~= Seq::<TileId>::empty());
        assert(tiles@ =~= ensured(before, ids.take(0)));
        assert(requests@.take(asked.len() as int) =~= asked);
        assert(request_ids(requests@.skip(asked.len() as int)) =~= Seq::<TileId>::empty());
    }
    while i < visible.len()
        invariant
            tiles.wf(),
            forall|t: TileId| config.url_ready(&t),
            i <= visible@.len(),
            ids == tile_ids(visible@),
            tiles@ == ensured(before, ids.take(i as int)),
            request_ids(requests@.skip(asked.len() as int)) == fresh_ids(before.dom(), ids.take(i as int)),
            requests@.len() >= asked.len(),
            requests@.take(asked.len() as int) == asked,
            forall|k: int|
                asked.len() <= k < requests@.len() ==> !before.contains_key((#[trigger] requests@[k]).0)
                    && config.is_url(&requests@[k].0, requests@[k].1),
        decreases visible@.len() - i,
    {
        let tile_id: TileId = visible[i].0;
        let ghost queued = requests@;
        assert(config.url_ready(&tile_id));
        let request = load_tile(tiles, config, tile_id);
        proof {
            assert(ids[i as int] == tile_id);
            let seen = ids.take(i as int);
            let next = ids.take(i + 1);
            let one = seq![tile_id];
            assert forall|t: TileId| next.contains(t) <==> (seen.contains(t) || t == tile_id) by {
                if next.contains(t) {
                    let k = choose|k: int| 0 <= k < next.len() && next[k] == t;
                    if k < i {
                        assert(seen[k] == t);
                    }
                }
                if seen.contains(t) {
                    let k = choose|k: int| 0 <= k < seen.len() && seen[k] == t;
                    assert(next[k] == t);
                }
                assert(next[i as int] == tile_id);
            }
            assert(one[0] == tile_id);
            assert forall|t: TileId| one.contains(t) <==> t == tile_id by {
                if one.contains(t) {
                    let k = choose|k: int| 0 <= k < one.len() && one[k] == t;
                }
            }
            assert(tiles@ =~= ensured(before, next));
            assert(next.drop_last() =~= seen);
            assert(next.last() == tile_id);
        }
        if let Some(url) = request {
            requests.push((tile_id, url));
            proof {
                assert(request_ids(requests@.skip(asked.len() as int)) =~= request_ids(
                    queued.skip(asked.len() as int),
                ).push(tile_id));
                assert(requests@.take(asked.len() as int) =~= queued.take(asked.len() as int));
                assert forall|k: int| asked.len() <= k < requests@.len() implies !before.contains_key(
                    (#[trigger] requests@[k]).0,
                ) && config.is_url(&requests@[k].0, requests@[k].1) by {
                    if k < queued.len() {
                        assert(requests@[k] == queued[k]);
                    }
                }
            }
        }
        i = i + 1;
    }
    proof {
        assert(ids.take(visible@.len() as int) =~= ids);
    }
}

/// What to draw for the tile `tile_id` with its top-left corner at `tile_pos`.
pub fn draw_tile(tiles: &TileCache, tile_id: TileId, tile_pos: ScreenPos) -> (draw: TileDraw)
    requires
        tiles.wf(),
        tile_pos.wf(),
    ensures
        draw == tile_draw(
            if tiles@.contains_key(tile_id) {
                Some(tiles@[tile_id])
            } else {
                None
            },
            tile_pos,
        ),
{
    let rect = ScreenRect {
        min: tile_pos,
        max: ScreenPos { x: tile_pos.x + TILE_UNITS, y: tile_pos.y + TILE_UNITS },
    };
    match tiles.get(tile_id) {
        Some(Tile::Loaded(image)) => TileDraw::Image { rect, image: *image },
        Some(Tile::Failed(error)) => TileDraw::Broken { rect, error: error.clone() },
        _ => TileDraw::Placeholder { rect },
    }
}

/// With distinct ids, the map holds each entry under its id.
proof fn lemma_entry_at(entries: Seq<(TileId, Tile)>, i: int)
    requires
        distinct_ids(entries),
        0 <= i < entries.len(),
    ensures
        entries_map(entries).contains_key(entries[i].0),
        entries_map(entries)[entries[i].0] == entries[i].1,
{
    let id = entries[i].0;
    let c = choose|k: int| 0 <= k < entries.len() && (#[trigger] entries[k]).0 == id;
    assert(c == i);
}

/// Appending an entry for an unknown tile keeps the ids distinct and inserts
/// the entry into the map.
proof fn lemma_push_entry(entries: Seq<(TileId, Tile)>, id: TileId, state: Tile)
    requires
        distinct_ids(entries),
        forall|j: int| 0 <= j < entries.len() ==> (#[trigger] entries[j]).0 != id,
    ensures
        distinct_ids(entries.push((id, state))),
        entries_map(entries.push((id, state))) == entries_map(entries).insert(id, state),
{
    let after = entries.push((id, state));
    let n = entries.len() as int;
    assert(distinct_ids(after)) by {
        assert forall|i: int, j: int|
            0 <= i < after.len() && 0 <= j < after.len() && i != j implies (#[trigger] after[i]).0
            != (#[trigger] after[j]).0 by {
            if i < n && j < n {
                assert(after[i] == entries[i] && after[j] == entries[j]);
            } else if i < n {
                assert(after[i] == entries[i]);
            } else {
                assert(after[j] == entries[j]);
            }
        }
    }
    assert forall|t: TileId|
        entries_map(after).contains_key(t) <==> entries_map(entries).insert(
            id,
            state,
        ).contains_key(t) by {
        if entries_map(after).contains_key(t) {
            let k = choose|k: int| 0 <= k < after.len() && (#[trigger] after[k]).0 == t;
            if k < n {
                assert(entries[k].0 == t);
            }
        }
        if entries_map(entries).contains_key(t) {
            let k = choose|k: int| 0 <= k < entries.len() && (#[trigger] entries[k]).0 == t;
            assert(after[k].0 == t);
        }
        assert(after[n].0 == id);
    }
    assert forall|t: TileId| entries_map(after).contains_key(t) implies entries_map(after)[t]
        == entries_map(entries).insert(id, state)[t] by {
        let k = choose|k: int| 0 <= k < after.len() && (#[trigger] after[k]).0 == t;
        lemma_entry_at(after, k);
        if k < n {
            assert(after[k] == entries[k]);
            lemma_entry_at(entries, k);
        }
    }
    assert(entries_map(after) =~= entries_map(entries).insert(id, state));
}

/// Replacing the state of an entry keeps the ids distinct and updates the map.
proof fn lemma_update_entry(entries: Seq<(TileId, Tile)>, i: int, state: Tile)
    requires
        distinct_ids(entries),
        0 <= i < entries.len(),
    ensures
        distinct_ids(entries.update(i, (entries[i].0, state))),
        entries_map(entries.update(i, (entries[i].0, state))) == entries_map(entries).insert(
            entries[i].0,
            state,
        ),
{
    let id = entries[i].0;
    let after = entries.update(i, (id, state));
    assert(distinct_ids(after)) by {
        assert forall|a: int, b: int|
            0 <= a < after.len() && 0 <= b < after.len() && a != b implies (#[trigger] after[a]).0
            != (#[trigger] after[b]).0 by {
            assert(after[a].0 == entries[a].0 && after[b].0 == entries[b].0);
        }
    }
    assert forall|t: TileId|
        entries_map(after).contains_key(t) <==> entries_map(entries).insert(
            id,
            state,
        ).contains_key(t) by {
        if entries_map(after).contains_key(t) {
            let k = choose|k: int| 0 <= k < after.len() && (#[trigger] after[k]).0 == t;
            assert(entries[k].0 == t);
        }
        if entries_map(entries).contains_key(t) {
            let k = choose|k: int| 0 <= k < entries.len() && (#[trigger] entries[k]).0 == t;
            assert(after[k].0 == t);
        }
        assert(after[i].0 == id);
    }
    assert forall|t: TileId| entries_map(after).contains_key(t) implies entries_map(after)[t]
        == entries_map(entries).insert(id, state)[t] by {
        let k = choose|k: int| 0 <= k < after.len() && (#[trigger] after[k]).0 == t;
        lemma_entry_at(after, k);
        if k != i {
            assert(after[k] == entries[k]);
            lemma_entry_at(entries, k);
        }
    }
    assert(entries_map(after) =~= entries_map(entries).insert(id, state));
}

/// A frame asks for the fetch of a tile at most once, and only of a tile that
/// the cache does not know yet: so no tile ever has two fetches under way.
pub proof fn lemma_fetch_each_tile_once(known: Set<TileId>, ids: Seq<TileId>)
    ensures
        fresh_ids(known, ids).no_duplicates(),
        forall|id: TileId|
            fresh_ids(known, ids).contains(id) <==> (ids.contains(id) && !known.contains(id)),
    decreases ids.len(),
{
    if ids.len() > 0 {
        let init = ids.drop_last();
        let last = ids.last();
        lemma_fetch_each_tile_once(known, init);
        let before = fresh_ids(known, init);
        let now = fresh_ids(known, ids);
        assert forall|id: TileId| ids.contains(id) <==> (init.contains(id) || id == last) by {
            if ids.contains(id) {
                let k = choose|k: int| 0 <= k < ids.len() && ids[k] == id;
                if k < init.len() {
                    assert(init[k] == id);
                }
            }
            if init.contains(id) {
                let k = choose|k: int| 0 <= k < init.len() && init[k] == id;
                assert(ids[k] == id);
            }
            assert(ids[ids.len() - 1] == last);
        }
        if known.contains(last) || init.contains(last) {
        } else {
            assert forall|id: TileId| now.contains(id) <==> (before.contains(id) || id == last) by {
                if now.contains(id) {
                    let k = choose|k: int| 0 <= k < now.len() && now[k] == id;
                    if k < before.len() {
                        assert(before[k] == id);
                    }
                }
                if before.contains(id) {
                    let k = choose|k: int| 0 <= k < before.len() && before[k] == id;
                    assert(now[k] == id);
                }
                assert(now[now.len() - 1] == last);
            }
            assert forall|a: int, b: int|
                0 <= a < now.len() && 0 <= b < now.len() && a != b implies now[a] != now[b] by {
                if a < before.len() && b < before.len() {
                    assert(before[a] != before[b]);
                } else if a < before.len() {
                    assert(before.contains(before[a]));
                } else {
                    assert(before.contains(before[b]));
                }
            }
        }
    }
}

/// A tile that is loaded or has failed stays as it is, whatever is asked for
/// and however any fetch ends; in particular a failed tile is not fetched again.
pub proof fn lemma_settled_tiles_stay(
    m: Map<TileId, Tile>,
    id: TileId,
    ids: Seq<TileId>,
    other: TileId,
    outcome: FetchOutcome,
)
    requires
        m.contains_key(id),
        !(m[id] is Loading),
    ensures
        ensured(m, ids).contains_key(id) && ensured(m, ids)[id] == m[id],
        resolved(m, other, outcome).contains_key(id) && resolved(m, other, outcome)[id] == m[id],
        !fresh_ids(m.dom(), ids).contains(id),
{
    lemma_fetch_each_tile_once(m.dom(), ids);
}

/// The cache only grows: a tile that it knows, it knows after every operation,
/// and a loading tile is touched only by the end of its own fetch.
pub proof fn lemma_cache_only_grows(
    m: Map<TileId, Tile>,
    id: TileId,
    ids: Seq<TileId>,
    other: TileId,
    outcome: FetchOutcome,
)
    requires
        m.contains_key(id),
    ensures
        ensured(m, ids).contains_key(id) && ensured(m, ids)[id] == m[id],
        resolved(m, other, outcome).contains_key(id),
        other != id ==> resolved(m, other, outcome)[id] == m[id],
{
}

} // verus!
