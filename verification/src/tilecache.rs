use std::collections::HashMap;
use vstd::prelude::*;

use crate::error::TileCacheError;
use crate::geometry::TileBounds;
use crate::tileset::{MapDescription, TilesetDescriptor};
use crate::tiletex::{TilesetModel, TilesetTextureCache};

verus! {

broadcast use vstd::std_specs::hash::group_hash_axioms;

/// What a cache holds: the entry of each tileset, under the global id of the
/// first tile of the set.
pub type CacheModel<R> = Map<u32, TilesetModel<R>>;

/// Every entry is filed under its own first global id, and holds the whole
/// grid of its tileset.
pub open spec fn well_keyed<R>(cache: CacheModel<R>) -> bool {
    forall|first_gid: u32| #[trigger]
        cache.contains_key(first_gid) ==> cache[first_gid].base_gid == first_gid
            && cache[first_gid].consistent()
}

/// Whether the tileset that starts at `first_gid` owns the tile `gid`: it is
/// the tileset of the cache with the greatest first global id that is not
/// greater than `gid`.
pub open spec fn is_owner<R>(cache: CacheModel<R>, first_gid: u32, gid: u32) -> bool {
    &&& cache.contains_key(first_gid)
    &&& first_gid <= gid
    &&& forall|other: u32| #[trigger] cache.contains_key(other) && other <= gid ==> other <= first_gid
}

/// First global id of the tileset that owns the tile `gid`, if any does.
pub open spec fn owner<R>(cache: CacheModel<R>, gid: u32) -> Option<u32> {
    if exists|first_gid: u32| is_owner(cache, first_gid, gid) {
        Some(choose|first_gid: u32| is_owner(cache, first_gid, gid))
    } else {
        None
    }
}

/// Where the tile `gid` is found: the first global id of its tileset and its
/// region in the texture of that tileset.
///
/// `UnknownTile` where no tileset owns the id, `MissingTileGeometry` where
/// the owner has no cell for it.
pub open spec fn resolve<R>(cache: CacheModel<R>, gid: u32) -> Result<
    (u32, TileBounds),
    TileCacheError,
> {
    match owner(cache, gid) {
        None => Err(TileCacheError::UnknownTile),
        Some(first_gid) => if cache[first_gid].bounds.contains_key(gid) {
            Ok((first_gid, cache[first_gid].bounds[gid]))
        } else {
            Err(TileCacheError::MissingTileGeometry)
        },
    }
}

/// The cache after the first `count` tilesets of a map have gone in, each
/// with its resources, in the map's order. A tileset that starts where an
/// earlier one started takes its place.
pub open spec fn built_from<R>(
    tilesets: Seq<TilesetDescriptor>,
    resources: Seq<R>,
    count: nat,
) -> CacheModel<R>
    decreases count,
{
    if count == 0 {
        Map::empty()
    } else {
        built_from(tilesets, resources, (count - 1) as nat).insert(
            tilesets[count - 1].first_gid,
            TilesetModel::of(tilesets[count - 1], resources[count - 1]),
        )
    }
}

/// A tile has at most one owner.
pub proof fn lemma_owner_unique<R>(cache: CacheModel<R>, first_gid: u32, gid: u32)
    requires
        is_owner(cache, first_gid, gid),
    ensures
        owner(cache, gid) == Some(first_gid),
{
    let chosen = choose|k: u32| is_owner(cache, k, gid);
    assert(is_owner(cache, chosen, gid));
    assert(cache.contains_key(chosen) && chosen <= gid);
    assert(cache.contains_key(first_gid) && first_gid <= gid);
}

/// A tile below the first tile of every tileset has no owner.
pub proof fn lemma_no_owner<R>(cache: CacheModel<R>, gid: u32)
    requires
        forall|first_gid: u32| #[trigger] cache.contains_key(first_gid) ==> gid < first_gid,
    ensures
        owner(cache, gid) is None,
        resolve(cache, gid) == Err::<(u32, TileBounds), TileCacheError>(TileCacheError::UnknownTile),
{
}

/// Round trip: the id `first_gid + local_id` of a tile of a tileset of the
/// cache, taken before the next tileset starts, resolves to that tileset; to
/// the region of cell `local_id` of its grid where the grid has such a cell,
/// and to `MissingTileGeometry` where it has not.
pub proof fn lemma_round_trip<R>(cache: CacheModel<R>, first_gid: u32, local_id: nat)
    requires
        well_keyed(cache),
        cache.contains_key(first_gid),
        first_gid + local_id <= u32::MAX,
        forall|other: u32| #[trigger]
            cache.contains_key(other) ==> other <= first_gid || first_gid + local_id < other,
    ensures
        owner(cache, (first_gid + local_id) as u32) == Some(first_gid),
        local_id < cache[first_gid].grid.tile_count() ==> resolve(
            cache,
            (first_gid + local_id) as u32,
        ) == Ok::<(u32, TileBounds), TileCacheError>(
            (first_gid, cache[first_gid].grid.bounds(local_id)),
        ),
        local_id >= cache[first_gid].grid.tile_count() ==> resolve(
            cache,
            (first_gid + local_id) as u32,
        ) == Err::<(u32, TileBounds), TileCacheError>(TileCacheError::MissingTileGeometry),
{
    let gid = (first_gid + local_id) as u32;
    assert(is_owner(cache, first_gid, gid));
    lemma_owner_unique(cache, first_gid, gid);
}

/// A cache built from a map has an entry for a tileset exactly where the map
/// has a tileset that starts there.
pub proof fn lemma_built_keys<R>(
    tilesets: Seq<TilesetDescriptor>,
    resources: Seq<R>,
    count: nat,
    first_gid: u32,
)
    ensures
        built_from(tilesets, resources, count).contains_key(first_gid) <==> exists|index: int|
            0 <= index < count && #[trigger] tilesets[index].first_gid == first_gid,
        built_from(tilesets, resources, count).dom().finite(),
    decreases count,
{
    if count > 0 {
        lemma_built_keys(tilesets, resources, (count - 1) as nat, first_gid);
        if tilesets[count - 1].first_gid == first_gid {
        } else if built_from(tilesets, resources, (count - 1) as nat).contains_key(first_gid) {
            let index = choose|index: int|
                0 <= index < count - 1 && #[trigger] tilesets[index].first_gid == first_gid;
            assert(0 <= index < count && tilesets[index].first_gid == first_gid);
        }
    }
}

/// A cache built from a map holds, for tileset `index` of the map, the entry
/// of that tileset with its resources, unless a later tileset of the map
/// starts at the same global id.
pub proof fn lemma_built_entry<R>(
    tilesets: Seq<TilesetDescriptor>,
    resources: Seq<R>,
    count: nat,
    index: int,
)
    requires
        0 <= index < count,
        forall|later: int|
            index < later < count ==> #[trigger] tilesets[later].first_gid
                != tilesets[index].first_gid,
    ensures
        built_from(tilesets, resources, count).contains_key(tilesets[index].first_gid),
        built_from(tilesets, resources, count)[tilesets[index].first_gid] == TilesetModel::of(
            tilesets[index],
            resources[index],
        ),
    decreases count,
{
    if index < count - 1 {
        assert(tilesets[count - 1].first_gid != tilesets[index].first_gid);
        lemma_built_entry(tilesets, resources, (count - 1) as nat, index);
    }
}

/// A cache built from supported tilesets is well keyed.
pub proof fn lemma_built_well_keyed<R>(
    tilesets: Seq<TilesetDescriptor>,
    resources: Seq<R>,
    count: nat,
)
    requires
        count <= tilesets.len(),
        forall|index: int| 0 <= index < count ==> #[trigger] tilesets[index].supported(),
    ensures
        well_keyed(built_from(tilesets, resources, count)),
    decreases count,
{
    if count > 0 {
        lemma_built_well_keyed(tilesets, resources, (count - 1) as nat);
        assert(tilesets[count - 1].supported());
    }
}

/// The entries of a cache, each by its view.
spec fn views<R>(tilesets: Map<u32, TilesetTextureCache<R>>) -> CacheModel<R> {
    Map::new(|k: u32| tilesets.contains_key(k), |k: u32| tilesets[k]@)
}

/// Each key is less than the next.
pub open spec fn ascending(keys: Seq<u32>) -> bool {
    forall|i: int, j: int| 0 <= i < j < keys.len() ==> keys[i] < keys[j]
}

/// The tilesets of one map on the GPU, and the place of every tile in their
/// textures. `R` is what the caller keeps on the GPU for one tileset.
#[derive(Debug)]
pub struct GpuTileCache<R> {
    tilesets: HashMap<u32, TilesetTextureCache<R>>,
    /// The keys of `tilesets`, in ascending order.
    first_gids: Vec<u32>,
}

impl<R> View for GpuTileCache<R> {
    type V = CacheModel<R>;

    closed spec fn view(&self) -> CacheModel<R> {
        views(self.tilesets@)
    }
}

impl<R> GpuTileCache<R> {
    #[verifier::type_invariant]
    pub closed spec fn wf(self) -> bool {
        &&& ascending(self.first_gids@)
        &&& forall|k: u32| self.tilesets@.contains_key(k) <==> self.first_gids@.contains(k)
        &&& well_keyed(views(self.tilesets@))
    }

    /// Builds the cache of `map`. `resources` holds, for each tileset of the
    /// map and in the map's order, what the GPU keeps for it.
    ///
    /// All or nothing: where the map has a tileset that a cache cannot hold,
    /// no cache is made, the resources are let go, and the error is that of
    /// the first such tileset.
    pub fn new(map: &MapDescription, resources: Vec<R>) -> (result: Result<Self, TileCacheError>)
        requires
            resources@.len() == map.tilesets@.len(),
        ensures
            result is Ok <==> map.supported(),
            result matches Ok(cache) ==> cache@ == built_from(
                map.tilesets@,
                resources@,
                map.tilesets@.len(),
            ),
            result matches Ok(cache) ==> well_keyed(cache@),
            result matches Err(e) ==> exists|index: int|
                map.first_defect_at(index) && #[trigger] map.tilesets@[index].defect() == Some(e),
    {
        match map.validate() {
            Ok(_) => {},
            Err(e) => {
                return Err(e);
            },
        }
        let ghost given = resources@;
        let mut tilesets: HashMap<u32, TilesetTextureCache<R>> = HashMap::new();
        let mut first_gids: Vec<u32> = Vec::new();
        let total: usize = map.tilesets.len();
        let mut index: usize = 0;
        assert(views(tilesets@) =~= built_from(map.tilesets@, given, 0));
        for held in it: resources
            invariant
                it.seq() == given,
                given.len() == total == map.tilesets@.len(),
                index == it.index(),
                map.supported(),
                ascending(first_gids@),
                forall|k: u32| tilesets@.contains_key(k) <==> first_gids@.contains(k),
                views(tilesets@) == built_from(map.tilesets@, given, index as nat),
        {
            let tileset = &map.tilesets[index];
            assert(tileset.supported());
            let entry = TilesetTextureCache::new(tileset, held);
            let replaced = tilesets.insert(tileset.first_gid, entry);
            if replaced.is_none() {
                file_key(&mut first_gids, tileset.first_gid);
            }
            index += 1;
            assert(views(tilesets@) =~= built_from(map.tilesets@, given, index as nat));
        }
        proof {
            lemma_built_well_keyed(map.tilesets@, given, map.tilesets@.len());
        }
        Ok(GpuTileCache { tilesets, first_gids })
    }

    /// Number of tilesets in the cache.
    pub fn len(&self) -> (n: usize)
        ensures
            n == self@.len(),
            well_keyed(self@),
    {
        proof {
            use_type_invariant(self);
            assert(self@.dom() =~= self.tilesets@.dom());
        }
        self.tilesets.len()
    }

    /// The first global ids of the tilesets of the cache, in ascending order.
    pub fn first_gids(&self) -> (gids: &Vec<u32>)
        ensures
            ascending(gids@),
            forall|first_gid: u32| self@.contains_key(first_gid) <==> gids@.contains(first_gid),
    {
        proof {
            use_type_invariant(self);
        }
        &self.first_gids
    }

    /// The tileset that starts at `first_gid`.
    pub fn tileset(&self, first_gid: u32) -> (result: Option<&TilesetTextureCache<R>>)
        ensures
            well_keyed(self@),
            result is Some <==> self@.contains_key(first_gid),
            result matches Some(entry) ==> entry@ == self@[first_gid],
    {
        proof {
            use_type_invariant(self);
        }
        self.tilesets.get(&first_gid)
    }

    /// The tileset that the tile `gid` belongs to: the one with the greatest
    /// first global id that is not greater than `gid`. `None` where every
    /// tileset starts above `gid`.
    pub fn owner(&self, gid: u32) -> (result: Option<&TilesetTextureCache<R>>)
        ensures
            well_keyed(self@),
            result is Some <==> owner(self@, gid) is Some,
            result is None <==> forall|first_gid: u32| #[trigger]
                self@.contains_key(first_gid) ==> gid < first_gid,
            result matches Some(entry) ==> owner(self@, gid) == Some(entry@.base_gid),
            result matches Some(entry) ==> is_owner(self@, entry@.base_gid, gid),
            result matches Some(entry) ==> entry@ == self@[entry@.base_gid],
    {
        proof {
            use_type_invariant(self);
        }
        let after: usize = upper_bound(&self.first_gids, gid);
        if after == 0 {
            proof {
                assert forall|first_gid: u32| #[trigger]
                    self@.contains_key(first_gid) implies gid < first_gid by {
                    assert(self.first_gids@.contains(first_gid));
                }
                lemma_no_owner(self@, gid);
            }
            return None;
        }
        let first_gid: u32 = self.first_gids[after - 1];
        proof {
            assert(self.first_gids@.contains(first_gid));
            assert forall|other: u32| #[trigger]
                self@.contains_key(other) && other <= gid implies other <= first_gid by {
                assert(self.first_gids@.contains(other));
                let i = choose|i: int| 0 <= i < self.first_gids@.len() && self.first_gids@[i] == other;
                if i >= after {
                    assert(self.first_gids@[i] > gid);
                } else if i < after - 1 {
                    assert(self.first_gids@[i] < self.first_gids@[after - 1]);
                }
            }
            assert(is_owner(self@, first_gid, gid));
            lemma_owner_unique(self@, first_gid, gid);
        }
        self.tilesets.get(&first_gid)
    }

    /// Finds the tile `gid`: the tileset that it belongs to, and its region
    /// in the texture of that tileset.
    ///
    /// Fails with `UnknownTile` where every tileset starts above `gid`, and
    /// with `MissingTileGeometry` where the tileset that `gid` belongs to
    /// has no cell for it.
    pub fn lookup(&self, gid: u32) -> (result: Result<
        (&TilesetTextureCache<R>, TileBounds),
        TileCacheError,
    >)
        ensures
            well_keyed(self@),
            resolve(self@, gid) == (match result {
                Ok((entry, bounds)) => Ok((entry@.base_gid, bounds)),
                Err(e) => Err(e),
            }),
            result matches Ok((entry, _)) ==> entry@ == self@[entry@.base_gid],
    {
        match self.owner(gid) {
            None => Err(TileCacheError::UnknownTile),
            Some(entry) => match entry.bounds(gid) {
                Some(bounds) => Ok((entry, bounds)),
                None => Err(TileCacheError::MissingTileGeometry),
            },
        }
    }
}

/// Puts a new key in its place among the keys.
fn file_key(keys: &mut Vec<u32>, key: u32)
    requires
        ascending(old(keys)@),
        !old(keys)@.contains(key),
    ensures
        ascending(final(keys)@),
        forall|k: u32| final(keys)@.contains(k) <==> old(keys)@.contains(k) || k == key,
{
    let at: usize = upper_bound(keys, key);
    let ghost before = keys@;
    keys.insert(at, key);
    proof {
        assert forall|i: int, j: int| 0 <= i < j < keys@.len() implies keys@[i] < keys@[j] by {
            if i < at && j > at {
                assert(before[i] <= key);
                assert(before[j - 1] > key);
            } else if j == at as int {
                assert(before[i] <= key);
                assert(before.contains(before[i]));
            }
        }
        assert forall|k: u32| keys@.contains(k) <==> before.contains(k) || k == key by {
            if k == key {
                assert(keys@[at as int] == k);
            } else if before.contains(k) {
                let i = choose|i: int| 0 <= i < before.len() && before[i] == k;
                if i < at {
                    assert(keys@[i] == k);
                } else {
                    assert(keys@[i + 1] == k);
                }
            } else if keys@.contains(k) {
                let i = choose|i: int| 0 <= i < keys@.len() && keys@[i] == k;
                if i < at {
                    assert(before[i] == k);
                } else {
                    assert(before[i - 1] == k);
                }
            }
        }
    }
}

/// Number of keys that are not greater than `gid`.
fn upper_bound(keys: &Vec<u32>, gid: u32) -> (after: usize)
    requires
        ascending(keys@),
    ensures
        after <= keys@.len(),
        forall|i: int| 0 <= i < after ==> keys@[i] <= gid,
        forall|i: int| after <= i < keys@.len() ==> keys@[i] > gid,
{
    let mut low: usize = 0;
    let mut high: usize = keys.len();
    while low < high
        invariant
            low <= high <= keys@.len(),
            ascending(keys@),
            forall|i: int| 0 <= i < low ==> keys@[i] <= gid,
            forall|i: int| high <= i < keys@.len() ==> keys@[i] > gid,
        decreases high - low,
    {
        let middle: usize = low + (high - low) / 2;
        if keys[middle] <= gid {
            low = middle + 1;
        } else {
            high = middle;
        }
    }
    low
}

} // verus!
