use std::collections::HashMap;
use vstd::prelude::*;

use crate::geometry::{GridModel, TileBounds, TileGrid};
use crate::tileset::TilesetDescriptor;

verus! {

broadcast use vstd::std_specs::hash::group_hash_axioms;

/// The region of every tile of a grid, under the global id of the tile: the
/// tile in cell `i` has the global id `first_gid + i`. Ids past the largest
/// 32-bit number do not exist, so cells that would need one have no entry.
pub open spec fn dense_bounds(first_gid: u32, grid: GridModel) -> Map<u32, TileBounds> {
    Map::new(
        |gid: u32| first_gid <= gid && gid - first_gid < grid.tile_count(),
        |gid: u32| grid.bounds((gid - first_gid) as nat),
    )
}

/// What a tileset entry of the cache holds.
pub ghost struct TilesetModel<R> {
    /// Global id of the first tile of the set.
    pub base_gid: u32,
    /// What the GPU keeps for the set: its texture and what goes with it.
    pub resources: R,
    pub grid: GridModel,
    /// Region of each tile in the texture, by global id.
    pub bounds: Map<u32, TileBounds>,
}

impl<R> TilesetModel<R> {
    /// The index holds every cell of the grid, and nothing else.
    pub open spec fn consistent(self) -> bool {
        &&& self.grid.valid()
        &&& self.grid.fits_u32()
        &&& self.bounds == dense_bounds(self.base_gid, self.grid)
    }

    /// The entry that a supported tileset gets, once `resources` holds its
    /// texture.
    pub open spec fn of(tileset: TilesetDescriptor, resources: R) -> TilesetModel<R> {
        TilesetModel {
            base_gid: tileset.first_gid,
            resources,
            grid: tileset.grid_model(),
            bounds: dense_bounds(tileset.first_gid, tileset.grid_model()),
        }
    }
}

/// All that is kept of one tileset once its image is on the GPU: the GPU
/// resources themselves, of a type `R` that the caller picks, and the place
/// of every tile in the texture.
#[derive(Debug)]
pub struct TilesetTextureCache<R> {
    base_gid: u32,
    resources: R,
    grid: TileGrid,
    tile_bounds: HashMap<u32, TileBounds>,
}

impl<R> View for TilesetTextureCache<R> {
    type V = TilesetModel<R>;

    closed spec fn view(&self) -> TilesetModel<R> {
        TilesetModel {
            base_gid: self.base_gid,
            resources: self.resources,
            grid: self.grid@,
            bounds: self.tile_bounds@,
        }
    }
}

impl<R> TilesetTextureCache<R> {
    #[verifier::type_invariant]
    pub closed spec fn wf(self) -> bool {
        self@.consistent()
    }

    /// Indexes the tiles of `tileset` and takes charge of `resources`, which
    /// hold its texture.
    ///
    /// Every cell of the grid gets a region, whether or not the tileset
    /// describes the tile in it. A described tile is placed by its own id,
    /// not by its position in the list of descriptions, which is where the
    /// grid has it already; a description with an id past the grid adds
    /// nothing.
    pub fn new(tileset: &TilesetDescriptor, resources: R) -> (entry: Self)
        requires
            tileset.supported(),
        ensures
            entry@ == TilesetModel::of(*tileset, resources),
            entry@.consistent(),
            entry@.grid.stride_x() == tileset.tile_width + tileset.spacing,
            entry@.grid.stride_y() == tileset.tile_height + tileset.spacing,
    {
        let image = &tileset.images[0];
        let grid = TileGrid::with_strides(
            tileset.tile_width,
            tileset.tile_height,
            tileset.spacing,
            tileset.margin,
            image.width,
            image.height,
        );
        let mut tile_bounds = index_grid(tileset.first_gid, &grid);
        overlay_described(&mut tile_bounds, tileset, &grid);
        proof {
            let dense = dense_bounds(tileset.first_gid, grid@);
            assert forall|gid: u32| described_in_grid(*tileset, grid@, gid) implies tileset.first_gid
                <= gid && gid - tileset.first_gid < grid@.tile_count() by {}
            assert forall|gid: u32| tile_bounds@.contains_key(gid) <==> dense.contains_key(gid) by {}
            assert forall|gid: u32| dense.contains_key(gid) implies tile_bounds@[gid] == dense[gid] by {}
            assert(tile_bounds@ =~= dense);
        }
        TilesetTextureCache { base_gid: tileset.first_gid, resources, grid, tile_bounds }
    }

    /// Global id of the first tile of the set.
    pub fn base_gid(&self) -> (gid: u32)
        ensures
            gid == self@.base_gid,
            self@.consistent(),
    {
        proof {
            use_type_invariant(self);
        }
        self.base_gid
    }

    /// What the GPU keeps for the set.
    pub fn resources(&self) -> (resources: &R)
        ensures
            *resources == self@.resources,
    {
        &self.resources
    }

    /// The grid of the atlas.
    pub fn grid(&self) -> (grid: &TileGrid)
        ensures
            grid@ == self@.grid,
    {
        &self.grid
    }

    /// Region of each tile in the texture, by global id.
    pub fn tile_bounds(&self) -> (bounds: &HashMap<u32, TileBounds>)
        ensures
            bounds@ == self@.bounds,
            self@.consistent(),
    {
        proof {
            use_type_invariant(self);
        }
        &self.tile_bounds
    }

    /// Number of tiles that the index holds.
    pub fn len(&self) -> (n: usize)
        ensures
            n == self@.bounds.len(),
    {
        self.tile_bounds.len()
    }

    /// Region of the tile with global id `gid`; `None` where the id lies
    /// before the set or past the last cell of its grid.
    pub fn bounds(&self, gid: u32) -> (result: Option<TileBounds>)
        ensures
            self@.consistent(),
            result is Some <==> self@.bounds.contains_key(gid),
            result is Some <==> self@.base_gid <= gid && gid - self@.base_gid
                < self@.grid.tile_count(),
            result matches Some(b) ==> b == self@.bounds[gid] && b == self@.grid.bounds(
                (gid - self@.base_gid) as nat,
            ),
    {
        proof {
            use_type_invariant(self);
        }
        match self.tile_bounds.get(&gid) {
            Some(b) => Some(*b),
            None => None,
        }
    }
}

/// Fills an index with the region of every cell of `grid`.
fn index_grid(first_gid: u32, grid: &TileGrid) -> (bounds: HashMap<u32, TileBounds>)
    ensures
        bounds@ == dense_bounds(first_gid, grid@),
{
    let count: u64 = grid.tile_count();
    let room: u64 = u32::MAX as u64 - first_gid as u64 + 1;
    let limit: u64 = if count < room {
        count
    } else {
        room
    };
    let mut bounds: HashMap<u32, TileBounds> = HashMap::new();
    let mut index: u64 = 0;
    while index < limit
        invariant
            index <= limit,
            limit <= grid@.tile_count(),
            limit <= u32::MAX - first_gid + 1,
            bounds@ == Map::new(
                |gid: u32| first_gid <= gid && gid - first_gid < index,
                |gid: u32| grid@.bounds((gid - first_gid) as nat),
            ),
        decreases limit - index,
    {
        let gid: u32 = (first_gid as u64 + index) as u32;
        match grid.bounds(index) {
            Some(b) => {
                bounds.insert(gid, b);
            },
            None => {},
        }
        index += 1;
        assert(bounds@ =~= Map::new(
            |gid: u32| first_gid <= gid && gid - first_gid < index,
            |gid: u32| grid@.bounds((gid - first_gid) as nat),
        ));
    }
    assert(bounds@ =~= dense_bounds(first_gid, grid@));
    bounds
}

/// Whether `tileset` describes the tile with the global id `gid`, and the
/// grid has a cell for it.
spec fn described_in_grid(tileset: TilesetDescriptor, grid: GridModel, gid: u32) -> bool {
    exists|position: int|
        0 <= position < tileset.tiles@.len() && #[trigger] tileset.tiles@[position].id
            + tileset.first_gid == gid && tileset.tiles@[position].id < grid.tile_count()
}

/// Places the tiles that `tileset` describes, each in the cell that its own
/// id names, wherever it stands in the list of descriptions. A description
/// that names no cell of the grid places nothing.
fn overlay_described(
    bounds: &mut HashMap<u32, TileBounds>,
    tileset: &TilesetDescriptor,
    grid: &TileGrid,
)
    ensures
        forall|gid: u32| #[trigger]
            final(bounds)@.contains_key(gid) <==> old(bounds)@.contains_key(gid)
                || described_in_grid(*tileset, grid@, gid),
        forall|gid: u32|
            described_in_grid(*tileset, grid@, gid) ==> #[trigger] final(bounds)@[gid]
                == grid@.bounds((gid - tileset.first_gid) as nat),
        forall|gid: u32|
            old(bounds)@.contains_key(gid) && !described_in_grid(*tileset, grid@, gid)
                ==> #[trigger] final(bounds)@[gid] == old(bounds)@[gid],
{
    let ghost before = bounds@;
    let mut position: usize = 0;
    while position < tileset.tiles.len()
        invariant
            position <= tileset.tiles@.len(),
            forall|gid: u32| #[trigger]
                bounds@.contains_key(gid) <==> before.contains_key(gid) || placed(
                    *tileset,
                    grid@,
                    gid,
                    position as int,
                ),
            forall|gid: u32|
                placed(*tileset, grid@, gid, position as int) ==> #[trigger] bounds@[gid]
                    == grid@.bounds((gid - tileset.first_gid) as nat),
            forall|gid: u32|
                before.contains_key(gid) && !placed(*tileset, grid@, gid, position as int)
                    ==> #[trigger] bounds@[gid] == before[gid],
        decreases tileset.tiles@.len() - position,
    {
        let id: u32 = tileset.tiles[position].id;
        let ghost held = bounds@;
        let ghost hit = id + tileset.first_gid <= u32::MAX && id < grid@.tile_count();
        if id <= u32::MAX - tileset.first_gid {
            match grid.bounds(id as u64) {
                Some(b) => {
                    bounds.insert(tileset.first_gid + id, b);
                },
                None => {},
            }
        }
        proof {
            let next = position as int + 1;
            let key = (id + tileset.first_gid) as u32;
            assert(hit ==> bounds@ == held.insert(key, grid@.bounds(id as nat)));
            assert(!hit ==> bounds@ == held);
            assert forall|gid: u32|
                placed(*tileset, grid@, gid, next) <==> placed(
                    *tileset,
                    grid@,
                    gid,
                    position as int,
                ) || (hit && gid == key) by {
                if placed(*tileset, grid@, gid, next) {
                    let p = choose|p: int|
                        0 <= p < next && #[trigger] tileset.tiles@[p].id + tileset.first_gid == gid
                            && tileset.tiles@[p].id < grid@.tile_count();
                    if p < position {
                        assert(placed(*tileset, grid@, gid, position as int));
                    }
                }
                if placed(*tileset, grid@, gid, position as int) {
                    let p = choose|p: int|
                        0 <= p < position && #[trigger] tileset.tiles@[p].id + tileset.first_gid
                            == gid && tileset.tiles@[p].id < grid@.tile_count();
                    assert(0 <= p < next);
                }
                if hit && gid == key {
                    assert(tileset.tiles@[position as int].id + tileset.first_gid == gid);
                }
            }
            assert forall|gid: u32| #[trigger]
                bounds@.contains_key(gid) <==> before.contains_key(gid) || placed(
                    *tileset,
                    grid@,
                    gid,
                    next,
                ) by {
                assert(held.contains_key(gid) <==> before.contains_key(gid) || placed(
                    *tileset,
                    grid@,
                    gid,
                    position as int,
                ));
            }
            assert forall|gid: u32| placed(*tileset, grid@, gid, next) implies #[trigger] bounds@[gid]
                == grid@.bounds((gid - tileset.first_gid) as nat) by {
                if !(hit && gid == key) {
                    assert(placed(*tileset, grid@, gid, position as int));
                    assert(held[gid] == grid@.bounds((gid - tileset.first_gid) as nat));
                }
            }
            assert forall|gid: u32|
                before.contains_key(gid) && !placed(
                    *tileset,
                    grid@,
                    gid,
                    next,
                ) implies #[trigger] bounds@[gid] == before[gid] by {
                assert(!placed(*tileset, grid@, gid, position as int));
                assert(held[gid] == before[gid]);
            }
        }
        position += 1;
    }
    proof {
        assert forall|gid: u32|
            placed(*tileset, grid@, gid, tileset.tiles@.len() as int) <==> described_in_grid(
                *tileset,
                grid@,
                gid,
            ) by {}
    }
}

/// Whether one of the first `count` descriptions of `tileset` names the cell
/// of the tile `gid`.
spec fn placed(tileset: TilesetDescriptor, grid: GridModel, gid: u32, count: int) -> bool {
    exists|position: int|
        0 <= position < count && #[trigger] tileset.tiles@[position].id + tileset.first_gid == gid
            && tileset.tiles@[position].id < grid.tile_count()
}

} // verus!
