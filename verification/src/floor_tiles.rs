//! Which atlas cells draw a tile of the dungeon floor, and where markers stand.
use vstd::prelude::*;
use smallvec::SmallVec;
use crate::directions::Coord;

verus! {

/// The number of tile-map layers a floor is drawn on.
pub const TILE_LAYERS: usize = 4;

/// A cell of the tile atlas, `(x, y)`; `(-1, -1)` draws nothing.
pub type AtlasCoord = (i32, i32);

/// The atlas cell that draws nothing.
pub open spec fn spec_no_atlas() -> AtlasCoord {
    (-1i32, -1i32)
}

/// The layers of atlas cells drawn on one tile, lowest first, held in a
/// `SmallVec` with room for the map's layers inline.
#[verifier::external_body]
pub struct AtlasCoordsForTile {
    items: SmallVec<[AtlasCoord; 4]>,
}

/// The items of a list of atlas cells, in order.
pub uninterp spec fn atlas_items(v: AtlasCoordsForTile) -> Seq<AtlasCoord>;

/// `SmallVec::new`: an empty vector.
#[verifier::external_body]
fn atlas_coords_new() -> (res: AtlasCoordsForTile)
    ensures
        atlas_items(res) == Seq::<AtlasCoord>::empty(),
{
    AtlasCoordsForTile { items: SmallVec::new() }
}

/// `SmallVec::push`: appends an item. It panics only where the grown capacity
/// overflows `usize`, which `requires` rules out with a far smaller bound.
#[verifier::external_body]
fn atlas_coords_push(v: &mut AtlasCoordsForTile, item: AtlasCoord)
    requires
        atlas_items(*old(v)).len() < 0x4000_0000,
    ensures
        atlas_items(*final(v)) == atlas_items(*old(v)).push(item),
{
    v.items.push(item)
}

/// `SmallVec::len`: the number of items.
#[verifier::external_body]
fn atlas_coords_len(v: &AtlasCoordsForTile) -> (res: usize)
    ensures
        res == atlas_items(*v).len(),
{
    v.items.len()
}

/// Indexing a `SmallVec`: the item at `i`, which must exist.
#[verifier::external_body]
fn atlas_coords_get(v: &AtlasCoordsForTile, i: usize) -> (res: AtlasCoord)
    requires
        i < atlas_items(*v).len(),
    ensures
        res == atlas_items(*v)[i as int],
{
    v.items[i]
}

impl AtlasCoordsForTile {
    /// The atlas cells, lowest layer first.
    pub fn to_vec(&self) -> (res: Vec<AtlasCoord>)
        ensures
            res@ == atlas_items(*self),
    {
        let n = atlas_coords_len(self);
        let mut res: Vec<AtlasCoord> = Vec::new();
        let mut i: usize = 0;
        while i < n
            invariant
                i <= n,
                n == atlas_items(*self).len(),
                res@ == atlas_items(*self).take(i as int),
            decreases n - i,
        {
            res.push(atlas_coords_get(self, i));
            assert(res@ =~= atlas_items(*self).take(i as int + 1));
            i = i + 1;
        }
        assert(atlas_items(*self).take(n as int) =~= atlas_items(*self));
        res
    }
}

/// How an open tile is used.
#[derive(Clone, Copy, Debug, PartialEq, Eq, Structural)]
pub enum OpenType {
    Hallway,
    Room,
}

/// What stands on a tile.
#[derive(Clone, Copy, Debug, PartialEq, Eq, Structural)]
pub enum TileKind {
    Filled,
    Open(OpenType),
    Door { open: bool, pitoned: bool },
}

/// The atlas cells a floor is drawn with, as set in the scene.
#[derive(Clone, Copy, Debug)]
pub struct AtlasConfig {
    pub wall: AtlasCoord,
    pub hallway: AtlasCoord,
    pub room: AtlasCoord,
    pub closed_door: AtlasCoord,
    pub open_door: AtlasCoord,
    pub door_pitoned: AtlasCoord,
    pub stairs_up: AtlasCoord,
    pub stairs_down: AtlasCoord,
}

/// Every cell of a fresh scene draws nothing until the scene sets it.
pub fn default_atlas_config() -> (res: AtlasConfig)
    ensures
        res.wall == spec_no_atlas() && res.hallway == spec_no_atlas() && res.room == spec_no_atlas()
            && res.closed_door == spec_no_atlas() && res.open_door == spec_no_atlas()
            && res.door_pitoned == spec_no_atlas() && res.stairs_up == spec_no_atlas()
            && res.stairs_down == spec_no_atlas(),
{
    AtlasConfig {
        wall: (-1, -1),
        hallway: (-1, -1),
        room: (-1, -1),
        closed_door: (-1, -1),
        open_door: (-1, -1),
        door_pitoned: (-1, -1),
        stairs_up: (-1, -1),
        stairs_down: (-1, -1),
    }
}

/// The single atlas cell for a tile: nothing where there is no tile, the stairs
/// where the stairs are, else the cell of the tile's kind.
pub open spec fn spec_atlas_coord(config: AtlasConfig, stairs_up: Coord, stairs_down: Coord, coord: Coord, tile: Option<TileKind>) -> AtlasCoord {
    match tile {
        None => spec_no_atlas(),
        Some(kind) => if stairs_up == coord {
            config.stairs_up
        } else if stairs_down == coord {
            config.stairs_down
        } else {
            match kind {
                TileKind::Filled => config.wall,
                TileKind::Open(OpenType::Hallway) => config.hallway,
                TileKind::Open(OpenType::Room) => config.room,
                TileKind::Door { open, pitoned: _ } => if open { config.open_door } else { config.closed_door },
            }
        },
    }
}

/// The layers of atlas cells for a tile: as `spec_atlas_coord`, and a pitoned
/// door carries the piton on a second layer.
pub open spec fn spec_atlas_coords(config: AtlasConfig, stairs_up: Coord, stairs_down: Coord, coord: Coord, tile: Option<TileKind>) -> Seq<AtlasCoord> {
    let base = spec_atlas_coord(config, stairs_up, stairs_down, coord, tile);
    match tile {
        Some(TileKind::Door { open: _, pitoned: true }) if stairs_up != coord && stairs_down != coord =>
            seq![base, config.door_pitoned],
        _ => seq![base],
    }
}

/// The atlas cell that draws a tile on the single-layer floor map.
pub fn get_atlas_coord_for_tile(
    config: &AtlasConfig,
    stairs_up: Coord,
    stairs_down: Coord,
    coord: Coord,
    tile: Option<TileKind>,
) -> (res: AtlasCoord)
    ensures
        res == spec_atlas_coord(*config, stairs_up, stairs_down, coord, tile),
{
    match tile {
        None => (-1, -1),
        Some(kind) => {
            if stairs_up == coord {
                config.stairs_up
            } else if stairs_down == coord {
                config.stairs_down
            } else {
                match kind {
                    TileKind::Filled => config.wall,
                    TileKind::Open(OpenType::Hallway) => config.hallway,
                    TileKind::Open(OpenType::Room) => config.room,
                    TileKind::Door { open, pitoned: _ } => {
                        if open {
                            config.open_door
                        } else {
                            config.closed_door
                        }
                    },
                }
            }
        },
    }
}

/// The layers of atlas cells that draw a tile on the layered floor map.
pub fn get_atlas_coords_for_tile(
    config: &AtlasConfig,
    stairs_up: Coord,
    stairs_down: Coord,
    coord: Coord,
    tile: Option<TileKind>,
) -> (res: AtlasCoordsForTile)
    ensures
        atlas_items(res) == spec_atlas_coords(*config, stairs_up, stairs_down, coord, tile),
        1 <= atlas_items(res).len() <= 2,
{
    let base = get_atlas_coord_for_tile(config, stairs_up, stairs_down, coord, tile);
    let mut layers = atlas_coords_new();
    atlas_coords_push(&mut layers, base);
    match tile {
        Some(TileKind::Door { open: _, pitoned: true }) => {
            if stairs_up != coord && stairs_down != coord {
                atlas_coords_push(&mut layers, config.door_pitoned);
            }
        },
        _ => {},
    }
    assert(atlas_items(layers) =~= spec_atlas_coords(*config, stairs_up, stairs_down, coord, tile));
    layers
}

/// One write to a layer of the tile map: the atlas cell to draw, or `None` to clear it.
#[derive(Clone, Copy, Debug)]
pub struct LayerWrite {
    pub layer: usize,
    pub cell: Option<AtlasCoord>,
}

/// The writes that draw one tile: each of the map's layers in turn gets the
/// tile's cell for that layer or is cleared, then each cell of the tile is
/// written once more on its own layer.
pub open spec fn spec_layer_writes(coords: Seq<AtlasCoord>) -> Seq<LayerWrite> {
    Seq::new(TILE_LAYERS as nat, |l: int| LayerWrite {
        layer: l as usize,
        cell: if l < coords.len() { Some(coords[l]) } else { None },
    }) + Seq::new(coords.len(), |l: int| LayerWrite { layer: l as usize, cell: Some(coords[l]) })
}

/// The writes, in order, that draw a tile with the given layers of atlas cells.
pub fn layer_writes(coords: &AtlasCoordsForTile) -> (res: Vec<LayerWrite>)
    ensures
        res@ == spec_layer_writes(atlas_items(*coords)),
{
    let n = atlas_coords_len(coords);
    let mut res: Vec<LayerWrite> = Vec::new();
    let mut layer: usize = 0;
    while layer < TILE_LAYERS
        invariant
            layer <= TILE_LAYERS,
            n == atlas_items(*coords).len(),
            res@.len() == layer,
            forall|l: int| 0 <= l < layer ==> #[trigger] res@[l] == spec_layer_writes(atlas_items(*coords))[l],
        decreases TILE_LAYERS - layer,
    {
        if layer < n {
            res.push(LayerWrite { layer, cell: Some(atlas_coords_get(coords, layer)) });
        } else {
            res.push(LayerWrite { layer, cell: None });
        }
        layer = layer + 1;
    }
    let mut i: usize = 0;
    while i < n
        invariant
            i <= n,
            n == atlas_items(*coords).len(),
            res@.len() == TILE_LAYERS + i,
            forall|l: int| 0 <= l < TILE_LAYERS + i ==> #[trigger] res@[l] == spec_layer_writes(atlas_items(*coords))[l],
        decreases n - i,
    {
        res.push(LayerWrite { layer: i, cell: Some(atlas_coords_get(coords, i)) });
        i = i + 1;
    }
    assert(res@ =~= spec_layer_writes(atlas_items(*coords)));
    res
}

/// A tile is never drawn with more layers than the map has.
pub proof fn lemma_tile_fits_layers(config: AtlasConfig, stairs_up: Coord, stairs_down: Coord, coord: Coord, tile: Option<TileKind>)
    ensures
        spec_atlas_coords(config, stairs_up, stairs_down, coord, tile).len() <= TILE_LAYERS,
{
}

/// A tile on neither stairs coordinate is drawn with the cell of its own kind;
/// the stairs cells are drawn exactly on the stairs' own tiles (up first, where
/// both stand on one tile); where there is no tile nothing is drawn.
pub proof fn lemma_atlas_cell_by_kind(config: AtlasConfig, stairs_up: Coord, stairs_down: Coord, coord: Coord, tile: Option<TileKind>)
    ensures
        tile is None ==> spec_atlas_coord(config, stairs_up, stairs_down, coord, tile) == (-1i32, -1i32),
        tile is Some && coord == stairs_up ==> spec_atlas_coord(config, stairs_up, stairs_down, coord, tile) == config.stairs_up,
        tile is Some && coord != stairs_up && coord == stairs_down
            ==> spec_atlas_coord(config, stairs_up, stairs_down, coord, tile) == config.stairs_down,
        coord != stairs_up && coord != stairs_down ==> {
            let cell = spec_atlas_coord(config, stairs_up, stairs_down, coord, tile);
            &&& tile == Some(TileKind::Filled) ==> cell == config.wall
            &&& tile == Some(TileKind::Open(OpenType::Hallway)) ==> cell == config.hallway
            &&& tile == Some(TileKind::Open(OpenType::Room)) ==> cell == config.room
            &&& (tile matches Some(TileKind::Door { open: true, .. })) ==> cell == config.open_door
            &&& (tile matches Some(TileKind::Door { open: false, .. })) ==> cell == config.closed_door
        },
        coord != stairs_up && coord != stairs_down ==> {
            let layers = spec_atlas_coords(config, stairs_up, stairs_down, coord, tile);
            &&& layers[0] == spec_atlas_coord(config, stairs_up, stairs_down, coord, tile)
            &&& (tile matches Some(TileKind::Door { pitoned: true, .. })) ==> layers.len() == 2 && layers[1] == config.door_pitoned
            &&& !(tile matches Some(TileKind::Door { pitoned: true, .. })) ==> layers.len() == 1
        },
        coord == stairs_up || coord == stairs_down ==> spec_atlas_coords(config, stairs_up, stairs_down, coord, tile).len() == 1,
{
}

/// A room's marker stands in its middle: between its bounds, and at most half a
/// tile from their centre on each axis. A hallway's marker stands on its first
/// tile, and an empty hallway has none.
pub proof fn lemma_zone_marker_placement(zone: ZoneShape)
    ensures
        zone matches ZoneShape::Hallway { coords } ==> (coords@.len() > 0 ==> spec_zone_display_coord(zone) == Some(coords@[0]))
            && (coords@.len() == 0 ==> spec_zone_display_coord(zone) is None),
        zone matches ZoneShape::Room { min, max } ==> spec_zone_display_coord(zone) matches Some(c) && {
            &&& min.x <= max.x ==> min.x <= c.x <= max.x
            &&& min.y <= max.y ==> min.y <= c.y <= max.y
            &&& -1 <= 2 * (c.x as int) - (min.x + max.x) <= 1
            &&& -1 <= 2 * (c.y as int) - (min.y + max.y) <= 1
        },
{
}

/// The bottom layer of the layered map draws what the single-layer map draws.
pub proof fn lemma_layers_extend_single(config: AtlasConfig, stairs_up: Coord, stairs_down: Coord, coord: Coord, tile: Option<TileKind>)
    ensures
        spec_atlas_coords(config, stairs_up, stairs_down, coord, tile)[0]
            == spec_atlas_coord(config, stairs_up, stairs_down, coord, tile),
{
}

/// What a tile entity is.
#[derive(Clone, Copy, Debug, PartialEq, Eq, Structural)]
pub enum EntityKind {
    DeadBody,
    GoldPile,
    CampSite,
    Chest,
}

/// The scene a tile entity is drawn with.
#[derive(Clone, Copy, Debug, PartialEq, Eq, Structural)]
pub enum EntityScene {
    Body,
    Gold,
    Campfire,
    Chest,
}

/// The scene for a tile entity.
pub fn entity_scene_for(kind: EntityKind) -> (res: EntityScene)
    ensures
        res == match kind {
            EntityKind::DeadBody => EntityScene::Body,
            EntityKind::GoldPile => EntityScene::Gold,
            EntityKind::CampSite => EntityScene::Campfire,
            EntityKind::Chest => EntityScene::Chest,
        },
{
    match kind {
        EntityKind::DeadBody => EntityScene::Body,
        EntityKind::GoldPile => EntityScene::Gold,
        EntityKind::CampSite => EntityScene::Campfire,
        EntityKind::Chest => EntityScene::Chest,
    }
}

/// A zone of a floor: a room with its bounds, or a hallway with its tiles.
#[derive(Debug)]
pub enum ZoneShape {
    Room { min: Coord, max: Coord },
    Hallway { coords: Vec<Coord> },
}

/// Rust's division by two, which rounds toward zero.
pub open spec fn spec_half(a: int) -> int {
    if a >= 0 { a / 2 } else { -((-a) / 2) }
}

/// Where a zone's encounter marker stands: the middle of a room, the first tile
/// of a hallway, or nowhere for an empty hallway.
pub open spec fn spec_zone_display_coord(zone: ZoneShape) -> Option<Coord> {
    match zone {
        ZoneShape::Room { min, max } => Some(Coord {
            x: spec_half(min.x + max.x) as i32,
            y: spec_half(min.y + max.y) as i32,
        }),
        ZoneShape::Hallway { coords } => if coords@.len() == 0 { None } else { Some(coords@[0]) },
    }
}

/// Where a zone's encounter marker stands. The sums of a room's bounds must fit
/// in an `i32`.
pub fn zone_display_coord(zone: &ZoneShape) -> (res: Option<Coord>)
    requires
        zone matches ZoneShape::Room { min, max } ==> (i32::MIN <= min.x + max.x <= i32::MAX
            && i32::MIN <= min.y + max.y <= i32::MAX),
    ensures
        res == spec_zone_display_coord(*zone),
{
    match zone {
        ZoneShape::Room { min, max } => Some(Coord { x: (min.x + max.x) / 2, y: (min.y + max.y) / 2 }),
        ZoneShape::Hallway { coords } => {
            if coords.len() == 0 {
                None
            } else {
                Some(coords[0])
            }
        },
    }
}


/// The cells of row `y` from column `x` to column `max_x`, left to right.
pub open spec fn spec_row_from(y: int, x: int, max_x: int) -> Seq<Coord> {
    Seq::new(if max_x >= x { (max_x - x + 1) as nat } else { 0 }, |i: int| Coord { x: (x + i) as i32, y: y as i32 })
}

/// The cells of the rows from `y` to the last row of the bounds, row by row.
pub open spec fn spec_rows_from(min: Coord, max: Coord, y: int) -> Seq<Coord>
    decreases max.y + 1 - y,
{
    if y > max.y {
        Seq::empty()
    } else {
        spec_row_from(y, min.x as int, max.x as int) + spec_rows_from(min, max, y + 1)
    }
}

/// The cells of the bounds `min` to `max`, both included, row by row from the
/// top, each row left to right: the order in which a floor is drawn.
pub open spec fn spec_floor_cells(min: Coord, max: Coord) -> Seq<Coord> {
    spec_rows_from(min, max, min.y as int)
}

proof fn lemma_rows_from_layout(min: Coord, max: Coord, y: int, k: int)
    requires
        min.x <= max.x,
        min.y <= y <= max.y + 1,
    ensures
        spec_rows_from(min, max, y).len() == (max.x - min.x + 1) * (max.y + 1 - y),
        0 <= k < spec_rows_from(min, max, y).len() ==> spec_rows_from(min, max, y)[k] == (Coord {
            x: (min.x + k % (max.x - min.x + 1)) as i32,
            y: (y + k / (max.x - min.x + 1)) as i32,
        }),
    decreases max.y + 1 - y,
{
    let w = max.x - min.x + 1;
    if y > max.y {
        assert(w * (max.y + 1 - y) == 0) by (nonlinear_arith)
            requires y == max.y + 1;
    } else {
        let row = spec_row_from(y, min.x as int, max.x as int);
        let rest = spec_rows_from(min, max, y + 1);
        lemma_rows_from_layout(min, max, y + 1, k - w);
        assert(spec_rows_from(min, max, y) == row + rest);
        assert(row.len() == w);
        assert(w + w * (max.y + 1 - (y + 1)) == w * (max.y + 1 - y)) by (nonlinear_arith);
        if 0 <= k < spec_rows_from(min, max, y).len() {
            if k < w {
                assert(k % w == k) by (nonlinear_arith)
                    requires 0 <= k < w;
                assert(k / w == 0) by (nonlinear_arith)
                    requires 0 <= k < w;
            } else {
                vstd::arithmetic::div_mod::lemma_mod_add_multiples_vanish(k - w, w);
                vstd::arithmetic::div_mod::lemma_div_plus_one(k - w, w);
                assert(spec_rows_from(min, max, y)[k] == rest[k - w]);
            }
        }
    }
}

/// A floor is drawn row by row from the top, each row left to right: the cell
/// drawn `k`-th lies `k % w` columns right of the left edge and `k / w` rows
/// below the top, `w` being the width of the bounds; every cell of the bounds is
/// drawn once, and empty bounds draw nothing.
pub proof fn lemma_floor_cells_row_major(min: Coord, max: Coord, k: int)
    ensures
        (max.x < min.x || max.y < min.y) ==> spec_floor_cells(min, max).len() == 0,
        (min.x <= max.x && min.y <= max.y) ==> {
            let w = max.x - min.x + 1;
            &&& spec_floor_cells(min, max).len() == w * (max.y - min.y + 1)
            &&& 0 <= k < spec_floor_cells(min, max).len() ==> spec_floor_cells(min, max)[k] == (Coord {
                x: (min.x + k % w) as i32,
                y: (min.y + k / w) as i32,
            })
        },
{
    if min.x <= max.x && min.y <= max.y {
        lemma_rows_from_layout(min, max, min.y as int, k);
    } else if max.y < min.y {
    } else {
        lemma_rows_from_empty(min, max, min.y as int);
    }
}

proof fn lemma_rows_from_empty(min: Coord, max: Coord, y: int)
    requires
        max.x < min.x,
    ensures
        spec_rows_from(min, max, y).len() == 0,
    decreases max.y + 1 - y,
{
    if y <= max.y {
        lemma_rows_from_empty(min, max, y + 1);
    }
}

/// The cells of a floor's bounds in drawing order.
pub fn floor_cells(min: Coord, max: Coord) -> (res: Vec<Coord>)
    ensures
        res@ == spec_floor_cells(min, max),
{
    let mut res: Vec<Coord> = Vec::new();
    let mut y: i64 = min.y as i64;
    while y <= max.y as i64
        invariant
            min.y <= y,
            res@ + spec_rows_from(min, max, y as int) == spec_floor_cells(min, max),
        decreases max.y as i64 + 1 - y,
    {
        let mut x: i64 = min.x as i64;
        assert(spec_rows_from(min, max, y as int)
            == spec_row_from(y as int, min.x as int, max.x as int) + spec_rows_from(min, max, y as int + 1));
        while x <= max.x as i64
            invariant
                min.y <= y <= max.y,
                min.x <= x,
                res@ + spec_row_from(y as int, x as int, max.x as int) + spec_rows_from(min, max, y as int + 1)
                    == spec_floor_cells(min, max),
            decreases max.x as i64 + 1 - x,
        {
            let ghost before = res@;
            res.push(Coord { x: x as i32, y: y as i32 });
            proof {
                let r = spec_row_from(y as int, x as int, max.x as int);
                let r2 = spec_row_from(y as int, x as int + 1, max.x as int);
                assert(r =~= seq![Coord { x: x as i32, y: y as i32 }] + r2);
                let rest = spec_rows_from(min, max, y as int + 1);
                assert(before + r + rest =~= res@ + r2 + rest);
            }
            x = x + 1;
        }
        proof {
            assert(spec_row_from(y as int, x as int, max.x as int) =~= Seq::<Coord>::empty());
            assert(res@ + Seq::<Coord>::empty() =~= res@);
        }
        y = y + 1;
    }
    assert(spec_rows_from(min, max, y as int) =~= Seq::<Coord>::empty());
    assert(res@ + Seq::<Coord>::empty() =~= res@);
    res
}

/// The atlas cell of each cell of the single-layer floor map, given the tile
/// found at each cell.
pub fn floor_draw_plan(
    config: &AtlasConfig,
    stairs_up: Coord,
    stairs_down: Coord,
    cells: &Vec<Coord>,
    tiles: &Vec<Option<TileKind>>,
) -> (res: Vec<AtlasCoord>)
    requires
        tiles@.len() == cells@.len(),
    ensures
        res@.len() == cells@.len(),
        forall|i: int| 0 <= i < cells@.len() ==> #[trigger] res@[i]
            == spec_atlas_coord(*config, stairs_up, stairs_down, cells@[i], tiles@[i]),
{
    let mut res: Vec<AtlasCoord> = Vec::new();
    let mut i: usize = 0;
    while i < cells.len()
        invariant
            i <= cells@.len(),
            tiles@.len() == cells@.len(),
            res@.len() == i,
            forall|j: int| 0 <= j < i ==> #[trigger] res@[j]
                == spec_atlas_coord(*config, stairs_up, stairs_down, cells@[j], tiles@[j]),
        decreases cells@.len() - i,
    {
        res.push(get_atlas_coord_for_tile(config, stairs_up, stairs_down, cells[i], tiles[i]));
        i = i + 1;
    }
    res
}

/// The layer writes of each cell of the layered floor map, given the tile
/// found at each cell.
pub fn floor_layer_plan(
    config: &AtlasConfig,
    stairs_up: Coord,
    stairs_down: Coord,
    cells: &Vec<Coord>,
    tiles: &Vec<Option<TileKind>>,
) -> (res: Vec<Vec<LayerWrite>>)
    requires
        tiles@.len() == cells@.len(),
    ensures
        res@.len() == cells@.len(),
        forall|i: int| 0 <= i < cells@.len() ==> (#[trigger] res@[i])@
            == spec_layer_writes(spec_atlas_coords(*config, stairs_up, stairs_down, cells@[i], tiles@[i])),
{
    let mut res: Vec<Vec<LayerWrite>> = Vec::new();
    let mut i: usize = 0;
    while i < cells.len()
        invariant
            i <= cells@.len(),
            tiles@.len() == cells@.len(),
            res@.len() == i,
            forall|j: int| 0 <= j < i ==> (#[trigger] res@[j])@
                == spec_layer_writes(spec_atlas_coords(*config, stairs_up, stairs_down, cells@[j], tiles@[j])),
        decreases cells@.len() - i,
    {
        let coords = get_atlas_coords_for_tile(config, stairs_up, stairs_down, cells[i], tiles[i]);
        res.push(layer_writes(&coords));
        i = i + 1;
    }
    res
}

/// The pixel position of the player on the single-layer floor map: its cell
/// scaled by the tile size. The products must fit in an `i32`.
pub fn player_pixel(player: Coord, tile_size: (i32, i32)) -> (res: (i32, i32))
    requires
        i32::MIN <= player.x * tile_size.0 <= i32::MAX,
        i32::MIN <= player.y * tile_size.1 <= i32::MAX,
    ensures
        res == ((player.x * tile_size.0) as i32, (player.y * tile_size.1) as i32),
{
    (player.x * tile_size.0, player.y * tile_size.1)
}
} // verus!
