use dungeon_ui::directions::Coord;
use dungeon_ui::floor_tiles::{
    default_atlas_config, entity_scene_for, floor_cells,
    floor_draw_plan, floor_layer_plan, get_atlas_coord_for_tile, get_atlas_coords_for_tile,
    layer_writes, player_pixel, zone_display_coord, AtlasConfig, EntityKind, EntityScene,
    OpenType, TileKind, ZoneShape, TILE_LAYERS,
};
use dungeon_ui::text::{
    amount_label, coord_text, decimal_text, fight_description, inventory_labels, item_label,
    price_text, scout_labels, transfer_description, weight_text, FightPhaseView, FightView,
};
use dungeon_ui::transfer::TransferType;

fn config() -> AtlasConfig {
    AtlasConfig {
        wall: (0, 0),
        hallway: (1, 0),
        room: (2, 0),
        closed_door: (3, 0),
        open_door: (4, 0),
        door_pitoned: (5, 0),
        stairs_up: (6, 0),
        stairs_down: (7, 0),
    }
}

const UP: Coord = Coord { x: 1, y: 1 };
const DOWN: Coord = Coord { x: 5, y: 5 };
const HERE: Coord = Coord { x: 2, y: 3 };

#[test]
fn single_layer_atlas_cells() {
    let c = config();
    assert_eq!(get_atlas_coord_for_tile(&c, UP, DOWN, HERE, None), (-1, -1));
    assert_eq!(get_atlas_coord_for_tile(&c, UP, DOWN, HERE, Some(TileKind::Filled)), (0, 0));
    assert_eq!(get_atlas_coord_for_tile(&c, UP, DOWN, HERE, Some(TileKind::Open(OpenType::Hallway))), (1, 0));
    assert_eq!(get_atlas_coord_for_tile(&c, UP, DOWN, HERE, Some(TileKind::Open(OpenType::Room))), (2, 0));
    assert_eq!(get_atlas_coord_for_tile(&c, UP, DOWN, HERE, Some(TileKind::Door { open: false, pitoned: false })), (3, 0));
    assert_eq!(get_atlas_coord_for_tile(&c, UP, DOWN, HERE, Some(TileKind::Door { open: true, pitoned: true })), (4, 0));
    assert_eq!(get_atlas_coord_for_tile(&c, UP, DOWN, UP, Some(TileKind::Filled)), (6, 0));
    assert_eq!(get_atlas_coord_for_tile(&c, UP, DOWN, DOWN, Some(TileKind::Open(OpenType::Room))), (7, 0));
    // no tile draws nothing, even on the stairs
    assert_eq!(get_atlas_coord_for_tile(&c, UP, DOWN, UP, None), (-1, -1));
}

#[test]
fn layered_atlas_cells() {
    let c = config();
    let door = get_atlas_coords_for_tile(&c, UP, DOWN, HERE, Some(TileKind::Door { open: false, pitoned: true }));
    assert_eq!(door.to_vec(), vec![(3, 0), (5, 0)]);
    let plain = get_atlas_coords_for_tile(&c, UP, DOWN, HERE, Some(TileKind::Door { open: true, pitoned: false }));
    assert_eq!(plain.to_vec(), vec![(4, 0)]);
    let stairs = get_atlas_coords_for_tile(&c, UP, DOWN, UP, Some(TileKind::Door { open: true, pitoned: true }));
    assert_eq!(stairs.to_vec(), vec![(6, 0)]);
    let none = get_atlas_coords_for_tile(&c, UP, DOWN, HERE, None);
    assert_eq!(none.to_vec(), vec![(-1, -1)]);
}

#[test]
fn layer_writes_fill_then_clear() {
    let c = config();
    let door = get_atlas_coords_for_tile(&c, UP, DOWN, HERE, Some(TileKind::Door { open: false, pitoned: true }));
    let writes = layer_writes(&door);
    let pairs: Vec<(usize, Option<(i32, i32)>)> = writes.iter().map(|w| (w.layer, w.cell)).collect();
    assert_eq!(
        pairs,
        vec![
            (0, Some((3, 0))),
            (1, Some((5, 0))),
            (2, None),
            (3, None),
            (0, Some((3, 0))),
            (1, Some((5, 0))),
        ]
    );
    assert_eq!(TILE_LAYERS, 4);
}

#[test]
fn default_config_draws_nothing() {
    let d = default_atlas_config();
    assert_eq!(d.wall, (-1, -1));
    assert_eq!(d.stairs_down, (-1, -1));
    assert_eq!(d.door_pitoned, (-1, -1));
}

#[test]
fn floor_cells_are_row_major() {
    let cells = floor_cells(Coord { x: -1, y: 0 }, Coord { x: 0, y: 1 });
    assert_eq!(
        cells,
        vec![
            Coord { x: -1, y: 0 },
            Coord { x: 0, y: 0 },
            Coord { x: -1, y: 1 },
            Coord { x: 0, y: 1 },
        ]
    );
    assert!(floor_cells(Coord { x: 1, y: 0 }, Coord { x: 0, y: 0 }).is_empty());
    assert!(floor_cells(Coord { x: 0, y: 1 }, Coord { x: 0, y: 0 }).is_empty());
    assert_eq!(floor_cells(Coord { x: 3, y: 3 }, Coord { x: 3, y: 3 }), vec![Coord { x: 3, y: 3 }]);
}

#[test]
fn floor_plans_cover_each_cell() {
    let c = config();
    let cells = vec![UP, HERE];
    let tiles = vec![Some(TileKind::Filled), Some(TileKind::Door { open: true, pitoned: true })];
    assert_eq!(floor_draw_plan(&c, UP, DOWN, &cells, &tiles), vec![(6, 0), (4, 0)]);
    let layered = floor_layer_plan(&c, UP, DOWN, &cells, &tiles);
    assert_eq!(layered.len(), 2);
    assert_eq!(layered[0].len(), 5);
    assert_eq!(layered[1].len(), 6);
    assert_eq!(layered[1][1].cell, Some((5, 0)));
}

#[test]
fn entity_scenes() {
    assert_eq!(entity_scene_for(EntityKind::DeadBody), EntityScene::Body);
    assert_eq!(entity_scene_for(EntityKind::GoldPile), EntityScene::Gold);
    assert_eq!(entity_scene_for(EntityKind::CampSite), EntityScene::Campfire);
    assert_eq!(entity_scene_for(EntityKind::Chest), EntityScene::Chest);
}

#[test]
fn zone_markers() {
    let room = ZoneShape::Room { min: Coord { x: 2, y: 4 }, max: Coord { x: 7, y: 8 } };
    assert_eq!(zone_display_coord(&room), Some(Coord { x: 4, y: 6 }));
    let neg = ZoneShape::Room { min: Coord { x: -3, y: -5 }, max: Coord { x: 0, y: 0 } };
    assert_eq!(zone_display_coord(&neg), Some(Coord { x: -1, y: -2 }));
    let hall = ZoneShape::Hallway { coords: vec![Coord { x: 9, y: 9 }, Coord { x: 9, y: 10 }] };
    assert_eq!(zone_display_coord(&hall), Some(Coord { x: 9, y: 9 }));
    assert_eq!(zone_display_coord(&ZoneShape::Hallway { coords: vec![] }), None);
}

#[test]
fn player_pixel_scales_by_tile() {
    assert_eq!(player_pixel(Coord { x: 3, y: -2 }, (16, 8)), (48, -16));
}

#[test]
fn integer_texts() {
    assert_eq!(price_text(0), "0g");
    assert_eq!(price_text(-42), "-42g");
    assert_eq!(price_text(1234567890123), "1234567890123g");
    assert_eq!(amount_label(5), "Amount: 5");
    assert_eq!(coord_text(Coord { x: 3, y: -4 }), "3, -4");
    assert_eq!(price_text(25), "25g");
    assert_eq!(item_label("Sword", "sharp"), "Sword: sharp");
}

#[test]
fn weight_texts() {
    assert_eq!(weight_text(12, Some(40)), "12/40");
    assert_eq!(weight_text(12, None), "12");
    let labels = inventory_labels("Party", 100, 7, 30, Some(50));
    assert_eq!(labels.name, "Party");
    assert_eq!(labels.money, "100");
    assert_eq!(labels.food, "7");
    assert_eq!(labels.weight, "30/50");
}

#[test]
fn transfer_descriptions() {
    assert_eq!(transfer_description(TransferType::Money, "Chest", "Party"), "Transferring money from Chest to Party");
    assert_eq!(transfer_description(TransferType::Food, "Party", "Body"), "Transferring food from Party to Body");
}

#[test]
fn fight_descriptions() {
    let pre = FightView { enemy_name: "goblin".to_string(), phase: FightPhaseView::Pre };
    assert_eq!(fight_description(&pre), "You are attacked by a goblin.");
    let resolved = FightView {
        enemy_name: "orc".to_string(),
        phase: FightPhaseView::Resolved {
            start_damage: 10,
            total_damage: 6,
            equipment_effects: vec![("shield".to_string(), 3), ("helmet".to_string(), 1)],
        },
    };
    assert_eq!(
        fight_description(&resolved),
        "You are attacked by a orc.\nIt does 10 damage.\nYour shield reduces it by 3 damage.\nYour helmet reduces it by 1 damage.\nYou take 6 damage"
    );
    let bare = FightView {
        enemy_name: "rat".to_string(),
        phase: FightPhaseView::Resolved { start_damage: 2, total_damage: 2, equipment_effects: vec![] },
    };
    assert_eq!(fight_description(&bare), "You are attacked by a rat.\nIt does 2 damage.\nYou take 2 damage");
}

#[test]
fn scout_label_texts() {
    let (id, name, distance) = scout_labels(Some((12, "bat".to_string(), 4)));
    assert_eq!((id.as_str(), name.as_str(), distance.as_str()), ("12", "bat", "4"));
    let (id, name, distance) = scout_labels(None);
    assert_eq!((id.as_str(), name.as_str(), distance.as_str()), ("0", "ERROR", "0"));
}

#[test]
fn decimal_text_matches_display() {
    for n in [0i64, 7, 9, 10, 99, 100, -1, -10, 1234567890123, i64::MAX, i64::MIN] {
        assert_eq!(decimal_text(n), n.to_string());
    }
}
