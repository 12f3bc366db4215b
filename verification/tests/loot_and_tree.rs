use dungeon_ui::directions::Direction;
use dungeon_ui::encounters::{item_ids_for, tabulate_encounters, InventoryIds, InventorySpawnerType};
use dungeon_ui::interaction::{
    cancel_input, directed_input, interaction_view, pick_direction, pick_method_name,
    picker_visibility, DirectedAction, DirectionPickerConfig, InteractionView, OngoingInteraction,
};
use dungeon_ui::scene_tree::{ancestor_chain, look_for, try_walk_parents_for, walk_parents_for, SceneNode, SceneTree};
use dungeon_ui::transfer::{directed_displays, transfer_input, OngoingTransferState, SliderSetup, TransferDialog, TransferType};
use dungeon_ui::ui_input::{camp_change_amount, dig_direction, InventoryTransfer, Transfer, TransferIdentifier, UiInput};

#[test]
fn transfer_dialog_ranges_and_clamps() {
    let mut d = TransferDialog::new();
    assert_eq!(d.max, 0);
    let slider = d.init(TransferType::Money, TransferIdentifier::To, 120, 30);
    assert_eq!(slider, SliderSetup { min: 0, max: 120, value: 120 });
    assert_eq!(d.details.amount, 0);
    assert_eq!(d.set_amount(50), 50);
    assert_eq!(d.set_amount(500), 120);
    assert_eq!(d.set_amount(-5), 0);
    assert_eq!(
        d.apply(),
        InventoryTransfer { source_inventory: TransferIdentifier::To, transfer: Transfer::Gold { amount: 0 } }
    );
    d.set_amount(20);
    assert_eq!(
        transfer_input(&d),
        UiInput::LootTransfer(InventoryTransfer {
            source_inventory: TransferIdentifier::To,
            transfer: Transfer::Gold { amount: 20 }
        })
    );
    let slider = d.init(TransferType::Food, TransferIdentifier::From, 120, 30);
    assert_eq!(slider.max, 30);
    d.set_amount(31);
    assert_eq!(
        d.apply(),
        InventoryTransfer { source_inventory: TransferIdentifier::From, transfer: Transfer::Food { amount: 30 } }
    );
}

#[test]
fn empty_range_clamps_to_minimum() {
    let mut d = TransferDialog::new();
    d.init(TransferType::Food, TransferIdentifier::From, 0, -3);
    assert_eq!(d.max, -3);
    assert_eq!(d.set_amount(10), 0);
    assert_eq!(d.set_amount(-10), 0);
}

#[test]
fn directed_displays_swap() {
    assert_eq!(directed_displays(TransferIdentifier::From), (TransferIdentifier::From, TransferIdentifier::To));
    assert_eq!(directed_displays(TransferIdentifier::To), (TransferIdentifier::To, TransferIdentifier::From));
}

#[test]
fn ongoing_transfer_sets_up_once() {
    let mut s = OngoingTransferState::new();
    // nothing shown: set up, whatever the comparison said
    assert!(s.updated(4, false));
    assert_eq!(s.current, Some(4));
    // the very transfer shown again
    assert!(!s.updated(4, true));
    // another transfer object that equals the shown one by value: kept as it is
    assert!(!s.updated(5, true));
    assert_eq!(s.current, Some(4));
    // one that differs by value
    assert!(s.updated(5, false));
    assert_eq!(s.current, Some(5));
    s.clear_transfer_ui();
    assert_eq!(s.current, None);
    assert!(s.updated(5, true));
}

#[test]
fn set_transfer_ui_skips_the_shown_object() {
    let mut s = OngoingTransferState::new();
    assert!(s.set_transfer_ui(7));
    assert!(!s.set_transfer_ui(7));
    assert!(s.set_transfer_ui(8));
    assert_eq!(s.current, Some(8));
}

#[test]
fn camp_and_dig_inputs() {
    assert_eq!(camp_change_amount(3, -1), UiInput::CampPickAmount(2));
    assert_eq!(dig_direction(Direction::Up), UiInput::Dig(Direction::Up));
}

#[test]
fn interaction_views() {
    let dig = OngoingInteraction::Dig { directions: vec![Direction::Left, Direction::Down] };
    match interaction_view(&dig, "") {
        InteractionView::Direction { text, config } => {
            assert_eq!(text, "Dig through a wall");
            assert_eq!(config.cancel_input, Some(UiInput::DigCancel));
            assert_eq!(config.directed, DirectedAction::Dig);
            assert_eq!(config.allowed_directions, vec![Direction::Left, Direction::Down]);
            let vis = picker_visibility(&config);
            assert!(vis.cancel);
            assert_eq!(vis.directions, vec![false, false, true, true]);
            assert_eq!(pick_direction(&config, Direction::Left), UiInput::Dig(Direction::Left));
        }
        other => panic!("unexpected view {:?}", other),
    }
    let door = OngoingInteraction::OpenCloseDoor { open: true, directions: vec![Direction::Right] };
    match interaction_view(&door, "Open") {
        InteractionView::Direction { text, config } => {
            assert_eq!(text, "Open a door");
            assert_eq!(config.cancel_input, Some(UiInput::OpenCloseCancel));
            assert_eq!(
                pick_direction(&config, Direction::Right),
                UiInput::OpenClose { open: true, direction: Direction::Right }
            );
        }
        other => panic!("unexpected view {:?}", other),
    }
    let piton = OngoingInteraction::PitonDoor { insert: false, directions: vec![] };
    match interaction_view(&piton, "Remove") {
        InteractionView::Direction { text, config } => {
            assert_eq!(text, "Remove a door");
            assert_eq!(cancel_input(&config), Some(UiInput::PitonCancel));
            assert_eq!(picker_visibility(&config).directions, vec![false, false, false, false]);
        }
        other => panic!("unexpected view {:?}", other),
    }
    assert!(matches!(interaction_view(&OngoingInteraction::Camp { amount: 4 }, ""), InteractionView::Camp { amount: 4 }));
    assert!(matches!(interaction_view(&OngoingInteraction::Loot { transfer: 1 }, ""), InteractionView::Loot));
}

#[test]
fn picker_without_cancel_hides_it() {
    let config = DirectionPickerConfig {
        cancel_input: None,
        directed: DirectedAction::Piton { insert: true },
        allowed_directions: vec![Direction::Up],
    };
    let vis = picker_visibility(&config);
    assert!(!vis.cancel);
    assert_eq!(vis.directions, vec![false, true, false, false]);
    assert_eq!(cancel_input(&config), None);
    assert_eq!(
        directed_input(config.directed, Direction::Down),
        UiInput::PitonAddRemove { insert: true, direction: Direction::Down }
    );
    assert_eq!(pick_method_name(Direction::Right), "pick_right");
    assert_eq!(pick_method_name(Direction::Down), "pick_down");
}

#[test]
fn encounters_are_tallied_by_name() {
    let names: Vec<String> = ["rat", "bat", "rat", "orc", "rat"].iter().map(|s| s.to_string()).collect();
    let tally = tabulate_encounters(&names);
    assert_eq!(
        tally,
        vec![("rat".to_string(), 3), ("bat".to_string(), 1), ("orc".to_string(), 1)]
    );
    assert!(tabulate_encounters(&vec![]).is_empty());
}

#[test]
fn inventory_lists() {
    let inv = InventoryIds { gear: vec![1, 2], combat_equipment: vec![3], all: vec![1, 2, 3] };
    assert_eq!(item_ids_for(InventorySpawnerType::Gear, &inv), vec![1, 2]);
    assert_eq!(item_ids_for(InventorySpawnerType::CombatEquipment, &inv), vec![3]);
    assert_eq!(item_ids_for(InventorySpawnerType::All, &inv), vec![1, 2, 3]);
}

fn tree() -> SceneTree {
    // 0 root: children 1, 4; 1: children 2, 3; 4: child 5
    SceneTree {
        nodes: vec![
            SceneNode { parent: None, children: vec![1, 4] },
            SceneNode { parent: Some(0), children: vec![2, 3] },
            SceneNode { parent: Some(1), children: vec![] },
            SceneNode { parent: Some(1), children: vec![] },
            SceneNode { parent: Some(0), children: vec![5] },
            SceneNode { parent: Some(4), children: vec![] },
        ],
    }
}

#[test]
fn look_for_searches_in_preorder() {
    let t = tree();
    assert_eq!(look_for(&t, &vec![false, false, false, true, false, true], 0), Some(3));
    assert_eq!(look_for(&t, &vec![false, false, false, false, false, true], 0), Some(5));
    assert_eq!(look_for(&t, &vec![true, false, false, true, false, true], 0), Some(0));
    assert_eq!(look_for(&t, &vec![false; 6], 0), None);
    assert_eq!(look_for(&t, &vec![false, false, false, true, false, false], 4), None);
}

#[test]
fn walk_parents_finds_nearest_ancestor() {
    let t = tree();
    assert_eq!(try_walk_parents_for(&t, &vec![true, true, false, false, false, false], 3), Some(1));
    assert_eq!(try_walk_parents_for(&t, &vec![true, false, false, true, false, false], 3), Some(0));
    assert_eq!(try_walk_parents_for(&t, &vec![false, false, false, true, false, false], 3), None);
    // a node is not its own ancestor
    assert_eq!(try_walk_parents_for(&t, &vec![false, false, false, false, true, false], 4), None);
    assert_eq!(walk_parents_for(&t, &vec![false, false, false, false, true, false], 5), 4);
    assert_eq!(ancestor_chain(&t, 5), vec![5, 4, 0]);
    assert_eq!(ancestor_chain(&t, 0), vec![0]);
}
