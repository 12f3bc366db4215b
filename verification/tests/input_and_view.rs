use dungeon_ui::directions::Direction;
use dungeon_ui::game_view::{
    game_in_looting_interaction, in_dungeon_update, inventory_source, is_in_dungeon,
    is_moving_in_dungeon, is_out_of_dungeon, loot_transfer, out_of_dungeon_update, GameStateView,
    InDungeonEvent, InDungeonSignal, InventorySource,
};
use dungeon_ui::input_map::{
    godot_input_from_code, handle_input, key_code_for, legacy_handle_input, GodotInput, KeyCode,
};
use dungeon_ui::interaction::OngoingInteraction;

#[test]
fn input_codes_map_to_keys() {
    assert_eq!(handle_input(0), KeyCode::Esc);
    assert_eq!(handle_input(1), KeyCode::Char('1'));
    assert_eq!(handle_input(9), KeyCode::Char('9'));
    assert_eq!(handle_input(10), KeyCode::Char(':'));
    assert_eq!(handle_input(11), KeyCode::Char('d'));
    assert_eq!(handle_input(12), KeyCode::Char('w'));
    assert_eq!(handle_input(13), KeyCode::Char('a'));
    assert_eq!(handle_input(14), KeyCode::Char('s'));
    assert_eq!(handle_input(15), KeyCode::Char(' '));
    assert_eq!(handle_input(16), KeyCode::Char('q'));
}

#[test]
fn legacy_input_codes_use_upper_case_movement() {
    assert_eq!(legacy_handle_input(0), KeyCode::Esc);
    assert_eq!(legacy_handle_input(5), KeyCode::Char('5'));
    assert_eq!(legacy_handle_input(11), KeyCode::Char('D'));
    assert_eq!(legacy_handle_input(12), KeyCode::Char('W'));
    assert_eq!(legacy_handle_input(13), KeyCode::Char('A'));
    assert_eq!(legacy_handle_input(14), KeyCode::Char('S'));
    assert_eq!(legacy_handle_input(15), KeyCode::Char(' '));
}

#[test]
fn input_codes_decode() {
    assert_eq!(godot_input_from_code(0), GodotInput::Quit);
    assert_eq!(godot_input_from_code(7), GodotInput::Number(7));
    assert_eq!(godot_input_from_code(13), GodotInput::Direction(Direction::Left));
    assert_eq!(godot_input_from_code(16), GodotInput::Cancel);
    assert_eq!(key_code_for(GodotInput::Number(3)), KeyCode::Char('3'));
}

#[test]
fn distinct_codes_give_distinct_keys() {
    let keys: Vec<KeyCode> = (0..=16).map(handle_input).collect();
    for a in 0..keys.len() {
        for b in 0..keys.len() {
            if a != b {
                assert_ne!(keys[a], keys[b]);
            }
        }
    }
    let legacy: Vec<KeyCode> = (0..=15).map(legacy_handle_input).collect();
    for a in 0..legacy.len() {
        for b in 0..legacy.len() {
            if a != b {
                assert_ne!(legacy[a], legacy[b]);
            }
        }
    }
}

#[test]
fn in_dungeon_view_follows_state() {
    let moving = GameStateView::InDungeon { ongoing_event: None };
    let u = in_dungeon_update(&moving);
    assert!(u.visible);
    assert!(u.map_controlable);
    assert_eq!(u.signals, vec![InDungeonSignal::UpdatedState]);
    assert!(is_moving_in_dungeon(&moving));

    let fight = GameStateView::InDungeon { ongoing_event: Some(InDungeonEvent::Fight) };
    let u = in_dungeon_update(&fight);
    assert!(u.visible);
    assert!(!u.map_controlable);
    assert_eq!(u.signals, vec![InDungeonSignal::UpdatedState, InDungeonSignal::UpdatedStateFight]);
    assert!(!is_moving_in_dungeon(&fight));

    let camp = GameStateView::InDungeon {
        ongoing_event: Some(InDungeonEvent::Interaction(OngoingInteraction::Camp { amount: 3 })),
    };
    let u = in_dungeon_update(&camp);
    assert!(!u.map_controlable);
    assert_eq!(
        u.signals,
        vec![InDungeonSignal::UpdatedState, InDungeonSignal::UpdatedStateInteraction]
    );

    let out = GameStateView::OutOfDungeon;
    let u = in_dungeon_update(&out);
    assert!(!u.visible);
    assert!(!u.map_controlable);
    assert!(u.signals.is_empty());
    assert!(!is_moving_in_dungeon(&out));
}

#[test]
fn out_of_dungeon_view_follows_state() {
    assert_eq!(out_of_dungeon_update(&GameStateView::OutOfDungeon), (true, true));
    assert_eq!(
        out_of_dungeon_update(&GameStateView::InDungeon { ongoing_event: None }),
        (false, false)
    );
    assert!(is_out_of_dungeon(&GameStateView::OutOfDungeon));
    assert!(!is_in_dungeon(&GameStateView::OutOfDungeon));
    assert!(is_in_dungeon(&GameStateView::InDungeon { ongoing_event: None }));
}

#[test]
fn looting_is_recognised() {
    let loot = GameStateView::InDungeon {
        ongoing_event: Some(InDungeonEvent::Interaction(OngoingInteraction::Loot { transfer: 9 })),
    };
    assert!(game_in_looting_interaction(&loot));
    assert_eq!(loot_transfer(&loot), 9);
    let camp = GameStateView::InDungeon {
        ongoing_event: Some(InDungeonEvent::Interaction(OngoingInteraction::Camp { amount: 1 })),
    };
    assert!(!game_in_looting_interaction(&camp));
    assert!(!game_in_looting_interaction(&GameStateView::OutOfDungeon));
    assert!(!game_in_looting_interaction(&GameStateView::InDungeon {
        ongoing_event: Some(InDungeonEvent::Fight)
    }));
}

#[test]
fn inventory_source_depends_on_dungeon() {
    assert_eq!(
        inventory_source(&GameStateView::InDungeon { ongoing_event: None }),
        InventorySource::PartyStats
    );
    assert_eq!(inventory_source(&GameStateView::OutOfDungeon), InventorySource::PartyInventory);
}
