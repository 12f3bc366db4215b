//! Which parts of the interface show for the state of the game.
use vstd::prelude::*;
use crate::interaction::OngoingInteraction;

verus! {

/// What is going on in the dungeon besides moving.
#[derive(Debug)]
pub enum InDungeonEvent {
    Fight,
    Interaction(OngoingInteraction),
}

/// The state of the game as far as the interface looks at it.
#[derive(Debug)]
pub enum GameStateView {
    InDungeon { ongoing_event: Option<InDungeonEvent> },
    OutOfDungeon,
}

/// Whether the party is in the dungeon.
pub fn is_in_dungeon(state: &GameStateView) -> (res: bool)
    ensures
        res == state is InDungeon,
{
    match state {
        GameStateView::InDungeon { .. } => true,
        GameStateView::OutOfDungeon => false,
    }
}

/// Whether the party is out of the dungeon.
pub fn is_out_of_dungeon(state: &GameStateView) -> (res: bool)
    ensures
        res == state is OutOfDungeon,
{
    match state {
        GameStateView::InDungeon { .. } => false,
        GameStateView::OutOfDungeon => true,
    }
}

/// Whether the party can move: it is in the dungeon and nothing is going on.
pub fn is_moving_in_dungeon(state: &GameStateView) -> (res: bool)
    ensures
        res == (state matches GameStateView::InDungeon { ongoing_event } && ongoing_event is None),
{
    match state {
        GameStateView::InDungeon { ongoing_event } => ongoing_event.is_none(),
        _ => false,
    }
}

/// A signal of the in-dungeon view.
#[derive(Clone, Copy, Debug, PartialEq, Eq, Structural)]
pub enum InDungeonSignal {
    UpdatedState,
    UpdatedStateFight,
    UpdatedStateInteraction,
}

/// What the in-dungeon view does when the game state changes.
#[derive(Debug)]
pub struct InDungeonUpdate {
    /// Whether the view shows.
    pub visible: bool,
    /// Whether the map takes movement input.
    pub map_controlable: bool,
    /// The signals the view emits, in order.
    pub signals: Vec<InDungeonSignal>,
}

/// Whether an ongoing fight is going on.
pub open spec fn spec_is_fight(state: GameStateView) -> bool {
    state matches GameStateView::InDungeon { ongoing_event: Some(InDungeonEvent::Fight) }
}

/// Whether an ongoing interaction is going on.
pub open spec fn spec_is_interaction(state: GameStateView) -> bool {
    state matches GameStateView::InDungeon { ongoing_event: Some(InDungeonEvent::Interaction(_)) }
}

/// The signals of the in-dungeon view for a state: none outside the dungeon,
/// else the update, then the fight or interaction update where one is going on.
pub open spec fn spec_in_dungeon_signals(state: GameStateView) -> Seq<InDungeonSignal> {
    if state is InDungeon {
        seq![InDungeonSignal::UpdatedState]
            + (if spec_is_fight(state) { seq![InDungeonSignal::UpdatedStateFight] } else { Seq::empty() })
            + (if spec_is_interaction(state) { seq![InDungeonSignal::UpdatedStateInteraction] } else { Seq::empty() })
    } else {
        Seq::empty()
    }
}

/// What the in-dungeon view does on a change of the game state: it shows in the
/// dungeon, takes movement input where nothing is going on, and emits its signals.
pub fn in_dungeon_update(state: &GameStateView) -> (res: InDungeonUpdate)
    ensures
        res.visible == state is InDungeon,
        res.map_controlable == (state is InDungeon && !spec_is_fight(*state) && !spec_is_interaction(*state)),
        res.signals@ == spec_in_dungeon_signals(*state),
{
    let in_dungeon = is_in_dungeon(state);
    let mut is_fight = false;
    let mut is_interaction = false;
    match state {
        GameStateView::InDungeon { ongoing_event: Some(event) } => {
            match event {
                InDungeonEvent::Fight => {
                    is_fight = true;
                },
                InDungeonEvent::Interaction(_) => {
                    is_interaction = true;
                },
            }
        },
        _ => {},
    }
    let mut signals: Vec<InDungeonSignal> = Vec::new();
    if in_dungeon {
        signals.push(InDungeonSignal::UpdatedState);
        if is_fight {
            signals.push(InDungeonSignal::UpdatedStateFight);
        }
        if is_interaction {
            signals.push(InDungeonSignal::UpdatedStateInteraction);
        }
    }
    assert(signals@ =~= spec_in_dungeon_signals(*state));
    InDungeonUpdate {
        visible: in_dungeon,
        map_controlable: in_dungeon && !is_fight && !is_interaction,
        signals,
    }
}

/// A fight and an interaction never update together, and the view takes
/// movement input exactly when the party can move.
pub proof fn lemma_in_dungeon_update_consistent(state: GameStateView)
    ensures
        !(spec_is_fight(state) && spec_is_interaction(state)),
        (state is InDungeon && !spec_is_fight(state) && !spec_is_interaction(state))
            == (state matches GameStateView::InDungeon { ongoing_event } && ongoing_event is None),
        spec_in_dungeon_signals(state).len() <= 2,
{
}

/// What the out-of-dungeon view does on a change of the game state: it shows,
/// and emits its update, exactly when the party is out of the dungeon.
pub fn out_of_dungeon_update(state: &GameStateView) -> (res: (bool, bool))
    ensures
        res.0 == state is OutOfDungeon,
        res.1 == state is OutOfDungeon,
{
    let out = is_out_of_dungeon(state);
    (out, out)
}

/// Whether the game is in a loot interaction.
pub fn game_in_looting_interaction(state: &GameStateView) -> (res: bool)
    ensures
        res == (state matches GameStateView::InDungeon {
            ongoing_event: Some(InDungeonEvent::Interaction(OngoingInteraction::Loot { .. })) }),
{
    match state {
        GameStateView::InDungeon {
            ongoing_event: Some(InDungeonEvent::Interaction(OngoingInteraction::Loot { .. })),
        } => true,
        _ => false,
    }
}

/// The transfer of the ongoing loot interaction. The game must be in one.
pub fn loot_transfer(state: &GameStateView) -> (res: u64)
    requires
        state matches GameStateView::InDungeon {
            ongoing_event: Some(InDungeonEvent::Interaction(OngoingInteraction::Loot { .. })) },
    ensures
        state matches GameStateView::InDungeon {
            ongoing_event: Some(InDungeonEvent::Interaction(OngoingInteraction::Loot { transfer })) }
            && res == transfer,
{
    match state {
        GameStateView::InDungeon {
            ongoing_event: Some(InDungeonEvent::Interaction(OngoingInteraction::Loot { transfer })),
        } => *transfer,
        _ => 0,
    }
}

/// Which inventory the inventory view shows.
#[derive(Clone, Copy, Debug, PartialEq, Eq, Structural)]
pub enum InventorySource {
    /// The party's inventory on its dungeon run.
    PartyStats,
    /// The party's inventory between runs.
    PartyInventory,
}

/// The inventory view shows the run's inventory in the dungeon, else the party's.
pub fn inventory_source(state: &GameStateView) -> (res: InventorySource)
    ensures
        res == (if state is InDungeon { InventorySource::PartyStats } else { InventorySource::PartyInventory }),
{
    if is_in_dungeon(state) {
        InventorySource::PartyStats
    } else {
        InventorySource::PartyInventory
    }
}

} // verus!
