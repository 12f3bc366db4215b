//! What the interface shows for the ongoing interaction of the dungeon.
use vstd::prelude::*;
use crate::directions::{Direction, all_directions, spec_all_directions};
use crate::ui_input::UiInput;

verus! {

/// An interaction in progress, with what the interface needs of it.
#[derive(Debug)]
pub enum OngoingInteraction {
    Dig { directions: Vec<Direction> },
    Camp { amount: i32 },
    Loot { transfer: u64 },
    OpenCloseDoor { open: bool, directions: Vec<Direction> },
    PitonDoor { insert: bool, directions: Vec<Direction> },
}

/// What a direction picked in the direction picker does.
#[derive(Clone, Copy, Debug, PartialEq, Eq, Structural)]
pub enum DirectedAction {
    Dig,
    OpenClose { open: bool },
    Piton { insert: bool },
}

/// The input a picked direction sends.
pub open spec fn spec_directed_input(action: DirectedAction, direction: Direction) -> UiInput {
    match action {
        DirectedAction::Dig => UiInput::Dig(direction),
        DirectedAction::OpenClose { open } => UiInput::OpenClose { open, direction },
        DirectedAction::Piton { insert } => UiInput::PitonAddRemove { insert, direction },
    }
}

/// The input a picked direction sends.
pub fn directed_input(action: DirectedAction, direction: Direction) -> (res: UiInput)
    ensures
        res == spec_directed_input(action, direction),
{
    match action {
        DirectedAction::Dig => UiInput::Dig(direction),
        DirectedAction::OpenClose { open } => UiInput::OpenClose { open, direction },
        DirectedAction::Piton { insert } => UiInput::PitonAddRemove { insert, direction },
    }
}

/// How the direction picker is set up: what cancel sends, what a picked
/// direction does, and which directions can be picked.
#[derive(Debug)]
pub struct DirectionPickerConfig {
    pub cancel_input: Option<UiInput>,
    pub directed: DirectedAction,
    pub allowed_directions: Vec<Direction>,
}

/// Which of the picker's buttons show.
#[derive(Debug)]
pub struct PickerVisibility {
    /// Whether the cancel button shows.
    pub cancel: bool,
    /// Whether each direction button shows, in the order right, up, left, down.
    pub directions: Vec<bool>,
}

/// The cancel button shows where cancelling sends something; a direction
/// button shows where its direction is allowed.
pub fn picker_visibility(config: &DirectionPickerConfig) -> (res: PickerVisibility)
    ensures
        res.cancel == config.cancel_input is Some,
        res.directions@.len() == 4,
        forall|i: int| 0 <= i < 4 ==> #[trigger] res.directions@[i]
            == config.allowed_directions@.contains(spec_all_directions()[i]),
{
    let dirs = all_directions();
    let mut visible: Vec<bool> = Vec::new();
    let mut i: usize = 0;
    while i < dirs.len()
        invariant
            i <= dirs@.len(),
            dirs@ == spec_all_directions(),
            visible@.len() == i,
            forall|j: int| 0 <= j < i ==> #[trigger] visible@[j]
                == config.allowed_directions@.contains(spec_all_directions()[j]),
        decreases dirs@.len() - i,
    {
        let d = dirs[i];
        visible.push(contains_direction(&config.allowed_directions, d));
        i = i + 1;
    }
    PickerVisibility { cancel: config.cancel_input.is_some(), directions: visible }
}

/// Whether `d` is among `dirs`.
pub fn contains_direction(dirs: &Vec<Direction>, d: Direction) -> (res: bool)
    ensures
        res == dirs@.contains(d),
{
    let mut i: usize = 0;
    while i < dirs.len()
        invariant
            i <= dirs@.len(),
            forall|j: int| 0 <= j < i ==> dirs@[j] != d,
        decreases dirs@.len() - i,
    {
        if dirs[i] == d {
            return true;
        }
        i = i + 1;
    }
    false
}

/// The input that a picked direction sends under a picker configuration.
pub fn pick_direction(config: &DirectionPickerConfig, direction: Direction) -> (res: UiInput)
    ensures
        res == spec_directed_input(config.directed, direction),
{
    directed_input(config.directed, direction)
}

/// What the interface does for an ongoing interaction.
#[derive(Debug)]
pub enum InteractionView {
    /// The direction picker shows, with this text and configuration.
    Direction { text: String, config: DirectionPickerConfig },
    /// The camping view shows this amount.
    Camp { amount: i32 },
    /// The loot view shows.
    Loot,
}

/// The text of the direction picker for digging.
pub open spec fn spec_dig_text() -> Seq<char> {
    "Dig through a wall"@
}

/// The text of the direction picker for a door, after the verb the game gives.
pub open spec fn spec_door_text(verb: Seq<char>) -> Seq<char> {
    verb + " a door"@
}

/// What the interface shows for an interaction: the direction picker for
/// digging and for doors, with the door verb the game gives in `door_verb`,
/// the camping view, or the loot view.
pub fn interaction_view(interaction: &OngoingInteraction, door_verb: &str) -> (res: InteractionView)
    ensures
        match *interaction {
            OngoingInteraction::Dig { directions } => res matches InteractionView::Direction { text, config }
                && text@ == spec_dig_text()
                && config.cancel_input == Some(UiInput::DigCancel)
                && config.directed == DirectedAction::Dig
                && config.allowed_directions@ == directions@,
            OngoingInteraction::Camp { amount } => res == InteractionView::Camp { amount },
            OngoingInteraction::Loot { transfer: _ } => res == InteractionView::Loot,
            OngoingInteraction::OpenCloseDoor { open, directions } => res matches InteractionView::Direction { text, config }
                && text@ == spec_door_text(door_verb@)
                && config.cancel_input == Some(UiInput::OpenCloseCancel)
                && config.directed == (DirectedAction::OpenClose { open })
                && config.allowed_directions@ == directions@,
            OngoingInteraction::PitonDoor { insert, directions } => res matches InteractionView::Direction { text, config }
                && text@ == spec_door_text(door_verb@)
                && config.cancel_input == Some(UiInput::PitonCancel)
                && config.directed == (DirectedAction::Piton { insert })
                && config.allowed_directions@ == directions@,
        },
{
    match interaction {
        OngoingInteraction::Dig { directions } => {
            let text = String::from_str("Dig through a wall");
            InteractionView::Direction {
                text,
                config: DirectionPickerConfig {
                    cancel_input: Some(UiInput::DigCancel),
                    directed: DirectedAction::Dig,
                    allowed_directions: directions.clone(),
                },
            }
        },
        OngoingInteraction::Camp { amount } => InteractionView::Camp { amount: *amount },
        OngoingInteraction::Loot { transfer: _ } => InteractionView::Loot,
        OngoingInteraction::OpenCloseDoor { open, directions } => {
            let text = String::from_str(door_verb).concat(" a door");
            InteractionView::Direction {
                text,
                config: DirectionPickerConfig {
                    cancel_input: Some(UiInput::OpenCloseCancel),
                    directed: DirectedAction::OpenClose { open: *open },
                    allowed_directions: directions.clone(),
                },
            }
        },
        OngoingInteraction::PitonDoor { insert, directions } => {
            let text = String::from_str(door_verb).concat(" a door");
            InteractionView::Direction {
                text,
                config: DirectionPickerConfig {
                    cancel_input: Some(UiInput::PitonCancel),
                    directed: DirectedAction::Piton { insert: *insert },
                    allowed_directions: directions.clone(),
                },
            }
        },
    }
}


/// The input the picker's cancel button sends, if it sends any.
pub fn cancel_input(config: &DirectionPickerConfig) -> (res: Option<UiInput>)
    ensures
        res == config.cancel_input,
{
    config.cancel_input
}

/// The name of the method a direction button calls.
pub fn pick_method_name(direction: Direction) -> (res: &'static str)
    ensures
        res@ == match direction {
            Direction::Right => "pick_right"@,
            Direction::Up => "pick_up"@,
            Direction::Left => "pick_left"@,
            Direction::Down => "pick_down"@,
        },
{
    match direction {
        Direction::Right => "pick_right",
        Direction::Up => "pick_up",
        Direction::Left => "pick_left",
        Direction::Down => "pick_down",
    }
}
} // verus!
