//! The inputs the interface sends to the game.
use vstd::prelude::*;
use crate::directions::Direction;

verus! {

/// Which of the two inventories of a transfer something comes from.
#[derive(Clone, Copy, Debug, PartialEq, Eq, Structural)]
pub enum TransferIdentifier {
    From,
    To,
}

/// What a transfer moves.
#[derive(Clone, Copy, Debug, PartialEq, Eq, Structural)]
pub enum Transfer {
    Food { amount: i32 },
    Gold { amount: i32 },
}

/// A transfer between the two inventories of a loot interaction.
#[derive(Clone, Copy, Debug, PartialEq, Eq, Structural)]
pub struct InventoryTransfer {
    pub source_inventory: TransferIdentifier,
    pub transfer: Transfer,
}

/// An input the interface sends to the game.
#[derive(Clone, Copy, Debug, PartialEq, Eq, Structural)]
pub enum UiInput {
    CampPickAmount(i32),
    Camp,
    CampCancel,
    DigCancel,
    Dig(Direction),
    OpenCloseCancel,
    OpenClose { open: bool, direction: Direction },
    PitonCancel,
    PitonAddRemove { insert: bool, direction: Direction },
    FightAdvance,
    ScoutCancel,
    LootTransfer(InventoryTransfer),
    LootFinish,
}

/// The input that picks a camping amount changed by `delta`. The sum must fit
/// in an `i32`.
pub fn camp_change_amount(amount: i32, delta: i32) -> (res: UiInput)
    requires
        i32::MIN <= amount + delta <= i32::MAX,
    ensures
        res == UiInput::CampPickAmount((amount + delta) as i32),
{
    UiInput::CampPickAmount(amount + delta)
}

/// The input that digs in a direction.
pub fn dig_direction(direction: Direction) -> (res: UiInput)
    ensures
        res == UiInput::Dig(direction),
{
    UiInput::Dig(direction)
}

} // verus!
