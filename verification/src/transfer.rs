//! The transfer dialog of a loot interaction: how much of what moves between
//! the two inventories.
use vstd::prelude::*;
use crate::ui_input::{InventoryTransfer, Transfer, TransferIdentifier, UiInput};

verus! {

/// What a transfer dialog moves.
#[derive(Clone, Copy, Debug, PartialEq, Eq, Structural)]
pub enum TransferType {
    Money,
    Food,
}

/// The transfer being set up in the dialog.
#[derive(Clone, Copy, Debug, PartialEq, Eq, Structural)]
pub struct TransferDetails {
    pub transfer_type: TransferType,
    pub source: TransferIdentifier,
    pub amount: i32,
}

/// The state of a transfer dialog: the transfer and the range its amount can take.
#[derive(Clone, Copy, Debug, PartialEq, Eq, Structural)]
pub struct TransferDialog {
    pub details: TransferDetails,
    pub min: i32,
    pub max: i32,
}

/// The amount a request sets: clamped below `max`, then raised to `min`.
pub open spec fn spec_clamp(amount: int, min: int, max: int) -> int {
    let a = if amount < max { amount } else { max };
    if a > min { a } else { min }
}

/// The slider of a dialog: its minimum, its maximum, and the value it is set to.
#[derive(Clone, Copy, Debug, PartialEq, Eq, Structural)]
pub struct SliderSetup {
    pub min: i32,
    pub max: i32,
    pub value: i32,
}

impl TransferDialog {
    /// A fresh dialog: moving money from the first inventory, nothing of it.
    pub fn new() -> (res: Self)
        ensures
            res.details == (TransferDetails { transfer_type: TransferType::Money, source: TransferIdentifier::From, amount: 0 }),
            res.min == 0,
            res.max == 0,
    {
        TransferDialog {
            details: TransferDetails { transfer_type: TransferType::Money, source: TransferIdentifier::From, amount: 0 },
            min: 0,
            max: 0,
        }
    }

    /// Opens the dialog for moving money or food out of `source`, whose inventory
    /// holds `cash` and `food`: the amount can range from none to all of it, and
    /// starts at none. Returns how the slider is set up: at the most.
    pub fn init(&mut self, transfer_type: TransferType, source: TransferIdentifier, cash: i32, food: i32) -> (res: SliderSetup)
        ensures
            final(self).min == 0,
            final(self).max == (match transfer_type {
                TransferType::Money => cash,
                TransferType::Food => food,
            }),
            final(self).details == (TransferDetails {
                transfer_type,
                source,
                amount: spec_clamp(0, 0, final(self).max as int) as i32,
            }),
            res == (SliderSetup { min: 0, max: final(self).max, value: final(self).max }),
    {
        self.details = TransferDetails { transfer_type, source, amount: 0 };
        match transfer_type {
            TransferType::Money => {
                self.min = 0;
                self.max = cash;
            },
            TransferType::Food => {
                self.min = 0;
                self.max = food;
            },
        }
        let min = self.min;
        self.set_amount(min);
        SliderSetup { min: self.min, max: self.max, value: self.max }
    }

    /// Sets the amount, clamped to the dialog's range. Returns the amount set.
    pub fn set_amount(&mut self, amount: i32) -> (res: i32)
        ensures
            res == spec_clamp(amount as int, old(self).min as int, old(self).max as int),
            final(self).details == (TransferDetails { amount: res, ..old(self).details }),
            final(self).min == old(self).min,
            final(self).max == old(self).max,
    {
        let a = if amount < self.max { amount } else { self.max };
        let a = if a > self.min { a } else { self.min };
        self.details.amount = a;
        a
    }

    /// The transfer the dialog applies: food or gold, the amount set, out of its source.
    pub fn apply(&self) -> (res: InventoryTransfer)
        ensures
            res.source_inventory == self.details.source,
            res.transfer == (match self.details.transfer_type {
                TransferType::Food => Transfer::Food { amount: self.details.amount },
                TransferType::Money => Transfer::Gold { amount: self.details.amount },
            }),
    {
        InventoryTransfer {
            source_inventory: self.details.source,
            transfer: match self.details.transfer_type {
                TransferType::Food => Transfer::Food { amount: self.details.amount },
                TransferType::Money => Transfer::Gold { amount: self.details.amount },
            },
        }
    }
}

/// Where the range is not empty, a set amount lies in it; where it is, the
/// amount is the minimum.
pub proof fn lemma_clamp_in_range(amount: int, min: int, max: int)
    ensures
        min <= max ==> min <= spec_clamp(amount, min, max) <= max,
        min <= amount <= max ==> spec_clamp(amount, min, max) == amount,
        max < min ==> spec_clamp(amount, min, max) == min,
{
}

/// The inventory displays a transfer of one direction moves between: the
/// display it takes from, which is its source, and the display it gives to.
pub open spec fn spec_directed_displays(direction: TransferIdentifier) -> (TransferIdentifier, TransferIdentifier) {
    match direction {
        TransferIdentifier::From => (TransferIdentifier::From, TransferIdentifier::To),
        TransferIdentifier::To => (TransferIdentifier::To, TransferIdentifier::From),
    }
}

/// The inventory displays a transfer of one direction moves between: the
/// display it takes from and the display it gives to.
pub fn directed_displays(direction: TransferIdentifier) -> (res: (TransferIdentifier, TransferIdentifier))
    ensures
        res == spec_directed_displays(direction),
{
    match direction {
        TransferIdentifier::From => (TransferIdentifier::From, TransferIdentifier::To),
        TransferIdentifier::To => (TransferIdentifier::To, TransferIdentifier::From),
    }
}

/// A transfer takes from its own source and gives to the other display, and the
/// two directions move between the same displays the opposite way.
pub proof fn lemma_directed_displays_swap(direction: TransferIdentifier)
    ensures
        spec_directed_displays(direction).0 == direction,
        spec_directed_displays(direction).0 != spec_directed_displays(direction).1,
        spec_directed_displays(TransferIdentifier::From)
            == (spec_directed_displays(TransferIdentifier::To).1, spec_directed_displays(TransferIdentifier::To).0),
{
}

/// Which transfer the loot view shows, if any, by the identity of the game's
/// transfer object.
#[derive(Clone, Copy, Debug, PartialEq, Eq, Structural)]
pub struct OngoingTransferState {
    pub current: Option<u64>,
}

impl OngoingTransferState {
    /// No transfer shown.
    pub fn new() -> (res: Self)
        ensures
            res.current is None,
    {
        OngoingTransferState { current: None }
    }

    /// The loot view stops showing its transfer.
    pub fn clear_transfer_ui(&mut self)
        ensures
            final(self).current is None,
    {
        self.current = None;
    }

    /// The loot view is to show the transfer with identity `transfer`. Its two
    /// inventory displays are set up anew, and the transfer recorded, unless the
    /// view already shows that very transfer object. Returns whether they are.
    pub fn set_transfer_ui(&mut self, transfer: u64) -> (res: bool)
        ensures
            res == (old(self).current != Some(transfer)),
            final(self).current == Some(transfer),
    {
        let same = match self.current {
            Some(t) => t == transfer,
            None => false,
        };
        if same {
            return false;
        }
        self.current = Some(transfer);
        true
    }

    /// The loot view is updated with the transfer with identity `transfer`;
    /// `equals_current` says whether that transfer equals, by value, the one the
    /// view shows now (the engine side compares them, the transfer being the
    /// game's object). Where no transfer is shown, or the new one differs by
    /// value, the view goes on as `set_transfer_ui`; else nothing changes.
    /// Returns whether the displays are set up anew.
    pub fn updated(&mut self, transfer: u64, equals_current: bool) -> (res: bool)
        ensures
            res == spec_needs_setup(old(self).current, transfer, equals_current),
            final(self).current == (if old(self).current is None || !equals_current {
                Some(transfer)
            } else {
                old(self).current
            }),
    {
        if self.current.is_none() || !equals_current {
            self.set_transfer_ui(transfer)
        } else {
            false
        }
    }
}

/// Whether updating the loot view, now showing the transfer `current`, with the
/// transfer `transfer` sets its displays up anew: there is none shown or the new
/// one differs from it by value, and it is not the very transfer shown.
pub open spec fn spec_needs_setup(current: Option<u64>, transfer: u64, equals_current: bool) -> bool {
    (current is None || !equals_current) && current != Some(transfer)
}

/// With no transfer shown, an update sets the displays up; an update with the
/// transfer shown, or with one equal to it by value, sets nothing up. So
/// updating twice with one transfer sets the displays up at most once.
pub proof fn lemma_transfer_ui_set_up_once(current: Option<u64>, transfer: u64, equals_current: bool)
    ensures
        spec_needs_setup(None, transfer, equals_current),
        !spec_needs_setup(Some(transfer), transfer, equals_current),
        current is Some ==> !spec_needs_setup(current, transfer, true),
{
}

/// The input that a finished transfer dialog sends.
pub fn transfer_input(dialog: &TransferDialog) -> (res: UiInput)
    ensures
        res == UiInput::LootTransfer((InventoryTransfer {
            source_inventory: dialog.details.source,
            transfer: match dialog.details.transfer_type {
                TransferType::Food => Transfer::Food { amount: dialog.details.amount },
                TransferType::Money => Transfer::Gold { amount: dialog.details.amount },
            },
        })),
{
    UiInput::LootTransfer(dialog.apply())
}

} // verus!
