use vstd::prelude::*;

verus! {

/// Equipment/inventory error results that the vendor and inventory rules produce.
#[derive(Clone, Copy, Debug, PartialEq, Eq, Structural)]
pub enum InventoryResult {
    Success,
    WrongSlot,
    NoSlotAvailable,
    WrongBagType,
    NotEquippable,
    ItemLocked,
    CantEquipRank,
    VendorMissingTurnins,
    TooMuchGold,
    CantBuyQuantity,
    InternalBagError,
    SlotEmpty,
    InvFull,
}

/// Vendor purchase error results.
#[derive(Clone, Copy, Debug, PartialEq, Eq, Structural)]
pub enum BuyResult {
    CantFindItem,
    ItemAlreadySold,
    NotEnoughtMoney,
    DistanceTooFar,
    ReputationRequire,
}

/// Vendor sale error results.
#[derive(Clone, Copy, Debug, PartialEq, Eq, Structural)]
pub enum SellResult {
    CantFindVendor,
    YouDontOwnThatItem,
    CantFindItem,
    CantSellItem,
}

/// The faction a player belongs to.
#[derive(Clone, Copy, Debug, PartialEq, Eq, Structural)]
pub enum Team {
    Alliance,
    Horde,
}

/// The largest amount of copper a player may hold.
pub const MAX_MONEY_AMOUNT: u64 = 99_999_999_999;

} // verus!
