use vstd::prelude::*;

verus! {

/// The "bag" value that names the player's own slots.
pub const INVENTORY_SLOT_BAG_0: u8 = 255;
/// A bag value meaning "no bag chosen".
pub const NULL_BAG: u8 = 0;
/// A slot value meaning "no slot chosen".
pub const NULL_SLOT: u8 = 255;
/// One past the last equipment slot.
pub const EQUIPMENT_SLOT_END: u8 = 19;
pub const INVENTORY_SLOT_BAG_START: u8 = 30;
pub const INVENTORY_SLOT_BAG_END: u8 = 34;
pub const REAGENT_BAG_SLOT_START: u8 = 34;
pub const REAGENT_BAG_SLOT_END: u8 = 35;
pub const INVENTORY_SLOT_ITEM_START: u8 = 35;
pub const INVENTORY_SLOT_ITEM_END: u8 = 59;
pub const BANK_SLOT_BAG_START: u8 = 87;
pub const BANK_SLOT_BAG_END: u8 = 94;
pub const BUYBACK_SLOT_START: u8 = 94;
pub const BUYBACK_SLOT_END: u8 = 106;
/// Number of slots in the default backpack.
pub const INVENTORY_DEFAULT_SIZE: u8 = 16;
/// The largest number of slots a bag can have.
pub const MAX_BAG_SIZE: u8 = 36;

/// A (bag, slot) position that stores into the player's inventory.
pub open spec fn inventory_pos(bag: u8, slot: u8) -> bool {
    ||| (bag == INVENTORY_SLOT_BAG_0 && slot == NULL_SLOT)
    ||| (bag == INVENTORY_SLOT_BAG_0 && INVENTORY_SLOT_ITEM_START <= slot
        && slot < INVENTORY_SLOT_ITEM_END)
    ||| (INVENTORY_SLOT_BAG_START <= bag && bag < INVENTORY_SLOT_BAG_END)
    ||| (REAGENT_BAG_SLOT_START <= bag && bag < REAGENT_BAG_SLOT_END)
}

/// A (bag, slot) position that is worn: equipment, profession, bag and reagent-bag slots.
pub open spec fn equipment_pos(bag: u8, slot: u8) -> bool {
    bag == INVENTORY_SLOT_BAG_0 && slot < REAGENT_BAG_SLOT_END
}

/// A position of the player's own slots is never both worn and a place to
/// store into, and the bag slots are worn positions while the backpack slots
/// are storage.
pub proof fn lemma_worn_and_stored_positions_disjoint(slot: u8)
    ensures
        !(equipment_pos(INVENTORY_SLOT_BAG_0, slot) && inventory_pos(INVENTORY_SLOT_BAG_0, slot)),
        bag_slot(slot) && slot < INVENTORY_SLOT_ITEM_START ==> equipment_pos(INVENTORY_SLOT_BAG_0,
            slot),
        INVENTORY_SLOT_ITEM_START <= slot < INVENTORY_SLOT_ITEM_END ==> inventory_pos(
            INVENTORY_SLOT_BAG_0,
            slot,
        ) && !equipment_pos(INVENTORY_SLOT_BAG_0, slot),
{
}

pub fn is_inventory_pos(bag: u8, slot: u8) -> (b: bool)
    ensures
        b == inventory_pos(bag, slot),
        b <==> ((bag == 255 && (slot == 255 || 35 <= slot < 59)) || 30 <= bag < 35),
{
    (bag == INVENTORY_SLOT_BAG_0 && slot == NULL_SLOT) || (bag == INVENTORY_SLOT_BAG_0
        && INVENTORY_SLOT_ITEM_START <= slot && slot < INVENTORY_SLOT_ITEM_END) || (
    INVENTORY_SLOT_BAG_START <= bag && bag < INVENTORY_SLOT_BAG_END) || (REAGENT_BAG_SLOT_START
        <= bag && bag < REAGENT_BAG_SLOT_END)
}

pub fn is_equipment_pos(bag: u8, slot: u8) -> (b: bool)
    ensures
        b == equipment_pos(bag, slot),
        b <==> (bag == 255 && slot < 35),
{
    bag == INVENTORY_SLOT_BAG_0 && slot < REAGENT_BAG_SLOT_END
}

/// A slot that holds a bag: the worn bag slots, the bank bag slots and the reagent bag slot.
pub open spec fn bag_slot(slot: u8) -> bool {
    ||| (INVENTORY_SLOT_BAG_START <= slot && slot < INVENTORY_SLOT_BAG_END)
    ||| (BANK_SLOT_BAG_START <= slot && slot < BANK_SLOT_BAG_END)
    ||| (REAGENT_BAG_SLOT_START <= slot && slot < REAGENT_BAG_SLOT_END)
}

pub fn is_represented_bag_slot(slot: u8) -> (b: bool)
    ensures
        b == bag_slot(slot),
        b <==> (30 <= slot < 35 || 87 <= slot < 94),
{
    (INVENTORY_SLOT_BAG_START <= slot && slot < INVENTORY_SLOT_BAG_END) || (BANK_SLOT_BAG_START
        <= slot && slot < BANK_SLOT_BAG_END) || (REAGENT_BAG_SLOT_START <= slot && slot
        < REAGENT_BAG_SLOT_END)
}

/// A slot of the buyback list.
pub fn is_buyback_slot(slot: u8) -> (b: bool)
    ensures
        b == (BUYBACK_SLOT_START <= slot && slot < BUYBACK_SLOT_END),
        b <==> 94 <= slot < 106,
{
    BUYBACK_SLOT_START <= slot && slot < BUYBACK_SLOT_END
}

} // verus!
