use vstd::prelude::*;
use crate::codes::{BuyResult, Team};

verus! {

/// Item instance flag: the item is bound to its owner.
pub const ITEM_FIELD_FLAG_SOULBOUND: u32 = 0x1;
/// Item instance flag: the purchase can still be refunded.
pub const ITEM_FIELD_FLAG_REFUNDABLE: u32 = 0x1000;
/// Item template flag: purchases of the item are recorded for refunds.
pub const ITEM_FLAG_ITEM_PURCHASE_RECORD: u32 = 0x1000;
/// Item template flag (second word): only the Horde may have the item.
pub const ITEM_FLAG2_FACTION_HORDE: u32 = 0x1;
/// Item template flag (second word): only the Alliance may have the item.
pub const ITEM_FLAG2_FACTION_ALLIANCE: u32 = 0x2;
/// Binding type: bound when picked up.
pub const ITEM_BONDING_ON_ACQUIRE: u8 = 1;
/// Binding type: bound when equipped.
pub const ITEM_BONDING_ON_EQUIP: u8 = 2;
/// Inventory type of a chest armor piece.
pub const INVENTORY_TYPE_CHEST: u8 = 5;
/// Inventory type of a bag.
pub const INVENTORY_TYPE_BAG: u8 = 18;
/// Seconds of played time after which a loaded purchase is no longer refundable.
pub const REFUND_PLAYED_TIME_LIMIT: u32 = 2 * 60 * 60;

/// What to do with the refund data of an item loaded from the database.
#[derive(Clone, Copy, Debug, PartialEq, Eq, Structural)]
pub enum LoadedItemRefundDecision {
    NotRefundable,
    Valid { paid_money: u64, paid_extended_cost: u16 },
    Clear { new_flags: u32 },
}

pub open spec fn refund_decision_of(
    item_flags: u32,
    played_time: u32,
    paid_money: Option<u64>,
    paid_extended_cost: Option<u16>,
) -> LoadedItemRefundDecision {
    if item_flags & ITEM_FIELD_FLAG_REFUNDABLE == 0 {
        LoadedItemRefundDecision::NotRefundable
    } else if played_time > REFUND_PLAYED_TIME_LIMIT {
        LoadedItemRefundDecision::Clear { new_flags: item_flags & !ITEM_FIELD_FLAG_REFUNDABLE }
    } else {
        match (paid_money, paid_extended_cost) {
            (Some(m), Some(e)) => LoadedItemRefundDecision::Valid {
                paid_money: m,
                paid_extended_cost: e,
            },
            _ => LoadedItemRefundDecision::Clear {
                new_flags: item_flags & !ITEM_FIELD_FLAG_REFUNDABLE,
            },
        }
    }
}

/// Refund data of a loaded item stays only for a refundable item within two
/// hours of played time whose paid money and paid cost are both known; otherwise
/// a refundable item loses its refundable flag.
pub fn loaded_item_refund_decision(
    item_flags: u32,
    played_time: u32,
    paid_money: Option<u64>,
    paid_extended_cost: Option<u16>,
) -> (d: LoadedItemRefundDecision)
    ensures
        d == refund_decision_of(item_flags, played_time, paid_money, paid_extended_cost),
        d is NotRefundable <==> item_flags & 0x1000 == 0,
        d is Valid <==> (item_flags & 0x1000 != 0 && played_time <= 7200 && paid_money is Some
            && paid_extended_cost is Some),
        d matches LoadedItemRefundDecision::Valid { paid_money: m, paid_extended_cost: e } ==> (
        paid_money == Some(m) && paid_extended_cost == Some(e)),
        d matches LoadedItemRefundDecision::Clear { new_flags } ==> new_flags == item_flags
            & !0x1000u32,
{
    if item_flags & ITEM_FIELD_FLAG_REFUNDABLE == 0 {
        return LoadedItemRefundDecision::NotRefundable;
    }
    let new_flags = item_flags & !ITEM_FIELD_FLAG_REFUNDABLE;
    if played_time > REFUND_PLAYED_TIME_LIMIT {
        return LoadedItemRefundDecision::Clear { new_flags };
    }
    match (paid_money, paid_extended_cost) {
        (Some(paid_money), Some(paid_extended_cost)) => LoadedItemRefundDecision::Valid {
            paid_money,
            paid_extended_cost,
        },
        _ => LoadedItemRefundDecision::Clear { new_flags },
    }
}

/// Clearing the refundable flag keeps every other flag and removes that one.
pub proof fn lemma_refund_clear_only_drops_refundable(flags: u32)
    ensures
        (flags & !ITEM_FIELD_FLAG_REFUNDABLE) & ITEM_FIELD_FLAG_REFUNDABLE == 0,
        (flags & !ITEM_FIELD_FLAG_REFUNDABLE) | (flags & ITEM_FIELD_FLAG_REFUNDABLE) == flags,
{
    assert((flags & !0x1000u32) & 0x1000u32 == 0) by (bit_vector);
    assert((flags & !0x1000u32) | (flags & 0x1000u32) == flags) by (bit_vector);
}

/// How destroying part of a stack changes it.
#[derive(Clone, Copy, Debug, PartialEq, Eq, Structural)]
pub enum DestroyItemCountAction {
    FullStack,
    PartialStack { new_count: u32 },
}

/// A request for a nonzero count smaller than the stack keeps the rest; any
/// other request destroys the whole stack.
pub fn destroy_item_count_action(current_count: u32, requested_count: u32) -> (a:
    DestroyItemCountAction)
    ensures
        a == (if requested_count != 0 && current_count > requested_count {
            DestroyItemCountAction::PartialStack {
                new_count: (current_count - requested_count) as u32,
            }
        } else {
            DestroyItemCountAction::FullStack
        }),
        a matches DestroyItemCountAction::PartialStack { new_count } ==> new_count
            + requested_count == current_count && new_count > 0,
{
    if requested_count != 0 && current_count > requested_count {
        return DestroyItemCountAction::PartialStack {
            new_count: current_count - requested_count,
        };
    }
    DestroyItemCountAction::FullStack
}

/// How selling an amount of a stack changes it.
#[derive(Clone, Copy, Debug, PartialEq, Eq, Structural)]
pub enum SellItemAmountAction {
    Invalid,
    FullStack { amount: u32 },
    PartialStack { amount: u32, remaining: u32 },
}

pub open spec fn sell_amount_of(current_count: u32, requested_amount: i32) -> SellItemAmountAction {
    let amount: int = if requested_amount == 0 {
        current_count as int
    } else {
        requested_amount as int
    };
    if amount <= 0 || amount > current_count {
        SellItemAmountAction::Invalid
    } else if amount < current_count {
        SellItemAmountAction::PartialStack {
            amount: amount as u32,
            remaining: (current_count - amount) as u32,
        }
    } else {
        SellItemAmountAction::FullStack { amount: amount as u32 }
    }
}

/// An amount of zero sells the whole stack; a negative amount or one above the
/// stack is refused; a smaller amount splits the stack.
pub fn sell_item_amount_action(current_count: u32, requested_amount: i32) -> (a:
    SellItemAmountAction)
    ensures
        a == sell_amount_of(current_count, requested_amount),
        a matches SellItemAmountAction::PartialStack { amount, remaining } ==> amount + remaining
            == current_count,
        a is Invalid <==> (requested_amount < 0 || requested_amount > current_count || (
        requested_amount == 0 && current_count == 0)),
        a matches SellItemAmountAction::FullStack { amount } ==> amount == current_count && (
        requested_amount == 0 || requested_amount == current_count),
        a matches SellItemAmountAction::PartialStack { amount, remaining } ==> amount
            == requested_amount && 0 < amount < current_count && remaining > 0,
{
    let amount: u32 = if requested_amount == 0 {
        current_count
    } else {
        if requested_amount < 0 {
            return SellItemAmountAction::Invalid;
        }
        requested_amount as u32
    };
    if amount == 0 || amount > current_count {
        return SellItemAmountAction::Invalid;
    }
    if amount < current_count {
        SellItemAmountAction::PartialStack { amount, remaining: current_count - amount }
    } else {
        SellItemAmountAction::FullStack { amount }
    }
}

/// A bag that still holds items.
pub fn item_is_not_empty_bag_like_cpp(inventory_type: Option<u8>, contains_items: bool) -> (b:
    bool)
    ensures
        b == (inventory_type == Some(INVENTORY_TYPE_BAG) && contains_items),
{
    match inventory_type {
        Some(t) => t == INVENTORY_TYPE_BAG && contains_items,
        None => false,
    }
}

/// The class bit of a class id (class 1 is bit 0); zero for ids outside 1..=32.
pub open spec fn class_mask_of(player_class: u8) -> u32 {
    if 1 <= player_class <= 32 {
        1u32 << ((player_class - 1) as u32)
    } else {
        0
    }
}

pub fn player_class_mask(player_class: u8) -> (m: u32)
    ensures
        m == class_mask_of(player_class),
        player_class == 1 ==> m == 1,
        !(1 <= player_class <= 32) ==> m == 0,
{
    assert(1u32 << 0u32 == 1u32) by (bit_vector);
    if player_class >= 1 && player_class <= 32 {
        1u32 << ((player_class - 1) as u32)
    } else {
        0
    }
}

/// Each class's bit is the next one up from the previous class's: the class
/// masks are the powers of two, class 1 being bit 0.
pub proof fn lemma_class_mask_doubles(c: u8)
    requires
        1 <= c < 32,
    ensures
        class_mask_of(1) == 1,
        class_mask_of((c + 1) as u8) == 2 * class_mask_of(c),
{
    let x = (c - 1) as u32;
    assert(1u32 << 0u32 == 1u32) by (bit_vector);
    assert(x < 31 ==> (1u32 << (x + 1) as u32) == 2 * (1u32 << x)) by (bit_vector);
}

/// Every class id in 1..=32 has a single-bit mask, and two different ids have disjoint masks.
pub proof fn lemma_class_masks_disjoint(a: u8, b: u8)
    requires
        1 <= a <= 32,
        1 <= b <= 32,
        a != b,
    ensures
        class_mask_of(a) != 0,
        class_mask_of(a) & class_mask_of(b) == 0,
{
    let x = (a - 1) as u32;
    let y = (b - 1) as u32;
    assert(x < 32 ==> (1u32 << x) != 0) by (bit_vector);
    assert(x < 32 && y < 32 && x != y ==> (1u32 << x) & (1u32 << y) == 0) by (bit_vector);
}

/// Bind-on-acquire items whose allowed classes exclude the player's class are
/// hidden from the player, unless the player is a game master.
pub fn vendor_list_should_skip_allowed_class(
    allowable_class: Option<i16>,
    bonding: Option<u8>,
    player_class: u8,
    is_game_master: bool,
) -> (b: bool)
    ensures
        b == (!is_game_master && bonding == Some(ITEM_BONDING_ON_ACQUIRE)
            && allowable_class is Some && (allowable_class->0 as i32) & (class_mask_of(
            player_class,
        ) as i32) == 0),
{
    if is_game_master || bonding != Some(ITEM_BONDING_ON_ACQUIRE) {
        return false;
    }
    match allowable_class {
        None => false,
        Some(allowable_class) => {
            (allowable_class as i32) & (player_class_mask(player_class) as i32) == 0
        },
    }
}

/// The Horde races; every other race belongs to the Alliance.
pub open spec fn horde_race(race: u8) -> bool {
    race == 2 || race == 5 || race == 6 || race == 8 || race == 9 || race == 10 || race == 26
        || race == 27 || race == 28 || race == 31 || race == 35 || race == 36 || race == 70
}

/// The Horde races, as a set.
pub open spec fn horde_races() -> Set<u8> {
    set![2u8, 5, 6, 8, 9, 10, 26, 27, 28, 31, 35, 36, 70]
}

/// A race is of the Horde exactly when it is one of the Horde races; every
/// other race is of the Alliance.
pub proof fn lemma_horde_races(race: u8)
    ensures
        horde_race(race) <==> horde_races().contains(race),
{
}

pub fn player_team_for_race_cpp(race: u8) -> (t: Team)
    ensures
        t == (if horde_race(race) {
            Team::Horde
        } else {
            Team::Alliance
        }),
        t == Team::Horde <==> horde_races().contains(race),
        t == Team::Alliance <==> !horde_races().contains(race),
{
    match race {
        2 | 5 | 6 | 8 | 9 | 10 | 26 | 27 | 28 | 31 | 35 | 36 | 70 => Team::Horde,
        _ => Team::Alliance,
    }
}

/// Items restricted to the other faction are hidden from players that are not game masters.
pub fn vendor_list_should_skip_faction_flags(flags2: Option<u32>, team: Team, is_game_master: bool) -> (b:
    bool)
    ensures
        b == (!is_game_master && flags2 is Some && ((flags2->0 & ITEM_FLAG2_FACTION_HORDE != 0
            && team == Team::Alliance) || (flags2->0 & ITEM_FLAG2_FACTION_ALLIANCE != 0 && team
            == Team::Horde))),
{
    if is_game_master {
        return false;
    }
    match flags2 {
        None => false,
        Some(flags2) => {
            (flags2 & ITEM_FLAG2_FACTION_HORDE != 0 && team == Team::Alliance) || (flags2
                & ITEM_FLAG2_FACTION_ALLIANCE != 0 && team == Team::Horde)
        },
    }
}

/// Why the item template stops a purchase.
#[derive(Clone, Copy, Debug, PartialEq, Eq, Structural)]
pub enum VendorBuyTemplateBlock {
    BuyError(BuyResult),
    Silent,
}

/// A class-restricted item is refused with "can't find item"; a faction-restricted
/// item is refused without a message; the class rule is checked first.
pub fn vendor_buy_template_block_result(
    allowable_class: Option<i16>,
    bonding: Option<u8>,
    flags2: Option<u32>,
    player_class: u8,
    player_race: u8,
    is_game_master: bool,
) -> (r: Option<VendorBuyTemplateBlock>)
    ensures
        r == (if (!is_game_master && bonding == Some(ITEM_BONDING_ON_ACQUIRE)
            && allowable_class is Some && (allowable_class->0 as i32) & (class_mask_of(
            player_class,
        ) as i32) == 0) {
            Some(VendorBuyTemplateBlock::BuyError(BuyResult::CantFindItem))
        } else if (!is_game_master && flags2 is Some && ((flags2->0 & ITEM_FLAG2_FACTION_HORDE
            != 0 && !horde_race(player_race)) || (flags2->0 & ITEM_FLAG2_FACTION_ALLIANCE != 0
            && horde_race(player_race)))) {
            Some(VendorBuyTemplateBlock::Silent)
        } else {
            None
        }),
{
    if vendor_list_should_skip_allowed_class(allowable_class, bonding, player_class, is_game_master) {
        return Some(VendorBuyTemplateBlock::BuyError(BuyResult::CantFindItem));
    }
    if vendor_list_should_skip_faction_flags(
        flags2,
        player_team_for_race_cpp(player_race),
        is_game_master,
    ) {
        return Some(VendorBuyTemplateBlock::Silent);
    }
    None
}

/// An item offered with an extended cost, stacking to one and recording purchases, is refundable.
pub fn vendor_list_item_refundable(
    item_flags: Option<u32>,
    max_stack_size: Option<u32>,
    extended_cost: i32,
) -> (b: bool)
    ensures
        b == (extended_cost > 0 && max_stack_size == Some(1u32) && item_flags is Some
            && item_flags->0 & ITEM_FLAG_ITEM_PURCHASE_RECORD != 0),
{
    extended_cost > 0 && max_stack_size == Some(1u32) && match item_flags {
        Some(flags) => flags & ITEM_FLAG_ITEM_PURCHASE_RECORD != 0,
        None => false,
    }
}

} // verus!
