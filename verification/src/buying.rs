use vstd::prelude::*;
use crate::codes::{BuyResult, InventoryResult};
use crate::extended_cost::{
    cost_consults_holdings, deterministic_query, extended_cost_block, lookup_in, total_query,
    vendor_buy_extended_cost_block_result,
    ItemExtendedCostStore, VendorExtendedCostBlock,
};
use crate::items::{
    class_mask_of, horde_race, vendor_buy_template_block_result, VendorBuyTemplateBlock,
    ITEM_BONDING_ON_ACQUIRE, ITEM_FLAG2_FACTION_ALLIANCE, ITEM_FLAG2_FACTION_HORDE,
};
use crate::slots::{equipment_pos, inventory_pos, NULL_BAG, NULL_SLOT};
use crate::vendor::{
    vendor_buy_currency_quantity_block_result, vendor_buy_direct_store_block_result,
    vendor_buy_player_condition_block_result_like_cpp, vendor_buy_required_reputation_block_result,
    vendor_condition_fails, vendor_conditions_block_result, CurrencyTypesStore,
    PlayerConditionOutcome,
};

verus! {

/// How a purchase is refused.
#[derive(Clone, Copy, Debug, PartialEq, Eq, Structural)]
pub enum BuyRefusal {
    /// Answer with a purchase error.
    Buy(BuyResult),
    /// Answer with an inventory error.
    Equip(InventoryResult),
    /// Drop the request without an answer.
    Silent,
}

/// What the item and the vendor row say of who may buy an item.
#[derive(Clone, Copy, Debug, PartialEq, Eq, Structural)]
pub struct BuyEligibility {
    pub allowable_class: Option<i16>,
    pub bonding: Option<u8>,
    pub flags2: Option<u32>,
    pub player_class: u8,
    pub player_race: u8,
    pub is_game_master: bool,
    /// Whether a condition manager is loaded.
    pub condition_store_loaded: bool,
    pub has_vendor_conditions: bool,
    pub player_condition_id: u32,
    pub player_condition: PlayerConditionOutcome,
}

pub open spec fn eligibility_refusal(e: BuyEligibility) -> Option<BuyRefusal> {
    if !e.is_game_master && e.bonding == Some(ITEM_BONDING_ON_ACQUIRE) && e.allowable_class is Some
        && (e.allowable_class->0 as i32) & (class_mask_of(e.player_class) as i32) == 0 {
        Some(BuyRefusal::Buy(BuyResult::CantFindItem))
    } else if !e.is_game_master && e.flags2 is Some && ((e.flags2->0 & ITEM_FLAG2_FACTION_HORDE
        != 0 && !horde_race(e.player_race)) || (e.flags2->0 & ITEM_FLAG2_FACTION_ALLIANCE != 0
        && horde_race(e.player_race))) {
        Some(BuyRefusal::Silent)
    } else if !e.condition_store_loaded && e.has_vendor_conditions {
        Some(BuyRefusal::Buy(BuyResult::CantFindItem))
    } else if vendor_condition_fails(e.player_condition_id, e.player_condition) {
        Some(BuyRefusal::Equip(InventoryResult::ItemLocked))
    } else {
        None
    }
}

/// The checks of an item purchase before the vendor's stock is read: the
/// item's class and faction restrictions, vendor conditions that cannot be
/// evaluated, and the player condition, in that order.
pub fn buy_item_eligibility_checks(e: BuyEligibility) -> (r: Option<BuyRefusal>)
    ensures
        r == eligibility_refusal(e),
{
    if let Some(block) = vendor_buy_template_block_result(
        e.allowable_class,
        e.bonding,
        e.flags2,
        e.player_class,
        e.player_race,
        e.is_game_master,
    ) {
        return match block {
            VendorBuyTemplateBlock::BuyError(result) => Some(BuyRefusal::Buy(result)),
            VendorBuyTemplateBlock::Silent => Some(BuyRefusal::Silent),
        };
    }
    if !e.condition_store_loaded {
        if let Some(result) = vendor_conditions_block_result(e.has_vendor_conditions) {
            return Some(BuyRefusal::Buy(result));
        }
    }
    if let Some(result) = vendor_buy_player_condition_block_result_like_cpp(
        e.player_condition_id,
        e.player_condition,
    ) {
        return Some(BuyRefusal::Equip(result));
    }
    None
}

pub open spec fn ext_cost_refusal(b: Option<VendorExtendedCostBlock>) -> Option<BuyRefusal> {
    match b {
        None => None,
        Some(VendorExtendedCostBlock::Equip(r)) => Some(BuyRefusal::Equip(r)),
        Some(VendorExtendedCostBlock::Buy(r)) => Some(BuyRefusal::Buy(r)),
        Some(VendorExtendedCostBlock::Silent) => Some(BuyRefusal::Silent),
    }
}

/// The checks of an item purchase once the vendor's stock is known: enough
/// stock of a limited item, the item's reputation requirement (the player's
/// rank is not tracked and counts as below every rank), the extended cost, and
/// the chosen storage position, in that order. The holdings queries are asked
/// only when the extended cost is reached and consults them.
#[verifier::loop_isolation(false)]
pub fn buy_item_stock_and_cost_checks<F1: Fn(u32, u32) -> bool, F2: Fn(u32, u32) -> bool>(
    max_count: u32,
    vendor_current_count: u32,
    quantity: u32,
    required_reputation_faction: Option<u16>,
    required_reputation_rank: Option<i32>,
    extended_cost_store: Option<&ItemExtendedCostStore>,
    currency_store: Option<&CurrencyTypesStore>,
    has_item_count: F1,
    has_currency: F2,
    extended_cost: u32,
    buy_count: u32,
    store_bag: u8,
    store_slot: u8,
) -> (r: Option<BuyRefusal>)
    requires
        !(max_count != 0 && vendor_current_count < quantity) && !(
        required_reputation_faction.unwrap_or(0) != 0 && -1 < required_reputation_rank.unwrap_or(
            0,
        )) && cost_consults_holdings(extended_cost_store, extended_cost, buy_count, quantity)
            ==> total_query(has_item_count) && total_query(has_currency),
    ensures
        max_count != 0 && vendor_current_count < quantity ==> r == Some(
            BuyRefusal::Buy(BuyResult::ItemAlreadySold),
        ),
        !(max_count != 0 && vendor_current_count < quantity)
            && required_reputation_faction.unwrap_or(0) != 0 && -1
            < required_reputation_rank.unwrap_or(0) ==> r == Some(
            BuyRefusal::Buy(BuyResult::ReputationRequire),
        ),
        !(max_count != 0 && vendor_current_count < quantity) && !(
        required_reputation_faction.unwrap_or(0) != 0 && -1 < required_reputation_rank.unwrap_or(
            0,
        )) ==> {
            let per = if buy_count == 0 {
                1
            } else {
                buy_count
            };
            &&& extended_cost == 0 ==> r == (if (store_bag == NULL_BAG && store_slot == NULL_SLOT)
                || inventory_pos(store_bag, store_slot) {
                None
            } else if equipment_pos(store_bag, store_slot) {
                Some(BuyRefusal::Equip(InventoryResult::NotEquippable))
            } else {
                Some(BuyRefusal::Equip(InventoryResult::WrongSlot))
            })
            &&& extended_cost != 0 && quantity % per != 0 ==> r == Some(
                BuyRefusal::Equip(InventoryResult::CantBuyQuantity),
            )
            &&& extended_cost != 0 && quantity % per == 0 && lookup_in(
                extended_cost_store,
                extended_cost,
            ) is None ==> r == Some(BuyRefusal::Silent)
        },
        deterministic_query(has_item_count) && deterministic_query(has_currency) ==> r == (if max_count != 0 && vendor_current_count < quantity {
            Some(BuyRefusal::Buy(BuyResult::ItemAlreadySold))
        } else if required_reputation_faction.unwrap_or(0) != 0 && -1 < required_reputation_rank.unwrap_or(0) {
            Some(BuyRefusal::Buy(BuyResult::ReputationRequire))
        } else if extended_cost_block(
            lookup_in(extended_cost_store, extended_cost),
            currency_store,
            has_item_count,
            has_currency,
            true,
            extended_cost,
            buy_count,
            quantity,
        ) is Some {
            ext_cost_refusal(
                extended_cost_block(
                    lookup_in(extended_cost_store, extended_cost),
                    currency_store,
                    has_item_count,
                    has_currency,
                    true,
                    extended_cost,
                    buy_count,
                    quantity,
                ),
            )
        } else if (store_bag == NULL_BAG && store_slot == NULL_SLOT) || inventory_pos(
            store_bag,
            store_slot,
        ) {
            None
        } else if equipment_pos(store_bag, store_slot) {
            Some(BuyRefusal::Equip(InventoryResult::NotEquippable))
        } else {
            Some(BuyRefusal::Equip(InventoryResult::WrongSlot))
        }),
{
    if max_count != 0 && vendor_current_count < quantity {
        return Some(BuyRefusal::Buy(BuyResult::ItemAlreadySold));
    }
    if let Some(result) = vendor_buy_required_reputation_block_result(
        required_reputation_faction,
        required_reputation_rank,
        -1,
    ) {
        return Some(BuyRefusal::Buy(result));
    }
    if let Some(block) = vendor_buy_extended_cost_block_result(
        extended_cost_store,
        currency_store,
        has_item_count,
        has_currency,
        true,
        extended_cost,
        buy_count,
        quantity,
    ) {
        return match block {
            VendorExtendedCostBlock::Equip(result) => Some(BuyRefusal::Equip(result)),
            VendorExtendedCostBlock::Buy(result) => Some(BuyRefusal::Buy(result)),
            VendorExtendedCostBlock::Silent => Some(BuyRefusal::Silent),
        };
    }
    if let Some(result) = vendor_buy_direct_store_block_result(store_bag, store_slot, quantity) {
        return Some(BuyRefusal::Equip(result));
    }
    None
}

/// The checks of a currency purchase once its vendor row is known: the player
/// condition, a quantity that is a whole multiple of the vendor amount, and an
/// extended cost being set, in that order.
pub fn buy_currency_checks(
    player_condition_id: u32,
    player_condition: PlayerConditionOutcome,
    max_count: u32,
    quantity: u32,
    extended_cost: u32,
) -> (r: Option<BuyRefusal>)
    ensures
        r == (if vendor_condition_fails(player_condition_id, player_condition) {
            Some(BuyRefusal::Equip(InventoryResult::ItemLocked))
        } else if max_count == 0 || quantity % max_count != 0 {
            Some(BuyRefusal::Equip(InventoryResult::CantBuyQuantity))
        } else if extended_cost == 0 {
            Some(BuyRefusal::Buy(BuyResult::CantFindItem))
        } else {
            None
        }),
{
    if let Some(result) = vendor_buy_player_condition_block_result_like_cpp(
        player_condition_id,
        player_condition,
    ) {
        return Some(BuyRefusal::Equip(result));
    }
    if let Some(result) = vendor_buy_currency_quantity_block_result(max_count, quantity) {
        return Some(BuyRefusal::Equip(result));
    }
    if extended_cost == 0 {
        return Some(BuyRefusal::Buy(BuyResult::CantFindItem));
    }
    None
}

/// The extended-cost step of a currency purchase, once its vendor row passed
/// `buy_currency_checks`: the cost (counted in multiples of the vendor's
/// currency amount) must not block the purchase; a block refuses it, so that
/// no currency is granted, and a silent block refuses it without an answer.
/// The holdings queries are asked only when the cost consults them.
pub fn buy_currency_extended_cost_check<F1: Fn(u32, u32) -> bool, F2: Fn(u32, u32) -> bool>(
    extended_cost_store: Option<&ItemExtendedCostStore>,
    currency_store: Option<&CurrencyTypesStore>,
    has_item_count: F1,
    has_currency: F2,
    extended_cost: u32,
    max_count: u32,
    quantity: u32,
) -> (r: Option<BuyRefusal>)
    requires
        cost_consults_holdings(extended_cost_store, extended_cost, max_count, quantity)
            ==> total_query(has_item_count) && total_query(has_currency),
    ensures
        extended_cost == 0 ==> r is None,
        extended_cost != 0 && quantity % (if max_count == 0 {
            1
        } else {
            max_count
        }) != 0 ==> r == Some(BuyRefusal::Equip(InventoryResult::CantBuyQuantity)),
        extended_cost != 0 && quantity % (if max_count == 0 {
            1
        } else {
            max_count
        }) == 0 && lookup_in(extended_cost_store, extended_cost) is None ==> r == Some(
            BuyRefusal::Silent,
        ),
        deterministic_query(has_item_count) && deterministic_query(has_currency) ==> r
            == ext_cost_refusal(
            extended_cost_block(
                lookup_in(extended_cost_store, extended_cost),
                currency_store,
                has_item_count,
                has_currency,
                true,
                extended_cost,
                max_count,
                quantity,
            ),
        ),
{
    match vendor_buy_extended_cost_block_result(
        extended_cost_store,
        currency_store,
        has_item_count,
        has_currency,
        true,
        extended_cost,
        max_count,
        quantity,
    ) {
        Some(VendorExtendedCostBlock::Equip(result)) => Some(BuyRefusal::Equip(result)),
        Some(VendorExtendedCostBlock::Buy(result)) => Some(BuyRefusal::Buy(result)),
        Some(VendorExtendedCostBlock::Silent) => Some(BuyRefusal::Silent),
        None => None,
    }
}

} // verus!
