use wow_character::bank::{bank_bag_slot_flag_update, bank_slot_purchase, next_bank_bag_slot};
use wow_character::buying::{
    buy_currency_checks, buy_currency_extended_cost_check, buy_item_eligibility_checks, buy_item_stock_and_cost_checks,
    BuyEligibility, BuyRefusal,
};
use wow_character::codes::{BuyResult, InventoryResult, SellResult, MAX_MONEY_AMOUNT};
use wow_character::extended_cost::{ItemExtendedCostEntry, ItemExtendedCostStore};
use wow_character::items::{SellItemAmountAction, ITEM_BONDING_ON_ACQUIRE, ITEM_FLAG2_FACTION_ALLIANCE};
use wow_character::slots::{INVENTORY_SLOT_BAG_0, NULL_BAG, NULL_SLOT};
use wow_character::trade::{
    buyback_expiry, buyback_price_check, buyback_slot_check, refund_currency_costs,
    refund_item_costs, refund_money, refund_preflight, sell_item_preflight, sell_item_pricing,
    RefundOffer, RefundPreflight, SellOffer, SellPreflight, SellPricing,
};
use wow_character::vendor::{CurrencyTypesStore, PlayerConditionOutcome};

fn offer(slot: u8, count: u32) -> SellOffer {
    SellOffer {
        slot,
        runtime_count: Some(count),
        inventory_type: None,
        contains_items: false,
        being_looted: false,
        refundable: false,
    }
}

#[test]
fn sell_preflight_refusals_come_in_order() {
    assert_eq!(sell_item_preflight(None, 0), SellPreflight::Refuse(SellResult::YouDontOwnThatItem));
    assert_eq!(sell_item_preflight(Some(offer(18, 1)), 0), SellPreflight::Refuse(SellResult::CantSellItem));
    let mut o = offer(40, 3);
    o.runtime_count = None;
    assert_eq!(sell_item_preflight(Some(o), 0), SellPreflight::Refuse(SellResult::CantFindItem));
    let mut o = offer(40, 3);
    o.inventory_type = Some(18);
    o.contains_items = true;
    assert_eq!(sell_item_preflight(Some(o), 0), SellPreflight::Refuse(SellResult::CantSellItem));
    let mut o = offer(40, 3);
    o.being_looted = true;
    assert_eq!(sell_item_preflight(Some(o), 0), SellPreflight::Refuse(SellResult::CantSellItem));
    let mut o = offer(40, 3);
    o.refundable = true;
    assert_eq!(sell_item_preflight(Some(o), 0), SellPreflight::Ignore);
    assert_eq!(sell_item_preflight(Some(offer(40, 3)), 4), SellPreflight::Refuse(SellResult::CantSellItem));
    assert_eq!(
        sell_item_preflight(Some(offer(40, 3)), 1),
        SellPreflight::Proceed(SellItemAmountAction::PartialStack { amount: 1, remaining: 2 })
    );
    assert_eq!(
        sell_item_preflight(Some(offer(19, 3)), 0),
        SellPreflight::Proceed(SellItemAmountAction::FullStack { amount: 3 })
    );
}

#[test]
fn sell_pricing_pays_price_times_count() {
    assert_eq!(sell_item_pricing(0, 3, 10), Err(SellResult::CantSellItem));
    assert_eq!(
        sell_item_pricing(25, 4, 1000),
        Ok(SellPricing { money: 100, new_gold: 1100, buyback_price: 100 })
    );
    assert_eq!(sell_item_pricing(10, 1, MAX_MONEY_AMOUNT), Err(SellResult::CantSellItem));
    assert_eq!(
        sell_item_pricing(5_000_000_000, 2, 0),
        Ok(SellPricing { money: 10_000_000_000, new_gold: 10_000_000_000, buyback_price: u32::MAX })
    );
    assert_eq!(sell_item_pricing(u64::MAX, 2, 0), Err(SellResult::CantSellItem));
}

#[test]
fn buyback_checks() {
    assert_eq!(buyback_expiry(0), 108_000);
    assert_eq!(buyback_expiry(u64::MAX), u32::MAX as i64);
    assert_eq!(buyback_slot_check(94), Ok(94));
    assert_eq!(buyback_slot_check(105), Ok(105));
    assert_eq!(buyback_slot_check(106), Err(BuyResult::CantFindItem));
    assert_eq!(buyback_slot_check(93), Err(BuyResult::CantFindItem));
    assert_eq!(buyback_slot_check(-1), Err(BuyResult::CantFindItem));
    assert_eq!(buyback_slot_check(94 + 256), Err(BuyResult::CantFindItem));
    let mut prices = [0u32; 12];
    prices[2] = 500;
    assert_eq!(buyback_price_check(&prices, 96, 499), Err(BuyResult::NotEnoughtMoney));
    assert_eq!(buyback_price_check(&prices, 96, 500), Ok(500));
    assert_eq!(buyback_price_check(&prices, 94, 0), Ok(0));
}

fn refund_offer() -> RefundOffer {
    RefundOffer {
        has_runtime_object: true,
        being_looted: false,
        refundable: true,
        expired: false,
        recipient_is_player: true,
        item_flags: 0x1001,
    }
}

#[test]
fn refund_preflight_decisions() {
    assert_eq!(refund_preflight(None), RefundPreflight::Ignore);
    assert_eq!(refund_preflight(Some(refund_offer())), RefundPreflight::Proceed);
    let mut o = refund_offer();
    o.refundable = false;
    assert_eq!(refund_preflight(Some(o)), RefundPreflight::Ignore);
    let mut o = refund_offer();
    o.expired = true;
    assert_eq!(refund_preflight(Some(o)), RefundPreflight::Clear { new_flags: 0x1, send_error: true });
    let mut o = refund_offer();
    o.recipient_is_player = false;
    assert_eq!(refund_preflight(Some(o)), RefundPreflight::Clear { new_flags: 0x1, send_error: false });
}

fn entry() -> ItemExtendedCostEntry {
    ItemExtendedCostEntry {
        id: 5,
        required_arena_rating: 0,
        arena_bracket: 0,
        flags: 0x04,
        min_faction_id: 0,
        min_reputation: 0,
        required_achievement: 0,
        item_id: [700, 0, 800, 900, 0],
        item_count: [2, 3, 0, 1, 0],
        currency_id: [395, 396, 0, 397, 398],
        currency_count: [10, 20, 5, 0, 7],
    }
}

#[test]
fn refund_gives_back_items_and_non_seasonal_currencies() {
    assert_eq!(refund_item_costs(&entry()), vec![(700, 2), (900, 1)]);
    assert_eq!(refund_currency_costs(&entry()), vec![(395, 10), (398, 7)]);
    assert_eq!(refund_money(100, 50), (150, false));
    assert_eq!(refund_money(MAX_MONEY_AMOUNT, 1), (MAX_MONEY_AMOUNT, true));
}

fn eligibility() -> BuyEligibility {
    BuyEligibility {
        allowable_class: None,
        bonding: None,
        flags2: None,
        player_class: 1,
        player_race: 1,
        is_game_master: false,
        condition_store_loaded: true,
        has_vendor_conditions: false,
        player_condition_id: 0,
        player_condition: PlayerConditionOutcome::Unavailable,
    }
}

#[test]
fn buy_eligibility_checks_in_order() {
    assert_eq!(buy_item_eligibility_checks(eligibility()), None);
    let mut e = eligibility();
    e.allowable_class = Some(1 << 7);
    e.bonding = Some(ITEM_BONDING_ON_ACQUIRE);
    e.flags2 = Some(ITEM_FLAG2_FACTION_ALLIANCE);
    assert_eq!(buy_item_eligibility_checks(e), Some(BuyRefusal::Buy(BuyResult::CantFindItem)));
    let mut e = eligibility();
    e.player_race = 2;
    e.flags2 = Some(ITEM_FLAG2_FACTION_ALLIANCE);
    assert_eq!(buy_item_eligibility_checks(e), Some(BuyRefusal::Silent));
    let mut e = eligibility();
    e.condition_store_loaded = false;
    e.has_vendor_conditions = true;
    assert_eq!(buy_item_eligibility_checks(e), Some(BuyRefusal::Buy(BuyResult::CantFindItem)));
    let mut e = eligibility();
    e.player_condition_id = 12;
    assert_eq!(buy_item_eligibility_checks(e), Some(BuyRefusal::Equip(InventoryResult::ItemLocked)));
}

#[test]
fn buy_stock_and_cost_checks_in_order() {
    let costs = ItemExtendedCostStore::from_entries(vec![]);
    let currencies = CurrencyTypesStore::from_ids(vec![]);
    let check = |max: u32, current: u32, rep: Option<u16>, ext: u32, bag: u8, slot: u8| {
        buy_item_stock_and_cost_checks(
            max, current, 2, rep, Some(3), Some(&costs), Some(&currencies),
            |_, _| true, |_, _| true, ext, 1, bag, slot,
        )
    };
    assert_eq!(check(5, 1, Some(7), 9, 0, 0), Some(BuyRefusal::Buy(BuyResult::ItemAlreadySold)));
    assert_eq!(check(0, 0, Some(7), 9, 0, 0), Some(BuyRefusal::Buy(BuyResult::ReputationRequire)));
    assert_eq!(check(5, 2, None, 9, 0, 0), Some(BuyRefusal::Silent));
    assert_eq!(check(5, 2, None, 0, 0, 0), Some(BuyRefusal::Equip(InventoryResult::WrongSlot)));
    assert_eq!(check(5, 2, None, 0, INVENTORY_SLOT_BAG_0, 3), Some(BuyRefusal::Equip(InventoryResult::NotEquippable)));
    assert_eq!(check(5, 2, None, 0, NULL_BAG, NULL_SLOT), None);
    assert_eq!(check(5, 2, None, 0, INVENTORY_SLOT_BAG_0, 40), None);
}

#[test]
fn buy_currency_checks_in_order() {
    let met = PlayerConditionOutcome::Evaluated { met: true };
    let not_met = PlayerConditionOutcome::Evaluated { met: false };
    assert_eq!(buy_currency_checks(4, not_met, 10, 20, 1), Some(BuyRefusal::Equip(InventoryResult::ItemLocked)));
    assert_eq!(buy_currency_checks(4, met, 10, 25, 1), Some(BuyRefusal::Equip(InventoryResult::CantBuyQuantity)));
    assert_eq!(buy_currency_checks(0, not_met, 10, 20, 0), Some(BuyRefusal::Buy(BuyResult::CantFindItem)));
    assert_eq!(buy_currency_checks(0, not_met, 10, 20, 3), None);
}

#[test]
fn bank_slot_purchase_spends_price() {
    assert_eq!(next_bank_bag_slot(0), 1);
    assert_eq!(next_bank_bag_slot(255), 256);
    assert_eq!(bank_slot_purchase(true, 1, Some(1000), 2456), Some((1, 1456)));
    assert_eq!(bank_slot_purchase(true, 1, Some(3000), 2456), None);
    assert_eq!(bank_slot_purchase(true, 1, None, 2456), None);
    assert_eq!(bank_slot_purchase(true, 256, Some(0), 5), Some((255, 5)));
    assert_eq!(bank_slot_purchase(false, 1, Some(1000), 2456), None);
}

#[test]
fn bank_bag_flags_toggle_one_bit() {
    assert_eq!(bank_bag_slot_flag_update(true, 2, 4, true, None), Some((2, 16)));
    assert_eq!(bank_bag_slot_flag_update(true, 2, 4, false, Some(17)), Some((2, 1)));
    assert_eq!(bank_bag_slot_flag_update(true, 7, 4, true, None), None);
    assert_eq!(bank_bag_slot_flag_update(true, -1, 4, true, None), None);
    assert_eq!(bank_bag_slot_flag_update(true, 0, 32, true, None), None);
    assert_eq!(bank_bag_slot_flag_update(true, 6, 31, true, Some(1)), Some((6, 0x8000_0001)));
    assert_eq!(bank_bag_slot_flag_update(false, 2, 4, true, None), None);
}

#[test]
fn currency_purchase_stops_on_an_extended_cost_block() {
    let currencies = CurrencyTypesStore::from_ids(vec![395]);
    let costs = ItemExtendedCostStore::from_entries(vec![ItemExtendedCostEntry {
        id: 12,
        required_arena_rating: 0,
        arena_bracket: 0,
        flags: 0,
        min_faction_id: 0,
        min_reputation: 0,
        required_achievement: 0,
        item_id: [0; 5],
        item_count: [0; 5],
        currency_id: [395, 0, 0, 0, 0],
        currency_count: [10, 0, 0, 0, 0],
    }]);
    // No extended cost: nothing to check.
    assert_eq!(
        buy_currency_extended_cost_check(None, None, |_, _| false, |_, _| false, 0, 5, 3),
        None
    );
    // A quantity that is not a whole number of vendor amounts.
    assert_eq!(
        buy_currency_extended_cost_check(Some(&costs), Some(&currencies), |_, _| true, |_, _| true, 12, 5, 3),
        Some(BuyRefusal::Equip(InventoryResult::CantBuyQuantity))
    );
    // An unknown cost id drops the request.
    assert_eq!(
        buy_currency_extended_cost_check(Some(&costs), Some(&currencies), |_, _| true, |_, _| true, 99, 5, 10),
        Some(BuyRefusal::Silent)
    );
    // Two stacks cost 20 of currency 395: the player holds less.
    assert_eq!(
        buy_currency_extended_cost_check(
            Some(&costs),
            Some(&currencies),
            |_, _| true,
            |id, amount| id == 395 && amount <= 19,
            12,
            5,
            10
        ),
        Some(BuyRefusal::Equip(InventoryResult::VendorMissingTurnins))
    );
    // The player holds enough: the purchase goes on.
    assert_eq!(
        buy_currency_extended_cost_check(
            Some(&costs),
            Some(&currencies),
            |_, _| true,
            |id, amount| id == 395 && amount == 20,
            12,
            5,
            10
        ),
        None
    );
    // An unknown currency in the cost.
    let unknown = CurrencyTypesStore::from_ids(vec![1]);
    assert_eq!(
        buy_currency_extended_cost_check(Some(&costs), Some(&unknown), |_, _| true, |_, _| true, 12, 5, 10),
        Some(BuyRefusal::Buy(BuyResult::CantFindItem))
    );
}
