use wow_character::codes::{BuyResult, InventoryResult, Team, MAX_MONEY_AMOUNT};
use wow_character::extended_cost::{
    vendor_buy_extended_cost_block_result, vendor_buy_extended_cost_currency_costs,
    vendor_buy_extended_cost_item_costs, ItemExtendedCostEntry, ItemExtendedCostStore,
    VendorExtendedCostBlock,
};
use wow_character::guid::ObjectGuid;
use wow_character::items::{
    player_class_mask, player_team_for_race_cpp, vendor_buy_template_block_result,
    vendor_list_item_refundable, vendor_list_should_skip_allowed_class,
    vendor_list_should_skip_faction_flags, VendorBuyTemplateBlock, ITEM_BONDING_ON_ACQUIRE,
    ITEM_BONDING_ON_EQUIP, ITEM_FLAG2_FACTION_ALLIANCE, ITEM_FLAG2_FACTION_HORDE,
    ITEM_FLAG_ITEM_PURCHASE_RECORD,
};
use wow_character::slots::{INVENTORY_SLOT_BAG_0, MAX_BAG_SIZE, NULL_BAG, NULL_SLOT};
use wow_character::stock::VendorStock;
use wow_character::vendor::{
    player_money_gain_like_cpp, vendor_buy_currency_packet_quantity_to_cpp_count,
    vendor_buy_currency_quantity_block_result, vendor_buy_direct_inventory_destination,
    vendor_buy_direct_store_block_result, vendor_buy_muid_to_cpp_slot,
    vendor_buy_packet_quantity_to_cpp_count, vendor_buy_player_condition_block_result_like_cpp,
    vendor_buy_required_reputation_block_result, vendor_buy_stock_refill_count,
    vendor_conditions_block_result, vendor_list_reaches_cpp_item_limit,
    vendor_list_should_skip_currency_row, vendor_list_should_skip_sold_out,
    vendor_player_condition_failed_id_like_cpp, BuyItem, CurrencyTypesStore,
    PlayerConditionOutcome,
};

fn currency_store_395() -> CurrencyTypesStore {
    CurrencyTypesStore::from_ids(vec![395])
}

fn cost_entry(id: u32, item_id: [i32; 5], item_count: [u16; 5], currency_id: [u16; 5], currency_count: [u32; 5]) -> ItemExtendedCostEntry {
    ItemExtendedCostEntry {
        id,
        required_arena_rating: 0,
        arena_bracket: 0,
        flags: 0,
        min_faction_id: 0,
        min_reputation: 0,
        required_achievement: 0,
        item_id,
        item_count,
        currency_id,
        currency_count,
    }
}

#[test]
fn vendor_buy_packet_quantity_uses_cpp_uint8_count_conversion() {
    assert_eq!(vendor_buy_packet_quantity_to_cpp_count(0), 1);
    assert_eq!(vendor_buy_packet_quantity_to_cpp_count(1), 1);
    assert_eq!(vendor_buy_packet_quantity_to_cpp_count(256), 1);
    assert_eq!(vendor_buy_packet_quantity_to_cpp_count(-1), 255);
}

#[test]
fn vendor_buy_currency_preflight_matches_cpp_quantity_guards() {
    assert_eq!(vendor_buy_currency_packet_quantity_to_cpp_count(0), 1);
    assert_eq!(vendor_buy_currency_packet_quantity_to_cpp_count(5), 5);
    assert_eq!(
        vendor_buy_currency_quantity_block_result(5, 3),
        Some(InventoryResult::CantBuyQuantity)
    );
    assert_eq!(vendor_buy_currency_quantity_block_result(5, 10), None);
    assert_eq!(
        vendor_buy_currency_quantity_block_result(0, 10),
        Some(InventoryResult::CantBuyQuantity)
    );
}

#[test]
fn vendor_buy_muid_uses_cpp_one_based_uint32_slot_conversion() {
    assert_eq!(vendor_buy_muid_to_cpp_slot(0), None);
    assert_eq!(vendor_buy_muid_to_cpp_slot(1), Some(0));
    assert_eq!(vendor_buy_muid_to_cpp_slot(2), Some(1));
    assert_eq!(vendor_buy_muid_to_cpp_slot(-1), Some(u32::MAX - 1));
}

#[test]
fn vendor_list_item_limit_matches_cpp_cap() {
    assert!(!vendor_list_reaches_cpp_item_limit(149));
    assert!(vendor_list_reaches_cpp_item_limit(150));
    assert!(vendor_list_reaches_cpp_item_limit(151));
}

#[test]
fn vendor_list_currency_rows_match_cpp_basic_guards() {
    let store = currency_store_395();
    assert!(vendor_list_should_skip_currency_row(Some(&store), 395, 0,));
    assert!(!vendor_list_should_skip_currency_row(Some(&store), 395, 10,));
    assert!(vendor_list_should_skip_currency_row(
        Some(&store),
        999_999,
        10
    ));
    assert!(vendor_list_should_skip_currency_row(None, 395, 10));
}

#[test]
fn vendor_player_condition_id_evaluates_player_condition_store_like_cpp() {
    // Condition 42 (no class mask) is met by a warrior; condition 43 (class
    // mask of class 2) is not; condition 999 is not in the store.
    let met = PlayerConditionOutcome::Evaluated { met: true };
    let not_met = PlayerConditionOutcome::Evaluated { met: false };
    assert_eq!(vendor_player_condition_failed_id_like_cpp(0, met), 0);
    assert_eq!(vendor_player_condition_failed_id_like_cpp(42, met), 0);
    assert_eq!(vendor_player_condition_failed_id_like_cpp(43, not_met), 43);
    assert_eq!(
        vendor_player_condition_failed_id_like_cpp(999, PlayerConditionOutcome::NotFound),
        0
    );
    assert_eq!(vendor_buy_player_condition_block_result_like_cpp(42, met), None);
    assert_eq!(
        vendor_buy_player_condition_block_result_like_cpp(43, not_met),
        Some(InventoryResult::ItemLocked)
    );
    assert_eq!(
        vendor_buy_player_condition_block_result_like_cpp(42, PlayerConditionOutcome::Unavailable),
        Some(InventoryResult::ItemLocked)
    );
}

#[test]
fn vendor_condition_presence_fails_closed_until_condition_mgr_exists() {
    assert_eq!(vendor_conditions_block_result(false), None);
    assert_eq!(
        vendor_conditions_block_result(true),
        Some(BuyResult::CantFindItem)
    );
}

#[test]
fn vendor_required_reputation_fails_closed_until_reputation_mgr_exists() {
    assert_eq!(
        vendor_buy_required_reputation_block_result(None, None, -1),
        None
    );
    assert_eq!(
        vendor_buy_required_reputation_block_result(Some(72), Some(5), -1),
        Some(BuyResult::ReputationRequire)
    );
    assert_eq!(
        vendor_buy_required_reputation_block_result(Some(72), Some(5), 5),
        None
    );
}

#[test]
fn vendor_buy_extended_cost_fails_closed_like_cpp_preflight() {
    let currency_store = currency_store_395();
    let extended_cost_store = ItemExtendedCostStore::from_entries(vec![cost_entry(
        12,
        [0; 5],
        [0; 5],
        [395, 0, 0, 0, 0],
        [10, 0, 0, 0, 0],
    )]);

    assert_eq!(
        vendor_buy_extended_cost_block_result(None, None, |_, _| false, |_, _| false, false, 0, 5, 3),
        None
    );
    assert_eq!(
        vendor_buy_extended_cost_block_result(
            Some(&extended_cost_store),
            Some(&currency_store),
            |_, _| false,
            |_, _| false,
            false,
            12,
            5,
            3
        ),
        Some(VendorExtendedCostBlock::Equip(InventoryResult::CantBuyQuantity))
    );
    assert_eq!(
        vendor_buy_extended_cost_block_result(
            Some(&extended_cost_store),
            Some(&currency_store),
            |_, _| true,
            |currency_id, amount| currency_id == 395 && amount >= 20,
            false,
            12,
            5,
            10
        ),
        Some(VendorExtendedCostBlock::Equip(InventoryResult::VendorMissingTurnins))
    );
    assert_eq!(
        vendor_buy_extended_cost_block_result(
            Some(&extended_cost_store),
            Some(&currency_store),
            |_, _| true,
            |currency_id, amount| currency_id == 395 && amount >= 20,
            true,
            12,
            5,
            10
        ),
        None
    );
    assert_eq!(
        vendor_buy_extended_cost_currency_costs(Some(&extended_cost_store), 12, 5, 10),
        vec![(395, 20)]
    );
    let item_turnin_store = ItemExtendedCostStore::from_entries(vec![cost_entry(
        13,
        [700, 0, 0, 0, 0],
        [3, 0, 0, 0, 0],
        [0; 5],
        [0; 5],
    )]);
    assert_eq!(
        vendor_buy_extended_cost_block_result(
            Some(&item_turnin_store),
            Some(&currency_store),
            |item_id, amount| item_id == 700 && amount == 6,
            |_, _| true,
            true,
            13,
            5,
            10
        ),
        None
    );
    assert_eq!(
        vendor_buy_extended_cost_block_result(
            Some(&item_turnin_store),
            Some(&currency_store),
            |_, _| false,
            |_, _| true,
            true,
            13,
            5,
            10
        ),
        Some(VendorExtendedCostBlock::Equip(InventoryResult::VendorMissingTurnins))
    );
    assert_eq!(
        vendor_buy_extended_cost_item_costs(Some(&item_turnin_store), 13, 5, 10),
        vec![(700, 6)]
    );
    let checked_currency_amount = std::cell::Cell::new(false);
    assert_eq!(
        vendor_buy_extended_cost_block_result(
            Some(&extended_cost_store),
            Some(&currency_store),
            |_, _| true,
            |currency_id, amount| {
                checked_currency_amount.set(true);
                assert_eq!(currency_id, 395);
                assert_eq!(amount, 20);
                false
            },
            true,
            12,
            5,
            10
        ),
        Some(VendorExtendedCostBlock::Equip(InventoryResult::VendorMissingTurnins))
    );
    assert!(checked_currency_amount.get());
    assert_eq!(
        vendor_buy_extended_cost_block_result(
            Some(&extended_cost_store),
            None,
            |_, _| true,
            |_, _| true,
            true,
            12,
            5,
            10
        ),
        Some(VendorExtendedCostBlock::Buy(BuyResult::CantFindItem))
    );
    assert_eq!(
        vendor_buy_extended_cost_block_result(
            Some(&extended_cost_store),
            Some(&currency_store),
            |_, _| true,
            |_, _| true,
            true,
            99,
            5,
            10
        ),
        Some(VendorExtendedCostBlock::Silent)
    );
}

#[test]
fn extended_cost_requirements_block_in_order() {
    let store = currency_store_395();
    let mut entry = cost_entry(20, [0; 5], [0; 5], [0; 5], [0; 5]);
    entry.required_arena_rating = 1500;
    entry.min_faction_id = 3;
    let costs = ItemExtendedCostStore::from_entries(vec![entry]);
    assert_eq!(
        vendor_buy_extended_cost_block_result(Some(&costs), Some(&store), |_, _| true, |_, _| true, true, 20, 1, 1),
        Some(VendorExtendedCostBlock::Equip(InventoryResult::CantEquipRank))
    );
    entry.required_arena_rating = 0;
    let costs = ItemExtendedCostStore::from_entries(vec![entry]);
    assert_eq!(
        vendor_buy_extended_cost_block_result(Some(&costs), Some(&store), |_, _| true, |_, _| true, true, 20, 1, 1),
        Some(VendorExtendedCostBlock::Buy(BuyResult::ReputationRequire))
    );
    entry.min_faction_id = 0;
    entry.flags = 0x01;
    let costs = ItemExtendedCostStore::from_entries(vec![entry]);
    assert_eq!(
        vendor_buy_extended_cost_block_result(Some(&costs), Some(&store), |_, _| true, |_, _| true, true, 20, 1, 1),
        Some(VendorExtendedCostBlock::Equip(InventoryResult::VendorMissingTurnins))
    );
    // A currency that counts only season-earned amounts cannot be paid.
    let mut seasonal = cost_entry(21, [0; 5], [0; 5], [0, 395, 0, 0, 0], [0, 4, 0, 0, 0]);
    seasonal.flags = 0x04;
    let costs = ItemExtendedCostStore::from_entries(vec![seasonal]);
    assert_eq!(
        vendor_buy_extended_cost_block_result(Some(&costs), Some(&store), |_, _| true, |_, _| true, true, 21, 1, 1),
        Some(VendorExtendedCostBlock::Equip(InventoryResult::VendorMissingTurnins))
    );
    // A negative item id cannot be handed in.
    let negative = cost_entry(22, [-5, 0, 0, 0, 0], [1, 0, 0, 0, 0], [0; 5], [0; 5]);
    let costs = ItemExtendedCostStore::from_entries(vec![negative]);
    assert_eq!(
        vendor_buy_extended_cost_block_result(Some(&costs), Some(&store), |_, _| true, |_, _| true, true, 22, 1, 1),
        Some(VendorExtendedCostBlock::Equip(InventoryResult::VendorMissingTurnins))
    );
    assert_eq!(vendor_buy_extended_cost_item_costs(Some(&costs), 22, 1, 1), vec![]);
}

#[test]
fn vendor_buy_direct_store_preflight_matches_cpp_store_branch() {
    assert_eq!(vendor_buy_direct_store_block_result(NULL_BAG, NULL_SLOT, 1), None);
    assert_eq!(vendor_buy_direct_store_block_result(INVENTORY_SLOT_BAG_0, 35, 1), None);
    assert_eq!(
        vendor_buy_direct_store_block_result(NULL_BAG, 35, 1),
        Some(InventoryResult::WrongSlot)
    );
    assert_eq!(
        vendor_buy_direct_store_block_result(INVENTORY_SLOT_BAG_0, 0, 1),
        Some(InventoryResult::NotEquippable)
    );
}

#[test]
fn vendor_buy_stock_refill_matches_cpp_increment_and_full_reset() {
    assert_eq!(vendor_buy_stock_refill_count(2, 20, 10, 5, 20), (12, false));
    assert_eq!(vendor_buy_stock_refill_count(18, 10, 10, 5, 20), (20, true));
    assert_eq!(vendor_buy_stock_refill_count(2, 9, 10, 5, 20), (2, false));
}

#[test]
fn stock_refill_edge_cases() {
    assert_eq!(vendor_buy_stock_refill_count(5, 100, 0, 1, 3), (3, true));
    assert_eq!(vendor_buy_stock_refill_count(1, 100, 0, 1, 3), (1, false));
    assert_eq!(vendor_buy_stock_refill_count(0, u64::MAX, 1, u32::MAX, 7), (7, true));
    assert_eq!(vendor_buy_stock_refill_count(4, 100, 10, 0, 50), (14, false));
}

#[test]
fn vendor_item_current_count_updates_like_cpp() {
    let mut stock = VendorStock::new();
    let vendor_guid = ObjectGuid::new(0x2000_0000_0000_0007, 1);

    assert_eq!(stock.vendor_item_current_count(vendor_guid, 700, 5, 60, 1), 5);
    assert_eq!(stock.update_vendor_item_current_count(vendor_guid, 700, 5, 60, 1, 2), 3);
    assert_eq!(stock.vendor_item_current_count(vendor_guid, 700, 5, 60, 1), 3);

    let now = std::time::SystemTime::now()
        .duration_since(std::time::UNIX_EPOCH)
        .map(|d| d.as_secs())
        .unwrap_or(0);
    stock.set(vendor_guid, 700, 3, now.saturating_sub(120));

    assert_eq!(stock.vendor_item_current_count(vendor_guid, 700, 5, 60, 1), 5);
    assert_eq!(stock.get(vendor_guid, 700), None);
}

#[test]
fn vendor_stock_at_fixed_times() {
    let mut stock = VendorStock::new();
    let vendor = ObjectGuid::new(1, 2);
    assert_eq!(stock.update_vendor_item_current_count_at(vendor, 9, 10, 60, 2, 7, 1000, 1000), 3);
    assert_eq!(stock.get(vendor, 9), Some((3, 1000)));
    // Reading right away gives back what the purchase left.
    assert_eq!(stock.vendor_item_current_count_at(vendor, 9, 10, 60, 2, 1000), 3);
    // Two intervals later, two stacks of two are back; the restock time moves.
    assert_eq!(stock.vendor_item_current_count_at(vendor, 9, 10, 60, 2, 1130), 7);
    assert_eq!(stock.get(vendor, 9), Some((7, 1130)));
    assert_eq!(stock.vendor_item_current_count_at(vendor, 9, 0, 60, 2, 5000), 0);
    assert_eq!(stock.vendor_item_current_count_at(vendor, 10, 4, 60, 2, 5000), 4);
    stock.remove(vendor, 9);
    assert_eq!(stock.get(vendor, 9), None);
}

#[test]
fn vendor_list_sold_out_filter_matches_cpp_gm_branch() {
    assert!(vendor_list_should_skip_sold_out(5, 0, false));
    assert!(!vendor_list_should_skip_sold_out(5, 0, true));
    assert!(!vendor_list_should_skip_sold_out(5, 1, false));
    assert!(!vendor_list_should_skip_sold_out(0, 0, false));
}

#[test]
fn vendor_list_refundable_flag_matches_cpp_template_guard() {
    assert!(vendor_list_item_refundable(Some(ITEM_FLAG_ITEM_PURCHASE_RECORD), Some(1), 42));
    assert!(!vendor_list_item_refundable(Some(ITEM_FLAG_ITEM_PURCHASE_RECORD), Some(2), 42));
    assert!(!vendor_list_item_refundable(Some(ITEM_FLAG_ITEM_PURCHASE_RECORD), Some(1), 0));
    assert!(!vendor_list_item_refundable(None, Some(1), 42));
}

#[test]
fn player_money_gain_like_cpp_enforces_max_money_amount() {
    assert_eq!(player_money_gain_like_cpp(0, 0), Some(0));
    assert_eq!(
        player_money_gain_like_cpp(MAX_MONEY_AMOUNT - 1, 1),
        Some(MAX_MONEY_AMOUNT)
    );
    assert_eq!(player_money_gain_like_cpp(MAX_MONEY_AMOUNT, 1), None);
    assert_eq!(player_money_gain_like_cpp(MAX_MONEY_AMOUNT - 10, 11), None);
    assert_eq!(player_money_gain_like_cpp(0, MAX_MONEY_AMOUNT + 1), None);
}

#[test]
fn vendor_list_allowed_class_filter_matches_cpp_bind_on_acquire_branch() {
    let warrior_mask = 1i16 << (1 - 1);
    let mage_mask = 1i16 << (8 - 1);

    assert!(!vendor_list_should_skip_allowed_class(Some(warrior_mask), Some(ITEM_BONDING_ON_ACQUIRE), 1, false));
    assert!(vendor_list_should_skip_allowed_class(Some(warrior_mask), Some(ITEM_BONDING_ON_ACQUIRE), 8, false));
    assert!(!vendor_list_should_skip_allowed_class(Some(warrior_mask), Some(ITEM_BONDING_ON_EQUIP), 8, false));
    assert!(!vendor_list_should_skip_allowed_class(Some(warrior_mask), Some(ITEM_BONDING_ON_ACQUIRE), 8, true));
    assert!(!vendor_list_should_skip_allowed_class(
        Some(warrior_mask | mage_mask),
        Some(ITEM_BONDING_ON_ACQUIRE),
        8,
        false,
    ));
    assert!(!vendor_list_should_skip_allowed_class(Some(-1), Some(ITEM_BONDING_ON_ACQUIRE), 8, false));
}

#[test]
fn class_masks_are_single_bits() {
    assert_eq!(player_class_mask(0), 0);
    assert_eq!(player_class_mask(1), 1);
    assert_eq!(player_class_mask(8), 128);
    assert_eq!(player_class_mask(32), 1 << 31);
    assert_eq!(player_class_mask(33), 0);
}

#[test]
fn vendor_list_faction_filter_matches_cpp_team_branch() {
    assert_eq!(player_team_for_race_cpp(1), Team::Alliance);
    assert_eq!(player_team_for_race_cpp(2), Team::Horde);
    assert_eq!(player_team_for_race_cpp(11), Team::Alliance);
    assert_eq!(player_team_for_race_cpp(10), Team::Horde);

    assert!(vendor_list_should_skip_faction_flags(Some(ITEM_FLAG2_FACTION_HORDE), Team::Alliance, false));
    assert!(!vendor_list_should_skip_faction_flags(Some(ITEM_FLAG2_FACTION_HORDE), Team::Horde, false));
    assert!(vendor_list_should_skip_faction_flags(Some(ITEM_FLAG2_FACTION_ALLIANCE), Team::Horde, false));
    assert!(!vendor_list_should_skip_faction_flags(Some(ITEM_FLAG2_FACTION_ALLIANCE), Team::Horde, true));
    assert!(!vendor_list_should_skip_faction_flags(None, Team::Alliance, false));
}

#[test]
fn vendor_buy_template_gates_match_cpp_error_shapes() {
    let warrior_mask = 1i16 << (1 - 1);

    assert_eq!(
        vendor_buy_template_block_result(Some(warrior_mask), Some(ITEM_BONDING_ON_ACQUIRE), None, 8, 1, false),
        Some(VendorBuyTemplateBlock::BuyError(BuyResult::CantFindItem))
    );
    assert_eq!(
        vendor_buy_template_block_result(Some(warrior_mask), Some(ITEM_BONDING_ON_ACQUIRE), None, 8, 1, true),
        None
    );
    assert_eq!(
        vendor_buy_template_block_result(None, None, Some(ITEM_FLAG2_FACTION_HORDE), 1, 1, false),
        Some(VendorBuyTemplateBlock::Silent)
    );
    assert_eq!(
        vendor_buy_template_block_result(None, None, Some(ITEM_FLAG2_FACTION_HORDE), 1, 2, false),
        None
    );
}

fn buy_request(container_guid: ObjectGuid, slot: i32) -> BuyItem {
    BuyItem {
        vendor_guid: ObjectGuid::empty(),
        container_guid,
        quantity: 1,
        muid: 1,
        slot,
        item_type: 0,
        item_id: 700,
    }
}

#[test]
fn vendor_buy_destination_maps_player_container_like_cpp() {
    let player_guid = ObjectGuid::new(0x0800_0000_0000_0001, 42);
    let buy = buy_request(player_guid, 35);
    assert_eq!(
        vendor_buy_direct_inventory_destination(player_guid, &buy),
        Some((INVENTORY_SLOT_BAG_0, 35))
    );
}

#[test]
fn vendor_buy_destination_rejects_cpp_slot_over_max_bag_size() {
    let player_guid = ObjectGuid::new(0x0800_0000_0000_0001, 42);
    let buy = buy_request(player_guid, (MAX_BAG_SIZE + 1) as i32);
    assert_eq!(vendor_buy_direct_inventory_destination(player_guid, &buy), None);
}

#[test]
fn vendor_buy_destination_uses_cpp_uint8_slot_conversion() {
    let player_guid = ObjectGuid::new(0x0800_0000_0000_0001, 42);
    let buy = buy_request(player_guid, 256);
    assert_eq!(
        vendor_buy_destination_check(player_guid, &buy),
        Some((INVENTORY_SLOT_BAG_0, 0))
    );
}

fn vendor_buy_destination_check(player: ObjectGuid, buy: &BuyItem) -> Option<(u8, u8)> {
    vendor_buy_direct_inventory_destination(player, buy)
}

#[test]
fn vendor_buy_destination_other_container_means_no_bag() {
    let player_guid = ObjectGuid::new(1, 42);
    let buy = buy_request(ObjectGuid::new(1, 43), 255);
    assert_eq!(vendor_buy_direct_inventory_destination(player_guid, &buy), Some((NULL_BAG, 255)));
}

#[test]
fn stock_update_takes_used_units_from_restocked_count() {
    let mut stock = VendorStock::new();
    let vendor = ObjectGuid::new(1, 3);
    assert_eq!(stock.update_vendor_item_current_count_at(vendor, 9, 5, 60, 1, 2, 1000, 1000), 3);
    assert_eq!(stock.update_vendor_item_current_count_at(vendor, 9, 5, 60, 1, 2, 1000, 1000), 1);
    assert_eq!(stock.update_vendor_item_current_count_at(vendor, 9, 5, 60, 1, 4, 1000, 1000), 0);
    // A minute later one unit is back, and the purchase of two takes it.
    assert_eq!(stock.update_vendor_item_current_count_at(vendor, 9, 5, 60, 1, 2, 1060, 1060), 0);
    stock.set(vendor, 9, 4, 2000);
    stock.set(vendor, 9, 2, 2000);
    assert_eq!(stock.get(vendor, 9), Some((2, 2000)));
    assert_eq!(stock.update_vendor_item_current_count_at(vendor, 9, 0, 60, 1, 2, 2000, 2000), 0);
    assert_eq!(stock.get(vendor, 9), Some((2, 2000)));
}
