use wow_character::guid::ObjectGuid;
use wow_character::inventory::{
    DirectInventory, ExtendedCostItemTurninChange, InventoryStack, RuntimeItemState,
};
use wow_character::items::{
    destroy_item_count_action, item_is_not_empty_bag_like_cpp, loaded_item_refund_decision,
    sell_item_amount_action, DestroyItemCountAction, LoadedItemRefundDecision,
    SellItemAmountAction, INVENTORY_TYPE_BAG, INVENTORY_TYPE_CHEST, ITEM_FIELD_FLAG_REFUNDABLE,
    ITEM_FIELD_FLAG_SOULBOUND,
};
use wow_character::slots::is_represented_bag_slot;

fn stack(slot: u8, entry_id: u32, db_guid: u64, count: u32) -> InventoryStack {
    InventoryStack {
        slot,
        guid: ObjectGuid::new(0x4000_0000_0000_0001, db_guid),
        entry_id,
        db_guid,
        runtime: Some(RuntimeItemState { count, in_trade: false }),
    }
}

#[test]
fn extended_cost_item_turnin_plan_matches_cpp_destroy_order() {
    let mut inventory = DirectInventory::new();
    for (slot, db_guid, count) in [(35u8, 10_u64, 4_u32), (36, 11, 5)] {
        inventory.set_stack(stack(slot, 700, db_guid, count));
    }

    assert!(inventory.has_item_count_direct_inventory(700, 9));
    assert!(!inventory.has_item_count_direct_inventory(700, 10));
    assert_eq!(
        inventory.plan_destroy_item_count_direct_inventory(700, 6),
        Some(vec![
            ExtendedCostItemTurninChange::Delete {
                slot: 35,
                item_guid: ObjectGuid::new(0x4000_0000_0000_0001, 10),
                db_guid: 10,
            },
            ExtendedCostItemTurninChange::Update {
                slot: 36,
                item_guid: ObjectGuid::new(0x4000_0000_0000_0001, 11),
                db_guid: 11,
                new_count: 3,
            },
        ])
    );
}

#[test]
fn turnin_scan_takes_pack_slots_before_equipment() {
    let mut inventory = DirectInventory::new();
    inventory.set_stack(stack(5, 700, 1, 3));
    inventory.set_stack(stack(40, 700, 2, 2));
    let mut traded = stack(41, 700, 3, 10);
    traded.runtime = Some(RuntimeItemState { count: 10, in_trade: true });
    inventory.set_stack(traded);
    let mut unloaded = stack(42, 700, 4, 10);
    unloaded.runtime = None;
    inventory.set_stack(unloaded);
    inventory.set_stack(stack(43, 800, 5, 10));

    assert!(inventory.has_item_count_direct_inventory(700, 5));
    assert!(!inventory.has_item_count_direct_inventory(700, 6));
    assert!(inventory.has_item_count_direct_inventory(700, 0));
    assert_eq!(inventory.plan_destroy_item_count_direct_inventory(700, 6), None);
    assert_eq!(inventory.plan_destroy_item_count_direct_inventory(700, 0), Some(vec![]));
    assert_eq!(
        inventory.plan_destroy_item_count_direct_inventory(700, 4),
        Some(vec![
            ExtendedCostItemTurninChange::Delete {
                slot: 40,
                item_guid: ObjectGuid::new(0x4000_0000_0000_0001, 2),
                db_guid: 2,
            },
            ExtendedCostItemTurninChange::Update {
                slot: 5,
                item_guid: ObjectGuid::new(0x4000_0000_0000_0001, 1),
                db_guid: 1,
                new_count: 1,
            },
        ])
    );
}

#[test]
fn free_backpack_slot_is_the_first_empty_one() {
    let mut inventory = DirectInventory::new();
    assert_eq!(inventory.find_free_backpack_slot(), Some(35));
    inventory.set_stack(stack(35, 1, 1, 1));
    inventory.set_stack(stack(36, 1, 2, 1));
    assert_eq!(inventory.find_free_backpack_slot(), Some(37));
    for slot in 35..59u8 {
        inventory.set_stack(stack(slot, 1, slot as u64, 1));
    }
    assert_eq!(inventory.find_free_backpack_slot(), None);
    assert_eq!(inventory.stack_at_slot(40).map(|s| s.db_guid), Some(40));
}

#[test]
fn loaded_refund_metadata_matches_cpp_load_cleanup() {
    let refundable_flags = ITEM_FIELD_FLAG_SOULBOUND | ITEM_FIELD_FLAG_REFUNDABLE;
    assert_eq!(
        loaded_item_refund_decision(refundable_flags, 7_200, Some(123), Some(45)),
        LoadedItemRefundDecision::Valid {
            paid_money: 123,
            paid_extended_cost: 45,
        }
    );
    assert_eq!(
        loaded_item_refund_decision(refundable_flags, 7_201, Some(123), Some(45)),
        LoadedItemRefundDecision::Clear {
            new_flags: ITEM_FIELD_FLAG_SOULBOUND,
        }
    );
    assert_eq!(
        loaded_item_refund_decision(refundable_flags, 10, None, Some(45)),
        LoadedItemRefundDecision::Clear {
            new_flags: ITEM_FIELD_FLAG_SOULBOUND,
        }
    );
    assert_eq!(
        loaded_item_refund_decision(ITEM_FIELD_FLAG_SOULBOUND, 10, Some(123), Some(45)),
        LoadedItemRefundDecision::NotRefundable
    );
}

#[test]
fn destroy_item_count_action_matches_cpp_direct_item_branch() {
    assert_eq!(destroy_item_count_action(5, 0), DestroyItemCountAction::FullStack);
    assert_eq!(destroy_item_count_action(5, 5), DestroyItemCountAction::FullStack);
    assert_eq!(destroy_item_count_action(5, 7), DestroyItemCountAction::FullStack);
    assert_eq!(
        destroy_item_count_action(5, 2),
        DestroyItemCountAction::PartialStack { new_count: 3 }
    );
}

#[test]
fn sell_item_amount_action_matches_cpp_amount_branch() {
    assert_eq!(sell_item_amount_action(5, 0), SellItemAmountAction::FullStack { amount: 5 });
    assert_eq!(sell_item_amount_action(5, 5), SellItemAmountAction::FullStack { amount: 5 });
    assert_eq!(
        sell_item_amount_action(5, 2),
        SellItemAmountAction::PartialStack {
            amount: 2,
            remaining: 3,
        }
    );
    assert_eq!(sell_item_amount_action(5, 6), SellItemAmountAction::Invalid);
    assert_eq!(sell_item_amount_action(5, -1), SellItemAmountAction::Invalid);
    assert_eq!(sell_item_amount_action(0, 0), SellItemAmountAction::Invalid);
}

#[test]
fn sell_non_empty_bag_guard_matches_cpp_is_not_empty_bag() {
    assert!(item_is_not_empty_bag_like_cpp(Some(INVENTORY_TYPE_BAG), true));
    assert!(!item_is_not_empty_bag_like_cpp(Some(INVENTORY_TYPE_BAG), false));
    assert!(!item_is_not_empty_bag_like_cpp(Some(INVENTORY_TYPE_CHEST), true));
    assert!(!item_is_not_empty_bag_like_cpp(None, true));
}

#[test]
fn bag_slots_are_the_worn_bank_and_reagent_bag_slots() {
    assert!(is_represented_bag_slot(30));
    assert!(is_represented_bag_slot(33));
    assert!(is_represented_bag_slot(34));
    assert!(is_represented_bag_slot(87));
    assert!(is_represented_bag_slot(93));
    assert!(!is_represented_bag_slot(35));
    assert!(!is_represented_bag_slot(94));
    assert!(!is_represented_bag_slot(0));
}
