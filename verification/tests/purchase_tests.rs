use wow_character::guid::ObjectGuid;
use wow_character::inventory::{
    DirectInventory, ExtendedCostItemTurninChange, InventoryStack, RuntimeItemState,
};
use wow_character::purchase::{
    buyback_item_placement, buyback_slot_after_buyback, plan_item_cost_turnins,
    refund_item_db_guid, vendor_buy_placement, BuybackPlacementError, PlacementError,
};

fn stack(slot: u8, entry_id: u32, db_guid: u64, count: Option<u32>) -> InventoryStack {
    InventoryStack {
        slot,
        guid: ObjectGuid::new(0x0C00_0000_0000_0000, db_guid),
        entry_id,
        db_guid,
        runtime: count.map(|count| RuntimeItemState { count, in_trade: false }),
    }
}

#[test]
fn purchase_fills_existing_stacks_and_new_slots() {
    let mut inv = DirectInventory::new();
    inv.set_stack(stack(35, 500, 7, Some(3)));
    let dests = vec![(255u8, 35u8, 2u32), (255, 36, 5), (255, 37, 1)];
    let placed = vendor_buy_placement(&inv, &dests, 100).ok().unwrap();
    assert_eq!(placed.existing, vec![(35, stack(35, 500, 7, None).guid, 5)]);
    assert_eq!(placed.new_stacks, vec![(36, 100, 5), (37, 101, 1)]);
    assert_eq!(refund_item_db_guid(true, &placed.new_stacks), Some(101));
    assert_eq!(refund_item_db_guid(false, &placed.new_stacks), None);
    assert_eq!(refund_item_db_guid(true, &Vec::new()), None);
}

#[test]
fn purchase_stack_growth_saturates() {
    let mut inv = DirectInventory::new();
    inv.set_stack(stack(35, 500, 7, Some(u32::MAX - 1)));
    let placed = vendor_buy_placement(&inv, &vec![(255, 35, 5)], 1).ok().unwrap();
    assert_eq!(placed.existing[0].2, u32::MAX);
}

#[test]
fn purchase_refuses_bags_and_unloaded_stacks() {
    let mut inv = DirectInventory::new();
    inv.set_stack(stack(35, 500, 7, None));
    assert_eq!(
        vendor_buy_placement(&inv, &vec![(255, 36, 1), (30, 0, 1)], 1).err(),
        Some(PlacementError::WrongBagType)
    );
    assert_eq!(
        vendor_buy_placement(&inv, &vec![(255, 35, 1), (30, 0, 1)], 1).err(),
        Some(PlacementError::MissingItemObject)
    );
}

#[test]
fn item_costs_are_planned_one_after_another() {
    let mut inv = DirectInventory::new();
    inv.set_stack(stack(35, 700, 10, Some(4)));
    inv.set_stack(stack(36, 800, 11, Some(2)));
    let plan = plan_item_cost_turnins(&inv, &vec![(700, 4), (800, 1)]).unwrap();
    assert_eq!(
        plan,
        vec![
            ExtendedCostItemTurninChange::Delete {
                slot: 35,
                item_guid: stack(35, 700, 10, None).guid,
                db_guid: 10,
            },
            ExtendedCostItemTurninChange::Update {
                slot: 36,
                item_guid: stack(36, 800, 11, None).guid,
                db_guid: 11,
                new_count: 1,
            },
        ]
    );
    assert_eq!(plan_item_cost_turnins(&inv, &vec![(700, 4), (800, 3)]), None);
    assert_eq!(plan_item_cost_turnins(&inv, &Vec::new()), Some(Vec::new()));
}

#[test]
fn bought_back_item_moves_into_one_free_slot() {
    let mut inv = DirectInventory::new();
    inv.set_stack(stack(35, 500, 7, Some(18)));
    let placed = buyback_item_placement(&inv, &vec![(255, 35, 2), (255, 36, 3)]).ok().unwrap();
    assert_eq!(placed.existing, vec![(35, stack(35, 500, 7, None).guid, 20)]);
    assert_eq!(placed.moved, Some((36, 3)));
    let merged = buyback_item_placement(&inv, &vec![(255, 35, 2)]).ok().unwrap();
    assert_eq!(merged.moved, None);
    assert_eq!(
        buyback_item_placement(&inv, &vec![(255, 36, 1), (255, 37, 1)]).err(),
        Some(BuybackPlacementError::NoSlotAvailable)
    );
    assert_eq!(
        buyback_item_placement(&inv, &vec![(19, 0, 1)]).err(),
        Some(BuybackPlacementError::WrongBagType)
    );
}

#[test]
fn buyback_slot_reuses_freed_slot_when_next_is_taken() {
    assert_eq!(buyback_slot_after_buyback(97, true, 95), 95);
    assert_eq!(buyback_slot_after_buyback(97, false, 95), 97);
}

#[test]
fn purchase_money_needs_whole_price() {
    assert_eq!(wow_character::purchase::buy_gold_after_payment(500, 200), Ok(300));
    assert_eq!(wow_character::purchase::buy_gold_after_payment(500, 500), Ok(0));
    assert_eq!(
        wow_character::purchase::buy_gold_after_payment(199, 200),
        Err(wow_character::codes::BuyResult::NotEnoughtMoney)
    );
}
