use wow_character::guid::ObjectGuid;
use wow_character::inventory::{DirectInventory, InventoryStack, RuntimeItemState};
use wow_character::refund::{
    effective_max_stack, plan_refund_returns, ExistingRefill, PlannedNewStack, RefundReturnStep,
};

fn stack(slot: u8, entry_id: u32, db_guid: u64, count: Option<u32>) -> InventoryStack {
    InventoryStack {
        slot,
        guid: ObjectGuid::new(0x0C00_0000_0000_0000, db_guid),
        entry_id,
        db_guid,
        runtime: count.map(|count| RuntimeItemState { count, in_trade: false }),
    }
}

fn step(entry_id: u32, slot: u8, count: u32) -> RefundReturnStep {
    RefundReturnStep { entry_id, max_stack: 20, bag: 255, slot, count }
}

fn fits(_entry: u32, count: u32, _slot: u8) -> bool {
    count <= 20
}

#[test]
fn returned_items_refill_existing_stack_cumulatively() {
    let mut inv = DirectInventory::new();
    inv.set_stack(stack(35, 700, 9, Some(3)));
    let plan = plan_refund_returns(&inv, &vec![step(700, 35, 2), step(700, 35, 4)], fits).unwrap();
    assert_eq!(
        plan.existing,
        vec![ExistingRefill { slot: 35, guid: stack(35, 700, 9, None).guid, db_guid: 9, count: 9 }]
    );
    assert!(plan.new_stacks.is_empty());
}

#[test]
fn returned_items_never_overfill_or_mix_stacks() {
    let mut inv = DirectInventory::new();
    inv.set_stack(stack(35, 700, 9, Some(19)));
    assert!(plan_refund_returns(&inv, &vec![step(700, 35, 2)], fits).is_none());
    assert!(plan_refund_returns(&inv, &vec![step(800, 35, 1)], fits).is_none());
    inv.set_stack(stack(36, 700, 10, None));
    assert!(plan_refund_returns(&inv, &vec![step(700, 36, 1)], fits).is_none());
    let mut in_bag = step(700, 0, 1);
    in_bag.bag = 19;
    assert!(plan_refund_returns(&inv, &vec![in_bag], fits).is_none());
}

#[test]
fn new_stacks_merge_or_move_to_first_free_backpack_slot() {
    let mut inv = DirectInventory::new();
    inv.set_stack(stack(35, 900, 1, Some(1)));
    let steps = vec![step(700, 40, 5), step(700, 40, 6), step(800, 40, 2), step(700, 40, 15)];
    let plan = plan_refund_returns(&inv, &steps, fits).unwrap();
    assert_eq!(
        plan.new_stacks,
        vec![
            PlannedNewStack { slot: 40, entry_id: 700, count: 11 },
            PlannedNewStack { slot: 36, entry_id: 800, count: 2 },
            PlannedNewStack { slot: 37, entry_id: 700, count: 15 },
        ]
    );
    assert!(plan.existing.is_empty());
}

#[test]
fn moved_stack_needs_store_check_to_accept_it() {
    let inv = DirectInventory::new();
    let steps = vec![step(700, 40, 5), step(800, 40, 2)];
    assert!(plan_refund_returns(&inv, &steps, |_e: u32, _c: u32, _s: u8| false).is_none());
}

#[test]
fn moved_stack_fails_without_free_backpack_slot() {
    let mut inv = DirectInventory::new();
    for slot in 35..51u8 {
        if slot != 40 {
            inv.set_stack(stack(slot, 900, slot as u64, Some(1)));
        }
    }
    let steps = vec![step(700, 40, 5), step(800, 40, 2)];
    assert!(plan_refund_returns(&inv, &steps, fits).is_none());
}

#[test]
fn stack_limit_is_at_least_one() {
    assert_eq!(effective_max_stack(None), 1);
    assert_eq!(effective_max_stack(Some(0)), 1);
    assert_eq!(effective_max_stack(Some(200)), 200);
}
