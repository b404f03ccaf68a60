use wow_character::guid::ObjectGuid;
use wow_character::inventory::ExtendedCostItemTurninChange;
use wow_character::writes::{
    clear_buyback_writes, full_stack_destroy_writes, item_refund_clear_writes,
    item_refund_insert_writes, item_turnin_writes, ItemWrite,
};

#[test]
fn turnin_writes_update_kept_stacks_and_remove_used_ones() {
    let g = ObjectGuid::new(1, 2);
    let changes = vec![
        ExtendedCostItemTurninChange::Delete { slot: 35, item_guid: g, db_guid: 10 },
        ExtendedCostItemTurninChange::Update { slot: 36, item_guid: g, db_guid: 11, new_count: 3 },
    ];
    assert_eq!(
        item_turnin_writes(&changes),
        vec![
            ItemWrite::DeleteInventory { db_guid: 10 },
            ItemWrite::DeleteInstance { db_guid: 10 },
            ItemWrite::UpdateCount { db_guid: 11, count: 3 },
        ]
    );
}

#[test]
fn refund_writes_replace_or_clear_the_record() {
    assert_eq!(
        item_refund_clear_writes(5, 0x1),
        vec![ItemWrite::DeleteRefund { db_guid: 5 }, ItemWrite::UpdateFlags { db_guid: 5, flags: 1 }]
    );
    assert_eq!(
        item_refund_insert_writes(5, 42, 1000, 7),
        vec![
            ItemWrite::DeleteRefund { db_guid: 5 },
            ItemWrite::InsertRefund { db_guid: 5, player_db_guid: 42, paid_money: 1000, paid_extended_cost: 7 },
        ]
    );
}

#[test]
fn destroying_refundable_stack_drops_refund_first() {
    assert_eq!(
        full_stack_destroy_writes(9, true),
        vec![
            ItemWrite::DeleteRefund { db_guid: 9 },
            ItemWrite::DeleteInventory { db_guid: 9 },
            ItemWrite::DeleteInstance { db_guid: 9 },
        ]
    );
    assert_eq!(
        full_stack_destroy_writes(9, false),
        vec![ItemWrite::DeleteInventory { db_guid: 9 }, ItemWrite::DeleteInstance { db_guid: 9 }]
    );
}

#[test]
fn logout_removes_every_buyback_item() {
    assert_eq!(
        clear_buyback_writes(&vec![3, 4]),
        vec![
            ItemWrite::DeleteInventory { db_guid: 3 },
            ItemWrite::DeleteInstance { db_guid: 3 },
            ItemWrite::DeleteInventory { db_guid: 4 },
            ItemWrite::DeleteInstance { db_guid: 4 },
        ]
    );
    assert!(clear_buyback_writes(&Vec::new()).is_empty());
}
