use vstd::prelude::*;
use crate::inventory::ExtendedCostItemTurninChange;

verus! {

/// A write to the character database about an item instance, identified by
/// its database id.
#[derive(Clone, Copy, Debug, PartialEq, Eq, Structural)]
pub enum ItemWrite {
    /// Set the stack count of an item instance.
    UpdateCount { db_guid: u64, count: u32 },
    /// Remove the item from the character's inventory.
    DeleteInventory { db_guid: u64 },
    /// Remove the item instance.
    DeleteInstance { db_guid: u64 },
    /// Remove the item's refund record.
    DeleteRefund { db_guid: u64 },
    /// Set the item instance's flags.
    UpdateFlags { db_guid: u64, flags: u32 },
    /// Record what was paid for the item, and by whom, for a refund.
    InsertRefund { db_guid: u64, player_db_guid: u64, paid_money: u64, paid_extended_cost: u16 },
}

/// The writes that remove an item altogether: from the inventory, then the instance.
pub open spec fn removal_writes(db_guid: u64) -> Seq<ItemWrite> {
    seq![ItemWrite::DeleteInventory { db_guid }, ItemWrite::DeleteInstance { db_guid }]
}

/// The writes that paying an item cost makes: a count update for each stack
/// that keeps items, the removal of each stack used up, in order.
pub open spec fn turnin_writes(cs: Seq<ExtendedCostItemTurninChange>) -> Seq<ItemWrite>
    decreases cs.len(),
{
    if cs.len() == 0 {
        Seq::empty()
    } else {
        turnin_writes(cs.drop_last()) + match cs.last() {
            ExtendedCostItemTurninChange::Update { db_guid, new_count, .. } => seq![
                ItemWrite::UpdateCount { db_guid, count: new_count },
            ],
            ExtendedCostItemTurninChange::Delete { db_guid, .. } => removal_writes(db_guid),
        }
    }
}

pub fn item_turnin_writes(changes: &Vec<ExtendedCostItemTurninChange>) -> (r: Vec<ItemWrite>)
    ensures
        r@ == turnin_writes(changes@),
{
    let mut out: Vec<ItemWrite> = Vec::new();
    let mut i: usize = 0;
    while i < changes.len()
        invariant
            i <= changes.len(),
            out@ == turnin_writes(changes@.take(i as int)),
        decreases changes.len() - i,
    {
        proof {
            assert(changes@.take(i + 1).drop_last() =~= changes@.take(i as int));
        }
        let ghost before = out@;
        match changes[i] {
            ExtendedCostItemTurninChange::Update { db_guid, new_count, .. } => {
                out.push(ItemWrite::UpdateCount { db_guid, count: new_count });
            },
            ExtendedCostItemTurninChange::Delete { db_guid, .. } => {
                out.push(ItemWrite::DeleteInventory { db_guid });
                out.push(ItemWrite::DeleteInstance { db_guid });
            },
        }
        proof {
            assert(out@ =~= turnin_writes(changes@.take(i + 1)));
        }
        i = i + 1;
    }
    proof {
        assert(changes@.take(i as int) =~= changes@);
    }
    out
}

/// The writes that end an item's refundability: its refund record goes and
/// its flags are set to `new_flags`.
pub fn item_refund_clear_writes(db_guid: u64, new_flags: u32) -> (r: Vec<ItemWrite>)
    ensures
        r@ == seq![
            ItemWrite::DeleteRefund { db_guid },
            ItemWrite::UpdateFlags { db_guid, flags: new_flags },
        ],
{
    let r = vec![
        ItemWrite::DeleteRefund { db_guid },
        ItemWrite::UpdateFlags { db_guid, flags: new_flags },
    ];
    proof {
        assert(r@ =~= seq![
            ItemWrite::DeleteRefund { db_guid },
            ItemWrite::UpdateFlags { db_guid, flags: new_flags },
        ]);
    }
    r
}

/// The writes that record a refundable purchase: any earlier refund record of
/// the item goes, and the new one is inserted.
pub fn item_refund_insert_writes(
    db_guid: u64,
    player_db_guid: u64,
    paid_money: u64,
    paid_extended_cost: u16,
) -> (r: Vec<ItemWrite>)
    ensures
        r@ == seq![
            ItemWrite::DeleteRefund { db_guid },
            ItemWrite::InsertRefund { db_guid, player_db_guid, paid_money, paid_extended_cost },
        ],
{
    let r = vec![
        ItemWrite::DeleteRefund { db_guid },
        ItemWrite::InsertRefund { db_guid, player_db_guid, paid_money, paid_extended_cost },
    ];
    proof {
        assert(r@ =~= seq![
            ItemWrite::DeleteRefund { db_guid },
            ItemWrite::InsertRefund { db_guid, player_db_guid, paid_money, paid_extended_cost },
        ]);
    }
    r
}

/// The writes that destroy a whole stack: its refund record first when the
/// item is refundable, then the item itself.
pub fn full_stack_destroy_writes(db_guid: u64, refundable: bool) -> (r: Vec<ItemWrite>)
    ensures
        r@ == (if refundable {
            seq![ItemWrite::DeleteRefund { db_guid }] + removal_writes(db_guid)
        } else {
            removal_writes(db_guid)
        }),
{
    let mut r: Vec<ItemWrite> = Vec::new();
    if refundable {
        r.push(ItemWrite::DeleteRefund { db_guid });
    }
    r.push(ItemWrite::DeleteInventory { db_guid });
    r.push(ItemWrite::DeleteInstance { db_guid });
    proof {
        if refundable {
            assert(r@ =~= seq![ItemWrite::DeleteRefund { db_guid }] + removal_writes(db_guid));
        } else {
            assert(r@ =~= removal_writes(db_guid));
        }
    }
    r
}

/// The writes that remove several items altogether, one after the other.
pub open spec fn removals(db_guids: Seq<u64>) -> Seq<ItemWrite>
    decreases db_guids.len(),
{
    if db_guids.len() == 0 {
        Seq::empty()
    } else {
        removals(db_guids.drop_last()) + removal_writes(db_guids.last())
    }
}

/// The writes that empty the buyback list at logout: each item in it is removed.
pub fn clear_buyback_writes(db_guids: &Vec<u64>) -> (r: Vec<ItemWrite>)
    ensures
        r@ == removals(db_guids@),
{
    let mut out: Vec<ItemWrite> = Vec::new();
    let mut i: usize = 0;
    while i < db_guids.len()
        invariant
            i <= db_guids.len(),
            out@ == removals(db_guids@.take(i as int)),
        decreases db_guids.len() - i,
    {
        proof {
            assert(db_guids@.take(i + 1).drop_last() =~= db_guids@.take(i as int));
        }
        let ghost before = out@;
        out.push(ItemWrite::DeleteInventory { db_guid: db_guids[i] });
        out.push(ItemWrite::DeleteInstance { db_guid: db_guids[i] });
        proof {
            assert(out@ =~= removals(db_guids@.take(i + 1)));
        }
        i = i + 1;
    }
    proof {
        assert(db_guids@.take(i as int) =~= db_guids@);
    }
    out
}

} // verus!
