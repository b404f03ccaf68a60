use vstd::prelude::*;
use crate::codes::BuyResult;
use crate::guid::ObjectGuid;
use crate::inventory::{DirectInventory, ExtendedCostItemTurninChange};
use crate::slots::INVENTORY_SLOT_BAG_0;

verus! {

/// The stack changes that pay each item cost in turn, each planned on the
/// inventory as it is before the purchase; `None` when one cannot be paid.
pub open spec fn costs_plan(inv: DirectInventory, costs: Seq<(u32, u32)>) -> Option<
    Seq<ExtendedCostItemTurninChange>,
>
    decreases costs.len(),
{
    if costs.len() == 0 {
        Some(Seq::empty())
    } else {
        match costs_plan(inv, costs.drop_last()) {
            None => None,
            Some(p) => match inv.plan_from(costs.last().0, 0, costs.last().1 as nat) {
                None => None,
                Some(q) => Some(p + q),
            },
        }
    }
}

/// Plans the item turn-ins of a purchase: the changes of each (item, amount) cost,
/// one after the other; `None` (missing turn-ins) when one of them cannot be paid.
pub fn plan_item_cost_turnins(inv: &DirectInventory, costs: &Vec<(u32, u32)>) -> (r: Option<
    Vec<ExtendedCostItemTurninChange>,
>)
    ensures
        match r {
            Some(v) => costs_plan(*inv, costs@) == Some(v@),
            None => costs_plan(*inv, costs@) is None,
        },
{
    let mut all: Vec<ExtendedCostItemTurninChange> = Vec::new();
    let mut i: usize = 0;
    while i < costs.len()
        invariant
            i <= costs.len(),
            costs_plan(*inv, costs@.take(i as int)) == Some(all@),
        decreases costs.len() - i,
    {
        proof {
            assert(costs@.take(i + 1).drop_last() =~= costs@.take(i as int));
        }
        let (item_id, amount) = costs[i];
        match inv.plan_destroy_item_count_direct_inventory(item_id, amount) {
            Some(changes) => {
                let ghost before = all@;
                let mut j: usize = 0;
                while j < changes.len()
                    invariant
                        j <= changes.len(),
                        all@ == before + changes@.take(j as int),
                    decreases changes.len() - j,
                {
                    all.push(changes[j]);
                    proof {
                        assert(before + changes@.take(j + 1) =~= (before + changes@.take(
                            j as int,
                        )).push(changes@[j as int]));
                    }
                    j = j + 1;
                }
                proof {
                    assert(changes@.take(j as int) =~= changes@);
                }
            },
            None => {
                proof {
                    lemma_costs_plan_fails_after(*inv, costs@, i as int + 1);
                }
                return None;
            },
        }
        i = i + 1;
    }
    proof {
        assert(costs@.take(i as int) =~= costs@);
    }
    Some(all)
}

proof fn lemma_costs_plan_fails_after(inv: DirectInventory, costs: Seq<(u32, u32)>, n: int)
    requires
        0 <= n <= costs.len(),
        costs_plan(inv, costs.take(n)) is None,
    ensures
        costs_plan(inv, costs) is None,
    decreases costs.len() - n,
{
    if n < costs.len() {
        assert(costs.take(n + 1).drop_last() =~= costs.take(n));
        lemma_costs_plan_fails_after(inv, costs, n + 1);
    } else {
        assert(costs.take(n) =~= costs);
    }
}

/// Why a purchase's destinations cannot be filled.
#[derive(Clone, Copy, Debug, PartialEq, Eq, Structural)]
pub enum PlacementError {
    /// A destination lies in a bag, which purchases do not fill.
    WrongBagType,
    /// A destination stack has no loaded item to add to.
    MissingItemObject,
}

/// Where a purchase puts its items.
pub struct BuyPlacement {
    /// Existing stacks that grow: (slot, item, new count).
    pub existing: Vec<(u8, ObjectGuid, u32)>,
    /// New stacks: (slot, database id, count).
    pub new_stacks: Vec<(u8, u64, u32)>,
}

/// How the destinations (bag, slot, count) of a purchase are filled: each
/// destination must be one of the player's own slots; an occupied slot's stack
/// grows by the count (saturating), a free slot gets a new stack whose database
/// id is the next one from `first_db_guid`. The first failing destination decides the error.
pub open spec fn placement(inv: DirectInventory, dests: Seq<(u8, u8, u32)>, first_db_guid: u64) -> Result<
    (Seq<(u8, ObjectGuid, u32)>, Seq<(u8, u64, u32)>),
    PlacementError,
>
    decreases dests.len(),
{
    if dests.len() == 0 {
        Ok((Seq::empty(), Seq::empty()))
    } else {
        match placement(inv, dests.drop_last(), first_db_guid) {
            Err(e) => Err(e),
            Ok((ex, nw)) => {
                let (bag, slot, count) = dests.last();
                if bag != INVENTORY_SLOT_BAG_0 {
                    Err(PlacementError::WrongBagType)
                } else {
                    match inv.at(slot) {
                        Some(st) => match st.runtime {
                            Some(rt) => Ok(
                                (
                                    ex.push(
                                        (
                                            slot,
                                            st.guid,
                                            if rt.count + count > u32::MAX {
                                                u32::MAX
                                            } else {
                                                (rt.count + count) as u32
                                            },
                                        ),
                                    ),
                                    nw,
                                ),
                            ),
                            None => Err(PlacementError::MissingItemObject),
                        },
                        None => Ok((ex, nw.push((slot, (first_db_guid + nw.len()) as u64, count)))),
                    }
                }
            },
        }
    }
}

proof fn lemma_placement_new_len(inv: DirectInventory, dests: Seq<(u8, u8, u32)>, first: u64)
    ensures
        placement(inv, dests, first) matches Ok((ex, nw)) ==> nw.len() <= dests.len(),
    decreases dests.len(),
{
    if dests.len() > 0 {
        lemma_placement_new_len(inv, dests.drop_last(), first);
    }
}

/// The new stacks of a purchase get consecutive database ids from the first
/// free one, so no two of them share an id.
pub proof fn lemma_new_stack_ids_consecutive(inv: DirectInventory, dests: Seq<(u8, u8, u32)>, first: u64)
    requires
        first + dests.len() <= u64::MAX,
    ensures
        placement(inv, dests, first) matches Ok((ex, nw)) ==> forall|k: int|
            0 <= k < nw.len() ==> #[trigger] nw[k].1 == first + k,
    decreases dests.len(),
{
    if dests.len() > 0 {
        lemma_new_stack_ids_consecutive(inv, dests.drop_last(), first);
        lemma_placement_new_len(inv, dests.drop_last(), first);
    }
}

proof fn lemma_placement_fails_after(
    inv: DirectInventory,
    dests: Seq<(u8, u8, u32)>,
    first: u64,
    n: int,
)
    requires
        0 <= n <= dests.len(),
        placement(inv, dests.take(n), first) is Err,
    ensures
        placement(inv, dests, first) == placement(inv, dests.take(n), first),
    decreases dests.len() - n,
{
    if n < dests.len() {
        assert(dests.take(n + 1).drop_last() =~= dests.take(n));
        lemma_placement_fails_after(inv, dests, first, n + 1);
    } else {
        assert(dests.take(n) =~= dests);
    }
}

/// Fills the destinations of a purchase, as `placement` says.
pub fn vendor_buy_placement(inv: &DirectInventory, dests: &Vec<(u8, u8, u32)>, first_db_guid: u64) -> (r:
    Result<BuyPlacement, PlacementError>)
    requires
        first_db_guid + dests@.len() <= u64::MAX,
    ensures
        match r {
            Ok(p) => placement(*inv, dests@, first_db_guid) == Ok::<
                (Seq<(u8, ObjectGuid, u32)>, Seq<(u8, u64, u32)>),
                PlacementError,
            >((p.existing@, p.new_stacks@)),
            Err(e) => placement(*inv, dests@, first_db_guid) == Err::<
                (Seq<(u8, ObjectGuid, u32)>, Seq<(u8, u64, u32)>),
                PlacementError,
            >(e),
        },
{
    let mut existing: Vec<(u8, ObjectGuid, u32)> = Vec::new();
    let mut new_stacks: Vec<(u8, u64, u32)> = Vec::new();
    let mut i: usize = 0;
    while i < dests.len()
        invariant
            i <= dests.len(),
            first_db_guid + dests@.len() <= u64::MAX,
            placement(*inv, dests@.take(i as int), first_db_guid) == Ok::<
                (Seq<(u8, ObjectGuid, u32)>, Seq<(u8, u64, u32)>),
                PlacementError,
            >((existing@, new_stacks@)),
        decreases dests.len() - i,
    {
        proof {
            assert(dests@.take(i + 1).drop_last() =~= dests@.take(i as int));
            lemma_placement_new_len(*inv, dests@.take(i as int), first_db_guid);
        }
        let (bag, slot, count) = dests[i];
        if bag != INVENTORY_SLOT_BAG_0 {
            proof {
                lemma_placement_fails_after(*inv, dests@, first_db_guid, i + 1);
            }
            return Err(PlacementError::WrongBagType);
        }
        match inv.stack_at_slot(slot) {
            Some(st) => match st.runtime {
                Some(rt) => {
                    existing.push((slot, st.guid, rt.count.saturating_add(count)));
                },
                None => {
                    proof {
                        lemma_placement_fails_after(*inv, dests@, first_db_guid, i + 1);
                    }
                    return Err(PlacementError::MissingItemObject);
                },
            },
            None => {
                let db_guid: u64 = first_db_guid + new_stacks.len() as u64;
                new_stacks.push((slot, db_guid, count));
            },
        }
        i = i + 1;
    }
    proof {
        assert(dests@.take(i as int) =~= dests@);
    }
    Ok(BuyPlacement { existing, new_stacks })
}

/// Why a bought-back item cannot be put back.
#[derive(Clone, Copy, Debug, PartialEq, Eq, Structural)]
pub enum BuybackPlacementError {
    /// A destination lies in a bag.
    WrongBagType,
    /// A destination stack has no loaded item to add to.
    MissingItemObject,
    /// The item would need two free slots; it is moved as a whole into one.
    NoSlotAvailable,
}

/// Where a bought-back item goes.
pub struct BuybackPlacement {
    /// Existing stacks that grow: (slot, item, new count).
    pub existing: Vec<(u8, ObjectGuid, u32)>,
    /// The free slot the item itself moves to, with the count it keeps; none
    /// when it was wholly added to existing stacks (and is then deleted).
    pub moved: Option<(u8, u32)>,
}

/// How the destinations (bag, slot, count) of a bought-back item are filled:
/// like a purchase, except that at most one free slot can be used, and it
/// receives the item itself. The first failing destination decides the error.
pub open spec fn buyback_placement(inv: DirectInventory, dests: Seq<(u8, u8, u32)>) -> Result<
    (Seq<(u8, ObjectGuid, u32)>, Option<(u8, u32)>),
    BuybackPlacementError,
>
    decreases dests.len(),
{
    if dests.len() == 0 {
        Ok((Seq::empty(), None))
    } else {
        match buyback_placement(inv, dests.drop_last()) {
            Err(e) => Err(e),
            Ok((ex, moved)) => {
                let (bag, slot, count) = dests.last();
                if bag != INVENTORY_SLOT_BAG_0 {
                    Err(BuybackPlacementError::WrongBagType)
                } else {
                    match inv.at(slot) {
                        Some(st) => match st.runtime {
                            Some(rt) => Ok(
                                (
                                    ex.push(
                                        (
                                            slot,
                                            st.guid,
                                            if rt.count + count > u32::MAX {
                                                u32::MAX
                                            } else {
                                                (rt.count + count) as u32
                                            },
                                        ),
                                    ),
                                    moved,
                                ),
                            ),
                            None => Err(BuybackPlacementError::MissingItemObject),
                        },
                        None => if moved is Some {
                            Err(BuybackPlacementError::NoSlotAvailable)
                        } else {
                            Ok((ex, Some((slot, count))))
                        },
                    }
                }
            },
        }
    }
}

proof fn lemma_buyback_placement_fails_after(
    inv: DirectInventory,
    dests: Seq<(u8, u8, u32)>,
    n: int,
)
    requires
        0 <= n <= dests.len(),
        buyback_placement(inv, dests.take(n)) is Err,
    ensures
        buyback_placement(inv, dests) == buyback_placement(inv, dests.take(n)),
    decreases dests.len() - n,
{
    if n < dests.len() {
        assert(dests.take(n + 1).drop_last() =~= dests.take(n));
        lemma_buyback_placement_fails_after(inv, dests, n + 1);
    } else {
        assert(dests.take(n) =~= dests);
    }
}

/// Fills the destinations of a bought-back item, as `buyback_placement` says.
pub fn buyback_item_placement(inv: &DirectInventory, dests: &Vec<(u8, u8, u32)>) -> (r: Result<
    BuybackPlacement,
    BuybackPlacementError,
>)
    ensures
        match r {
            Ok(p) => buyback_placement(*inv, dests@) == Ok::<
                (Seq<(u8, ObjectGuid, u32)>, Option<(u8, u32)>),
                BuybackPlacementError,
            >((p.existing@, p.moved)),
            Err(e) => buyback_placement(*inv, dests@) == Err::<
                (Seq<(u8, ObjectGuid, u32)>, Option<(u8, u32)>),
                BuybackPlacementError,
            >(e),
        },
{
    let mut existing: Vec<(u8, ObjectGuid, u32)> = Vec::new();
    let mut moved: Option<(u8, u32)> = None;
    let mut i: usize = 0;
    while i < dests.len()
        invariant
            i <= dests.len(),
            buyback_placement(*inv, dests@.take(i as int)) == Ok::<
                (Seq<(u8, ObjectGuid, u32)>, Option<(u8, u32)>),
                BuybackPlacementError,
            >((existing@, moved)),
        decreases dests.len() - i,
    {
        proof {
            assert(dests@.take(i + 1).drop_last() =~= dests@.take(i as int));
        }
        let (bag, slot, count) = dests[i];
        if bag != INVENTORY_SLOT_BAG_0 {
            proof {
                lemma_buyback_placement_fails_after(*inv, dests@, i + 1);
            }
            return Err(BuybackPlacementError::WrongBagType);
        }
        match inv.stack_at_slot(slot) {
            Some(st) => match st.runtime {
                Some(rt) => {
                    existing.push((slot, st.guid, rt.count.saturating_add(count)));
                },
                None => {
                    proof {
                        lemma_buyback_placement_fails_after(*inv, dests@, i + 1);
                    }
                    return Err(BuybackPlacementError::MissingItemObject);
                },
            },
            None => {
                if moved.is_some() {
                    proof {
                        lemma_buyback_placement_fails_after(*inv, dests@, i + 1);
                    }
                    return Err(BuybackPlacementError::NoSlotAvailable);
                }
                moved = Some((slot, count));
            },
        }
        i = i + 1;
    }
    proof {
        assert(dests@.take(i as int) =~= dests@);
    }
    Ok(BuybackPlacement { existing, moved })
}

/// The buyback slot filled next after `bought_slot` was bought back: the
/// freed slot, when the slot that was next is taken; otherwise that one.
pub fn buyback_slot_after_buyback(current_slot: u8, current_slot_taken: bool, bought_slot: u8) -> (r:
    u8)
    ensures
        r == (if current_slot_taken {
            bought_slot
        } else {
            current_slot
        }),
{
    if current_slot_taken {
        bought_slot
    } else {
        current_slot
    }
}

/// The player's money after paying `price` for a purchase, or the refusal
/// when the player has less than the price.
pub fn buy_gold_after_payment(gold: u64, price: u64) -> (r: Result<u64, BuyResult>)
    ensures
        r == (if gold < price {
            Err::<u64, BuyResult>(BuyResult::NotEnoughtMoney)
        } else {
            Ok::<u64, BuyResult>((gold - price) as u64)
        }),
{
    if gold < price {
        Err(BuyResult::NotEnoughtMoney)
    } else {
        Ok(gold - price)
    }
}

/// The new stack that carries a refundable purchase's refund record: the last
/// one created, when the purchase is refundable.
pub fn refund_item_db_guid(refundable: bool, new_stacks: &Vec<(u8, u64, u32)>) -> (r: Option<u64>)
    ensures
        r == (if refundable && new_stacks@.len() > 0 {
            Some(new_stacks@.last().1)
        } else {
            None::<u64>
        }),
{
    if refundable && new_stacks.len() > 0 {
        Some(new_stacks[new_stacks.len() - 1].1)
    } else {
        None
    }
}

} // verus!
