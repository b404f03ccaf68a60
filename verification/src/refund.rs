use vstd::prelude::*;
use crate::guid::ObjectGuid;
use crate::inventory::DirectInventory;
use crate::slots::{INVENTORY_DEFAULT_SIZE, INVENTORY_SLOT_BAG_0, INVENTORY_SLOT_ITEM_START};

verus! {

/// One stack of an item cost to give back on a refund, where the store planner
/// put it: the item, how many of it fit in one stack, and the (bag, slot, count)
/// destination.
#[derive(Clone, Copy, Debug, PartialEq, Eq, Structural)]
pub struct RefundReturnStep {
    pub entry_id: u32,
    pub max_stack: u32,
    pub bag: u8,
    pub slot: u8,
    pub count: u32,
}

/// An existing stack that grows when the cost items come back.
#[derive(Clone, Copy, Debug, PartialEq, Eq, Structural)]
pub struct ExistingRefill {
    pub slot: u8,
    pub guid: ObjectGuid,
    pub db_guid: u64,
    pub count: u32,
}

/// A new stack made for cost items that come back.
#[derive(Clone, Copy, Debug, PartialEq, Eq, Structural)]
pub struct PlannedNewStack {
    pub slot: u8,
    pub entry_id: u32,
    pub count: u32,
}

/// Where the cost items of a refund go.
pub struct RefundReturnPlan {
    pub existing: Vec<ExistingRefill>,
    pub new_stacks: Vec<PlannedNewStack>,
}

/// The stack size limit of an item: its template's, at least one (one when unknown).
pub fn effective_max_stack(template_max_stack: Option<u32>) -> (r: u32)
    ensures
        r == match template_max_stack {
            Some(m) => if m >= 1 {
                m
            } else {
                1
            },
            None => 1,
        },
{
    match template_max_stack {
        Some(m) => if m >= 1 {
            m
        } else {
            1
        },
        None => 1,
    }
}

/// The answer a deterministic store check gives: whether `count` items of
/// `entry` stored at one slot go there as one stack.
pub open spec fn fits_answer<F: Fn(u32, u32, u8) -> bool>(f: F, entry: u32, count: u32, slot: u8) -> bool {
    choose|r: bool| call_ensures(f, (entry, count, slot), r)
}

/// A store check that can always be called.
pub open spec fn total_check<F: Fn(u32, u32, u8) -> bool>(f: F) -> bool {
    forall|a: u32, b: u32, c: u8| call_requires(f, (a, b, c))
}

/// A store check that can always be called and always gives the same answer.
pub open spec fn deterministic_check<F: Fn(u32, u32, u8) -> bool>(f: F) -> bool {
    &&& forall|a: u32, b: u32, c: u8| call_requires(f, (a, b, c))
    &&& forall|a: u32, b: u32, c: u8, r1: bool, r2: bool|
        call_ensures(f, (a, b, c), r1) && call_ensures(f, (a, b, c), r2) ==> r1 == r2
}

pub open spec fn sat_add(a: u32, b: u32) -> u32 {
    if a + b > u32::MAX {
        u32::MAX
    } else {
        (a + b) as u32
    }
}

/// The index of the first refill of `s` at `slot`.
pub open spec fn refill_index(s: Seq<ExistingRefill>, slot: u8) -> Option<int>
    decreases s.len(),
{
    if s.len() == 0 {
        None
    } else {
        match refill_index(s.drop_last(), slot) {
            Some(k) => Some(k),
            None => if s.last().slot == slot {
                Some(s.len() - 1)
            } else {
                None
            },
        }
    }
}

/// The index of the first planned new stack of `s` at `slot`.
pub open spec fn new_stack_index(s: Seq<PlannedNewStack>, slot: u8) -> Option<int>
    decreases s.len(),
{
    if s.len() == 0 {
        None
    } else {
        match new_stack_index(s.drop_last(), slot) {
            Some(k) => Some(k),
            None => if s.last().slot == slot {
                Some(s.len() - 1)
            } else {
                None
            },
        }
    }
}

/// One past the last default backpack slot.
pub open spec fn backpack_end() -> int {
    INVENTORY_SLOT_ITEM_START + INVENTORY_DEFAULT_SIZE
}

/// The first default backpack slot, from `s` on, that is free and not yet
/// planned for a new stack.
pub open spec fn free_backpack_from(inv: DirectInventory, planned: Seq<PlannedNewStack>, s: int) -> Option<u8>
    decreases backpack_end() - s,
{
    if s >= backpack_end() || s < 0 {
        None
    } else if inv.at(s as u8) is None && new_stack_index(planned, s as u8) is None {
        Some(s as u8)
    } else {
        free_backpack_from(inv, planned, s + 1)
    }
}

/// One destination of returned cost items, applied to the plan so far: a
/// destination must be one of the player's own slots; an occupied slot must
/// hold a loaded stack of the same item, which grows (counting what the plan
/// already added) up to the stack limit; a free slot already planned for a new
/// stack takes more of the same item up to the limit, or else the items go to
/// the first free, unplanned default backpack slot where the store check
/// accepts them; any other free slot gets a new stack.
pub open spec fn refund_step<F: Fn(u32, u32, u8) -> bool>(
    inv: DirectInventory,
    plan: (Seq<ExistingRefill>, Seq<PlannedNewStack>),
    s: RefundReturnStep,
    fits: F,
) -> Option<(Seq<ExistingRefill>, Seq<PlannedNewStack>)> {
    let (ex, nw) = plan;
    if s.bag != INVENTORY_SLOT_BAG_0 {
        None
    } else {
        match inv.at(s.slot) {
            Some(item) => match item.runtime {
                None => None,
                Some(rt) => {
                    let base = match refill_index(ex, s.slot) {
                        Some(k) => ex[k].count,
                        None => rt.count,
                    };
                    let new_count = sat_add(base, s.count);
                    if item.entry_id != s.entry_id || new_count > s.max_stack {
                        None
                    } else {
                        let r = ExistingRefill {
                            slot: s.slot,
                            guid: item.guid,
                            db_guid: item.db_guid,
                            count: new_count,
                        };
                        match refill_index(ex, s.slot) {
                            Some(k) => Some((ex.update(k, r), nw)),
                            None => Some((ex.push(r), nw)),
                        }
                    }
                },
            },
            None => match new_stack_index(nw, s.slot) {
                Some(k) => if nw[k].entry_id == s.entry_id && sat_add(nw[k].count, s.count)
                    <= s.max_stack {
                    Some((ex, nw.update(k, PlannedNewStack { count: sat_add(nw[k].count, s.count), ..nw[k] })))
                } else {
                    match free_backpack_from(inv, nw, INVENTORY_SLOT_ITEM_START as int) {
                        None => None,
                        Some(alt) => if fits_answer(fits, s.entry_id, s.count, alt) {
                            Some(
                                (ex, nw.push(PlannedNewStack { slot: alt, entry_id: s.entry_id, count: s.count })),
                            )
                        } else {
                            None
                        },
                    }
                },
                None => Some(
                    (ex, nw.push(PlannedNewStack { slot: s.slot, entry_id: s.entry_id, count: s.count })),
                ),
            },
        }
    }
}

/// Where all destinations of returned cost items go, in order; `None` when one fails.
pub open spec fn refund_returns<F: Fn(u32, u32, u8) -> bool>(
    inv: DirectInventory,
    steps: Seq<RefundReturnStep>,
    fits: F,
) -> Option<(Seq<ExistingRefill>, Seq<PlannedNewStack>)>
    decreases steps.len(),
{
    if steps.len() == 0 {
        Some((Seq::empty(), Seq::empty()))
    } else {
        match refund_returns(inv, steps.drop_last(), fits) {
            None => None,
            Some(p) => refund_step(inv, p, steps.last(), fits),
        }
    }
}

fn find_refill(s: &Vec<ExistingRefill>, slot: u8) -> (r: Option<usize>)
    ensures
        match r {
            Some(k) => refill_index(s@, slot) == Some(k as int) && k < s@.len(),
            None => refill_index(s@, slot) is None,
        },
{
    let mut i: usize = 0;
    while i < s.len()
        invariant
            i <= s.len(),
            refill_index(s@.take(i as int), slot) is None,
        decreases s.len() - i,
    {
        proof {
            assert(s@.take(i + 1).drop_last() =~= s@.take(i as int));
        }
        if s[i].slot == slot {
            proof {
                lemma_refill_index_prefix(s@, slot, i + 1);
            }
            return Some(i);
        }
        i = i + 1;
    }
    proof {
        assert(s@.take(i as int) =~= s@);
    }
    None
}

proof fn lemma_refill_index_prefix(s: Seq<ExistingRefill>, slot: u8, n: int)
    requires
        0 <= n <= s.len(),
        refill_index(s.take(n), slot) is Some,
    ensures
        refill_index(s, slot) == refill_index(s.take(n), slot),
    decreases s.len() - n,
{
    if n < s.len() {
        assert(s.take(n + 1).drop_last() =~= s.take(n));
        lemma_refill_index_prefix(s, slot, n + 1);
    } else {
        assert(s.take(n) =~= s);
    }
}

fn find_new_stack(s: &Vec<PlannedNewStack>, slot: u8) -> (r: Option<usize>)
    ensures
        match r {
            Some(k) => new_stack_index(s@, slot) == Some(k as int) && k < s@.len(),
            None => new_stack_index(s@, slot) is None,
        },
{
    let mut i: usize = 0;
    while i < s.len()
        invariant
            i <= s.len(),
            new_stack_index(s@.take(i as int), slot) is None,
        decreases s.len() - i,
    {
        proof {
            assert(s@.take(i + 1).drop_last() =~= s@.take(i as int));
        }
        if s[i].slot == slot {
            proof {
                lemma_new_stack_index_prefix(s@, slot, i + 1);
            }
            return Some(i);
        }
        i = i + 1;
    }
    proof {
        assert(s@.take(i as int) =~= s@);
    }
    None
}

proof fn lemma_new_stack_index_prefix(s: Seq<PlannedNewStack>, slot: u8, n: int)
    requires
        0 <= n <= s.len(),
        new_stack_index(s.take(n), slot) is Some,
    ensures
        new_stack_index(s, slot) == new_stack_index(s.take(n), slot),
    decreases s.len() - n,
{
    if n < s.len() {
        assert(s.take(n + 1).drop_last() =~= s.take(n));
        lemma_new_stack_index_prefix(s, slot, n + 1);
    } else {
        assert(s.take(n) =~= s);
    }
}

fn first_free_backpack_slot(inv: &DirectInventory, planned: &Vec<PlannedNewStack>) -> (r: Option<u8>)
    ensures
        r == free_backpack_from(*inv, planned@, INVENTORY_SLOT_ITEM_START as int),
{
    let end: u8 = INVENTORY_SLOT_ITEM_START + INVENTORY_DEFAULT_SIZE;
    let mut slot: u8 = INVENTORY_SLOT_ITEM_START;
    while slot < end
        invariant
            INVENTORY_SLOT_ITEM_START <= slot <= end,
            end == backpack_end(),
            free_backpack_from(*inv, planned@, INVENTORY_SLOT_ITEM_START as int) == free_backpack_from(
                *inv,
                planned@,
                slot as int,
            ),
        decreases end - slot,
    {
        if inv.stack_at_slot(slot).is_none() && find_new_stack(planned, slot).is_none() {
            return Some(slot);
        }
        slot = slot + 1;
    }
    None
}

fn sat_add_u32(a: u32, b: u32) -> (r: u32)
    ensures
        r == sat_add(a, b),
{
    a.saturating_add(b)
}

/// Plans where the cost items of a refund go back, destination by destination;
/// `fits(entry, count, slot)` answers whether storing `count` of `entry` at the
/// free slot `slot` yields exactly one stack there. `None` when the items cannot
/// all be given back (the refund then fails). The plan is stated for a store
/// check that answers the same question the same way each time.
pub fn plan_refund_returns<F: Fn(u32, u32, u8) -> bool>(
    inv: &DirectInventory,
    steps: &Vec<RefundReturnStep>,
    fits: F,
) -> (r: Option<RefundReturnPlan>)
    requires
        total_check(fits),
    ensures
        steps@.len() == 0 ==> (r matches Some(p) && p.existing@.len() == 0 && p.new_stacks@.len() == 0),
        deterministic_check(fits) ==> match r {
            Some(p) => refund_returns(*inv, steps@, fits) == Some((p.existing@, p.new_stacks@)),
            None => refund_returns(*inv, steps@, fits) is None,
        },
{
    let mut existing: Vec<ExistingRefill> = Vec::new();
    let mut new_stacks: Vec<PlannedNewStack> = Vec::new();
    let mut i: usize = 0;
    while i < steps.len()
        invariant
            i <= steps.len(),
            total_check(fits),
            i == 0 ==> existing@.len() == 0 && new_stacks@.len() == 0,
            deterministic_check(fits) ==> refund_returns(*inv, steps@.take(i as int), fits) == Some(
                (existing@, new_stacks@),
            ),
        decreases steps.len() - i,
    {
        proof {
            assert(steps@.take(i + 1).drop_last() =~= steps@.take(i as int));
        }
        let s = steps[i];
        let ghost before = (existing@, new_stacks@);
        let mut failed = false;
        if s.bag != INVENTORY_SLOT_BAG_0 {
            failed = true;
        } else {
            match inv.stack_at_slot(s.slot) {
                Some(item) => match item.runtime {
                    None => {
                        failed = true;
                    },
                    Some(rt) => {
                        let found = find_refill(&existing, s.slot);
                        let base = match found {
                            Some(k) => existing[k].count,
                            None => rt.count,
                        };
                        let new_count = sat_add_u32(base, s.count);
                        if item.entry_id != s.entry_id || new_count > s.max_stack {
                            failed = true;
                        } else {
                            let r = ExistingRefill {
                                slot: s.slot,
                                guid: item.guid,
                                db_guid: item.db_guid,
                                count: new_count,
                            };
                            match found {
                                Some(k) => {
                                    existing.set(k, r);
                                },
                                None => {
                                    existing.push(r);
                                },
                            }
                        }
                    },
                },
                None => match find_new_stack(&new_stacks, s.slot) {
                    Some(k) => {
                        let merged = sat_add_u32(new_stacks[k].count, s.count);
                        if new_stacks[k].entry_id == s.entry_id && merged <= s.max_stack {
                            let updated = PlannedNewStack { count: merged, ..new_stacks[k] };
                            new_stacks.set(k, updated);
                        } else {
                            match first_free_backpack_slot(inv, &new_stacks) {
                                None => {
                                    failed = true;
                                },
                                Some(alt) => {
                                    let ok = fits(s.entry_id, s.count, alt);
                                    proof {
                                        assert(call_ensures(fits, (s.entry_id, s.count, alt), ok));
                                        if deterministic_check(fits) {
                                            assert(fits_answer(fits, s.entry_id, s.count, alt) == ok);
                                        }
                                    }
                                    if ok {
                                        new_stacks.push(
                                            PlannedNewStack {
                                                slot: alt,
                                                entry_id: s.entry_id,
                                                count: s.count,
                                            },
                                        );
                                    } else {
                                        failed = true;
                                    }
                                },
                            }
                        }
                    },
                    None => {
                        new_stacks.push(
                            PlannedNewStack { slot: s.slot, entry_id: s.entry_id, count: s.count },
                        );
                    },
                },
            }
        }
        if failed {
            proof {
                if deterministic_check(fits) {
                    assert(refund_step(*inv, before, s, fits) is None);
                    lemma_refund_fails_after(*inv, steps@, fits, i + 1);
                }
            }
            return None;
        }
        proof {
            if deterministic_check(fits) {
                assert(refund_step(*inv, before, s, fits) == Some((existing@, new_stacks@)));
            }
        }
        i = i + 1;
    }
    proof {
        assert(steps@.take(i as int) =~= steps@);
    }
    Some(RefundReturnPlan { existing, new_stacks })
}

proof fn lemma_new_stack_index_none(s: Seq<PlannedNewStack>, slot: u8)
    ensures
        new_stack_index(s, slot) is None <==> forall|k: int| 0 <= k < s.len() ==> #[trigger] s[k].slot != slot,
    decreases s.len(),
{
    if s.len() > 0 {
        lemma_new_stack_index_none(s.drop_last(), slot);
        if new_stack_index(s, slot) is None {
            assert forall|k: int| 0 <= k < s.len() implies #[trigger] s[k].slot != slot by {
                if k < s.len() - 1 {
                    assert(s.drop_last()[k] == s[k]);
                }
            }
        }
        if forall|k: int| 0 <= k < s.len() ==> #[trigger] s[k].slot != slot {
            assert forall|k: int| 0 <= k < s.drop_last().len() implies #[trigger] s.drop_last()[k].slot != slot by {
                assert(s.drop_last()[k] == s[k]);
            }
            assert(s[s.len() - 1].slot != slot);
        }
    }
}

proof fn lemma_new_stack_index_some(s: Seq<PlannedNewStack>, slot: u8)
    ensures
        new_stack_index(s, slot) matches Some(k) ==> 0 <= k < s.len() && s[k].slot == slot,
    decreases s.len(),
{
    if s.len() > 0 {
        lemma_new_stack_index_some(s.drop_last(), slot);
    }
}

proof fn lemma_free_backpack_props(inv: DirectInventory, planned: Seq<PlannedNewStack>, s: int)
    ensures
        free_backpack_from(inv, planned, s) matches Some(x) ==> inv.at(x) is None && new_stack_index(
            planned,
            x,
        ) is None,
    decreases backpack_end() - s,
{
    if s < backpack_end() && s >= 0 {
        lemma_free_backpack_props(inv, planned, s + 1);
    }
}

/// The new stacks a refund plans lie in distinct slots, each free before the
/// refund: returned items never land on each other or on an occupied slot.
pub proof fn lemma_refund_new_stacks_in_free_distinct_slots<F: Fn(u32, u32, u8) -> bool>(
    inv: DirectInventory,
    steps: Seq<RefundReturnStep>,
    fits: F,
)
    ensures
        refund_returns(inv, steps, fits) matches Some((ex, nw)) ==> {
            &&& forall|a: int, b: int| 0 <= a < b < nw.len() ==> #[trigger] nw[a].slot != #[trigger] nw[b].slot
            &&& forall|k: int| 0 <= k < nw.len() ==> #[trigger] inv.at(nw[k].slot) is None
        },
    decreases steps.len(),
{
    if steps.len() > 0 {
        lemma_refund_new_stacks_in_free_distinct_slots(inv, steps.drop_last(), fits);
        match refund_returns(inv, steps.drop_last(), fits) {
            None => {},
            Some((ex, nw)) => {
                let s = steps.last();
                if s.bag == INVENTORY_SLOT_BAG_0 && inv.at(s.slot) is None {
                    lemma_new_stack_index_some(nw, s.slot);
                    match new_stack_index(nw, s.slot) {
                        Some(k) => {
                            if !(nw[k].entry_id == s.entry_id && sat_add(nw[k].count, s.count)
                                <= s.max_stack) {
                                let f = free_backpack_from(inv, nw, INVENTORY_SLOT_ITEM_START as int);
                                lemma_free_backpack_props(inv, nw, INVENTORY_SLOT_ITEM_START as int);
                                if let Some(alt) = f {
                                    lemma_new_stack_index_none(nw, alt);
                                }
                            } else {
                                let nw2 = nw.update(k, PlannedNewStack { count: sat_add(nw[k].count, s.count), ..nw[k] });
                                assert forall|a: int| 0 <= a < nw2.len() implies nw2[a].slot == nw[a].slot by {}
                            }
                        },
                        None => {
                            lemma_new_stack_index_none(nw, s.slot);
                        },
                    }
                }
            },
        }
    }
}

proof fn lemma_refund_fails_after<F: Fn(u32, u32, u8) -> bool>(
    inv: DirectInventory,
    steps: Seq<RefundReturnStep>,
    fits: F,
    n: int,
)
    requires
        0 <= n <= steps.len(),
        refund_returns(inv, steps.take(n), fits) is None,
    ensures
        refund_returns(inv, steps, fits) is None,
    decreases steps.len() - n,
{
    if n < steps.len() {
        assert(steps.take(n + 1).drop_last() =~= steps.take(n));
        lemma_refund_fails_after(inv, steps, fits, n + 1);
    } else {
        assert(steps.take(n) =~= steps);
    }
}

} // verus!
