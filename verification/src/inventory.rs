use vstd::prelude::*;
use crate::guid::ObjectGuid;
use crate::slots::EQUIPMENT_SLOT_END;

verus! {

/// What the runtime item object of a stack says of it.
#[derive(Clone, Copy, Debug, PartialEq, Eq, Structural)]
pub struct RuntimeItemState {
    pub count: u32,
    pub in_trade: bool,
}

/// One occupied slot of the player's direct inventory.
#[derive(Clone, Copy, Debug, PartialEq, Eq, Structural)]
pub struct InventoryStack {
    pub slot: u8,
    pub guid: ObjectGuid,
    pub entry_id: u32,
    pub db_guid: u64,
    /// The runtime item object, where one is loaded.
    pub runtime: Option<RuntimeItemState>,
}

/// A change to an inventory stack that paying an item cost makes.
#[derive(Clone, Copy, Debug, PartialEq, Eq, Structural)]
pub enum ExtendedCostItemTurninChange {
    Update { slot: u8, item_guid: ObjectGuid, db_guid: u64, new_count: u32 },
    Delete { slot: u8, item_guid: ObjectGuid, db_guid: u64 },
}

/// The stack that a sequence of stacks holds at `slot` (the last one written there).
pub open spec fn stack_at(s: Seq<InventoryStack>, slot: u8) -> Option<InventoryStack>
    decreases s.len(),
{
    if s.len() == 0 {
        None
    } else if s.last().slot == slot {
        Some(s.last())
    } else {
        stack_at(s.drop_last(), slot)
    }
}

/// A sequence of stacks without its stacks at `slot`.
pub open spec fn without_slot(s: Seq<InventoryStack>, slot: u8) -> Seq<InventoryStack>
    decreases s.len(),
{
    if s.len() == 0 {
        Seq::empty()
    } else if s.last().slot == slot {
        without_slot(s.drop_last(), slot)
    } else {
        without_slot(s.drop_last(), slot).push(s.last())
    }
}

proof fn lemma_stack_at_without(s: Seq<InventoryStack>, slot: u8, t: u8)
    ensures
        stack_at(without_slot(s, slot), t) == (if t == slot {
            None::<InventoryStack>
        } else {
            stack_at(s, t)
        }),
    decreases s.len(),
{
    if s.len() > 0 {
        lemma_stack_at_without(s.drop_last(), slot, t);
        if s.last().slot != slot {
            let r = without_slot(s.drop_last(), slot);
            assert(r.push(s.last()).drop_last() =~= r);
        }
    }
}

/// The stack found at a slot always names that slot.
proof fn lemma_stack_at_slot(s: Seq<InventoryStack>, slot: u8)
    ensures
        stack_at(s, slot) matches Some(st) ==> st.slot == slot,
    decreases s.len(),
{
    if s.len() > 0 {
        lemma_stack_at_slot(s.drop_last(), slot);
    }
}

/// A stack (if any) moved to `slot`.
pub open spec fn moved_to(st: Option<InventoryStack>, slot: u8) -> Option<InventoryStack> {
    match st {
        Some(s) => Some(InventoryStack { slot, ..s }),
        None => None,
    }
}

/// What the player's direct inventory holds at `slot` once the contents of
/// `src` and `dst` were swapped.
pub open spec fn swap_result(before: DirectInventory, src: u8, dst: u8, slot: u8) -> Option<
    InventoryStack,
> {
    if slot == dst {
        moved_to(before.at(src), dst)
    } else if slot == src {
        moved_to(before.at(dst), src)
    } else {
        before.at(slot)
    }
}

/// The player's direct inventory: one stack per occupied slot.
pub struct DirectInventory {
    pub stacks: Vec<InventoryStack>,
}

/// The slot that comes at position `rank` of the scan order: the pack and bag
/// slots (19 and up) first, then the equipment slots, each in ascending order.
pub open spec fn slot_of_rank(rank: int) -> u8 {
    if rank < 256 - 19 {
        (rank + 19) as u8
    } else {
        (rank - (256 - 19)) as u8
    }
}

/// The count that the stack at `slot` can pay towards an item cost of `entry`.
pub open spec fn payable_count(st: Option<InventoryStack>, entry: u32) -> Option<u32> {
    match st {
        Some(s) => if s.entry_id == entry && s.runtime is Some && !s.runtime->0.in_trade {
            Some(s.runtime->0.count)
        } else {
            None
        },
        None => None,
    }
}

impl DirectInventory {
    pub open spec fn at(&self, slot: u8) -> Option<InventoryStack> {
        stack_at(self.stacks@, slot)
    }

    /// How many items of `entry` the stacks from scan position `rank` on hold,
    /// counting only stacks with a loaded item that is not being traded.
    pub open spec fn payable_from(&self, entry: u32, rank: int) -> nat
        decreases 256 - rank,
    {
        if rank >= 256 || rank < 0 {
            0
        } else {
            let here: nat = match payable_count(self.at(slot_of_rank(rank)), entry) {
                Some(c) => c as nat,
                None => 0,
            };
            here + self.payable_from(entry, rank + 1)
        }
    }

    /// Whether the inventory holds `count` payable items of `entry`.
    pub open spec fn holds(&self, entry: u32, count: u32) -> bool {
        count == 0 || self.payable_from(entry, 0) >= count
    }

    /// The stack changes that take `remaining` items of `entry`, scanning from
    /// position `rank`: whole stacks are deleted in scan order until the last
    /// one needed, which keeps what is left over.
    pub open spec fn plan_from(&self, entry: u32, rank: int, remaining: nat) -> Option<
        Seq<ExtendedCostItemTurninChange>,
    >
        decreases 256 - rank,
    {
        if remaining == 0 {
            Some(Seq::empty())
        } else if rank >= 256 || rank < 0 {
            None
        } else {
            let slot = slot_of_rank(rank);
            match payable_count(self.at(slot), entry) {
                None => self.plan_from(entry, rank + 1, remaining),
                Some(c) => {
                    let st = self.at(slot)->0;
                    if c <= remaining {
                        match self.plan_from(entry, rank + 1, (remaining - c) as nat) {
                            Some(rest) => Some(
                                seq![
                                    ExtendedCostItemTurninChange::Delete {
                                        slot,
                                        item_guid: st.guid,
                                        db_guid: st.db_guid,
                                    },
                                ] + rest,
                            ),
                            None => None,
                        }
                    } else {
                        Some(
                            seq![
                                ExtendedCostItemTurninChange::Update {
                                    slot,
                                    item_guid: st.guid,
                                    db_guid: st.db_guid,
                                    new_count: (c - remaining) as u32,
                                },
                            ],
                        )
                    }
                },
            }
        }
    }

    pub fn new() -> (inv: DirectInventory)
        ensures
            inv.stacks@ == Seq::<InventoryStack>::empty(),
    {
        DirectInventory { stacks: Vec::new() }
    }

    /// Puts `stack` into its slot, replacing what was there.
    pub fn set_stack(&mut self, stack: InventoryStack)
        ensures
            final(self).at(stack.slot) == Some(stack),
            forall|s: u8| s != stack.slot ==> #[trigger] final(self).at(s) == old(self).at(s),
    {
        self.stacks.push(stack);
        proof {
            assert(self.stacks@.drop_last() =~= old(self).stacks@);
        }
    }

    /// Empties `slot`.
    pub fn clear_slot(&mut self, slot: u8)
        ensures
            final(self).at(slot) is None,
            forall|s: u8| s != slot ==> #[trigger] final(self).at(s) == old(self).at(s),
    {
        let mut kept: Vec<InventoryStack> = Vec::new();
        let mut i: usize = 0;
        while i < self.stacks.len()
            invariant
                i <= self.stacks.len(),
                kept@ == without_slot(self.stacks@.take(i as int), slot),
            decreases self.stacks.len() - i,
        {
            proof {
                assert(self.stacks@.take(i + 1).drop_last() =~= self.stacks@.take(i as int));
            }
            if self.stacks[i].slot != slot {
                kept.push(self.stacks[i]);
            }
            i = i + 1;
        }
        proof {
            assert(self.stacks@.take(i as int) =~= self.stacks@);
            assert forall|s: u8| #[trigger] stack_at(kept@, s) == (if s == slot {
                None::<InventoryStack>
            } else {
                stack_at(self.stacks@, s)
            }) by {
                lemma_stack_at_without(self.stacks@, slot, s);
            }
        }
        self.stacks = kept;
    }

    /// Swaps the contents of two different slots; either may be empty.
    pub fn swap_slots(&mut self, src: u8, dst: u8)
        requires
            src != dst,
        ensures
            forall|s: u8| #[trigger] final(self).at(s) == swap_result(*old(self), src, dst, s),
    {
        let a = self.stack_at_slot(src);
        let b = self.stack_at_slot(dst);
        match a {
            Some(st) => self.set_stack(InventoryStack { slot: dst, ..st }),
            None => self.clear_slot(dst),
        }
        match b {
            Some(st) => self.set_stack(InventoryStack { slot: src, ..st }),
            None => self.clear_slot(src),
        }
    }

    /// Applies one stack change of an item cost payment.
    pub fn apply_turnin_change(&mut self, c: ExtendedCostItemTurninChange)
        ensures
            forall|s: u8| #[trigger] final(self).at(s) == after_change(old(self).at(s), s, c),
    {
        match c {
            ExtendedCostItemTurninChange::Delete { slot, .. } => {
                self.clear_slot(slot);
            },
            ExtendedCostItemTurninChange::Update { slot, item_guid, new_count, .. } => {
                proof {
                    lemma_stack_at_slot(self.stacks@, slot);
                }
                match self.stack_at_slot(slot) {
                    Some(st) => {
                        if st.guid.high == item_guid.high && st.guid.low == item_guid.low {
                            match st.runtime {
                                Some(rt) => {
                                    self.set_stack(
                                        InventoryStack {
                                            runtime: Some(RuntimeItemState { count: new_count, ..rt }),
                                            ..st
                                        },
                                    );
                                },
                                None => {},
                            }
                        }
                    },
                    None => {},
                }
            },
        }
    }

    /// Applies the stack changes of an item cost payment, in order.
    pub fn apply_item_turnin_changes(&mut self, changes: &Vec<ExtendedCostItemTurninChange>)
        ensures
            forall|s: u8| #[trigger] final(self).at(s) == after_changes(old(self).at(s), s, changes@),
    {
        let ghost start = *self;
        let mut i: usize = 0;
        while i < changes.len()
            invariant
                i <= changes.len(),
                forall|s: u8| #[trigger]
                    self.at(s) == after_changes(start.at(s), s, changes@.take(i as int)),
            decreases changes.len() - i,
        {
            proof {
                assert(changes@.take(i + 1).drop_last() =~= changes@.take(i as int));
            }
            self.apply_turnin_change(changes[i]);
            i = i + 1;
        }
        proof {
            assert(changes@.take(i as int) =~= changes@);
        }
    }

    /// The stack at `slot`, if the slot is occupied.
    pub fn stack_at_slot(&self, slot: u8) -> (r: Option<InventoryStack>)
        ensures
            r == self.at(slot),
    {
        let mut found: Option<InventoryStack> = None;
        let mut i: usize = 0;
        while i < self.stacks.len()
            invariant
                i <= self.stacks.len(),
                found == stack_at(self.stacks@.take(i as int), slot),
            decreases self.stacks.len() - i,
        {
            proof {
                assert(self.stacks@.take(i + 1).drop_last() =~= self.stacks@.take(i as int));
            }
            if self.stacks[i].slot == slot {
                found = Some(self.stacks[i]);
            }
            i = i + 1;
        }
        proof {
            assert(self.stacks@.take(i as int) =~= self.stacks@);
        }
        found
    }

    fn payable_at(&self, slot: u8, entry: u32) -> (r: Option<u32>)
        ensures
            r == payable_count(self.at(slot), entry),
    {
        match self.stack_at_slot(slot) {
            Some(s) => {
                if s.entry_id == entry {
                    match s.runtime {
                        Some(rt) => if !rt.in_trade {
                            Some(rt.count)
                        } else {
                            None
                        },
                        None => None,
                    }
                } else {
                    None
                }
            },
            None => None,
        }
    }

    proof fn lemma_payable_split(&self, entry: u32, rank: int)
        requires
            0 <= rank <= 256,
        ensures
            self.payable_from(entry, 0) >= self.payable_from(entry, rank),
        decreases rank,
    {
        if rank > 0 {
            self.lemma_payable_split(entry, rank - 1);
        }
    }

    /// Whether the player holds `count` items of `item_entry` that can pay an item cost.
    pub fn has_item_count_direct_inventory(&self, item_entry: u32, count: u32) -> (b: bool)
        ensures
            b == self.holds(item_entry, count),
    {
        if count == 0 {
            return true;
        }
        let mut current_count: u32 = 0;
        let mut rank: u32 = 0;
        while rank < 256
            invariant
                rank <= 256,
                count > 0,
                current_count < count,
                current_count + self.payable_from(item_entry, rank as int) == self.payable_from(
                    item_entry,
                    0,
                ),
            decreases 256 - rank,
        {
            let slot: u8 = if rank < 237 {
                (rank + 19) as u8
            } else {
                (rank - 237) as u8
            };
            if let Some(c) = self.payable_at(slot, item_entry) {
                current_count = current_count.saturating_add(c);
                if current_count >= count {
                    proof {
                        self.lemma_payable_split(item_entry, rank as int + 1);
                    }
                    return true;
                }
            }
            rank = rank + 1;
        }
        false
    }

    /// The stack changes that pay `count` items of `item_entry`, or `None`
    /// when the inventory does not hold that many.
    pub fn plan_destroy_item_count_direct_inventory(&self, item_entry: u32, count: u32) -> (r:
        Option<Vec<ExtendedCostItemTurninChange>>)
        ensures
            match r {
                Some(v) => self.plan_from(item_entry, 0, count as nat) == Some(v@),
                None => self.plan_from(item_entry, 0, count as nat) is None,
            },
    {
        if count == 0 {
            return Some(Vec::new());
        }
        let mut remaining: u32 = count;
        let mut changes: Vec<ExtendedCostItemTurninChange> = Vec::new();
        let mut rank: u32 = 0;
        while rank < 256
            invariant
                rank <= 256,
                remaining > 0,
                remaining <= count,
                self.plan_from(item_entry, 0, count as nat) == match self.plan_from(
                    item_entry,
                    rank as int,
                    remaining as nat,
                ) {
                    Some(rest) => Some(changes@ + rest),
                    None => None::<Seq<ExtendedCostItemTurninChange>>,
                },
            decreases 256 - rank,
        {
            let slot: u8 = if rank < 237 {
                (rank + 19) as u8
            } else {
                (rank - 237) as u8
            };
            if let Some(c) = self.payable_at(slot, item_entry) {
                let st = self.stack_at_slot(slot).unwrap();
                let ghost old_changes = changes@;
                let ghost old_remaining = remaining;
                if c <= remaining {
                    remaining = remaining - c;
                    changes.push(
                        ExtendedCostItemTurninChange::Delete {
                            slot,
                            item_guid: st.guid,
                            db_guid: st.db_guid,
                        },
                    );
                    proof {
                        let d = ExtendedCostItemTurninChange::Delete {
                            slot,
                            item_guid: st.guid,
                            db_guid: st.db_guid,
                        };
                        match self.plan_from(item_entry, rank as int + 1, remaining as nat) {
                            Some(rest) => {
                                assert(old_changes + (seq![d] + rest) =~= changes@ + rest);
                            },
                            None => {},
                        }
                    }
                    if remaining == 0 {
                        proof {
                            assert(changes@ + Seq::<ExtendedCostItemTurninChange>::empty()
                                =~= changes@);
                        }
                        return Some(changes);
                    }
                } else {
                    changes.push(
                        ExtendedCostItemTurninChange::Update {
                            slot,
                            item_guid: st.guid,
                            db_guid: st.db_guid,
                            new_count: c - remaining,
                        },
                    );
                    return Some(changes);
                }
            }
            rank = rank + 1;
        }
        None
    }

    /// The first free slot of the backpack (slots 35 to 58), if there is one.
    pub fn find_free_backpack_slot(&self) -> (r: Option<u8>)
        ensures
            match r {
                Some(s) => 35 <= s < 59 && self.at(s) is None && forall|t: u8|
                    35 <= t < s ==> #[trigger] self.at(t) is Some,
                None => forall|t: u8| 35 <= t < 59 ==> #[trigger] self.at(t) is Some,
            },
    {
        let mut slot: u8 = 35;
        while slot < 59
            invariant
                35 <= slot <= 59,
                forall|t: u8| 35 <= t < slot ==> #[trigger] self.at(t) is Some,
            decreases 59 - slot,
        {
            if self.stack_at_slot(slot).is_none() {
                return Some(slot);
            }
            slot = slot + 1;
        }
        None
    }
}

/// What one stack change leaves at `slot`, where `st` was: a deletion empties
/// its slot, an update sets the count of the loaded item it names.
pub open spec fn after_change(st: Option<InventoryStack>, slot: u8, c: ExtendedCostItemTurninChange) -> Option<
    InventoryStack,
> {
    match c {
        ExtendedCostItemTurninChange::Delete { slot: d, .. } => if d == slot {
            None
        } else {
            st
        },
        ExtendedCostItemTurninChange::Update { slot: u, item_guid, new_count, .. } => {
            match st {
                Some(s) => if u == slot && s.guid == item_guid && s.runtime is Some {
                    Some(
                        InventoryStack {
                            runtime: Some(RuntimeItemState { count: new_count, ..s.runtime->0 }),
                            ..s
                        },
                    )
                } else {
                    st
                },
                None => None,
            }
        },
    }
}

/// What a list of stack changes, applied in order, leaves at `slot`.
pub open spec fn after_changes(st: Option<InventoryStack>, slot: u8, cs: Seq<ExtendedCostItemTurninChange>) -> Option<
    InventoryStack,
>
    decreases cs.len(),
{
    if cs.len() == 0 {
        st
    } else {
        after_change(after_changes(st, slot, cs.drop_last()), slot, cs.last())
    }
}

/// Swapping the same two slots twice gives back the inventory one started with.
pub proof fn lemma_swap_twice_restores(
    inv: DirectInventory,
    mid: DirectInventory,
    end: DirectInventory,
    src: u8,
    dst: u8,
)
    requires
        src != dst,
        forall|s: u8| #[trigger] mid.at(s) == swap_result(inv, src, dst, s),
        forall|s: u8| #[trigger] end.at(s) == swap_result(mid, src, dst, s),
    ensures
        forall|s: u8| #[trigger] end.at(s) == inv.at(s),
{
    assert forall|s: u8| #[trigger] end.at(s) == inv.at(s) by {
        lemma_stack_at_slot(inv.stacks@, s);
        assert(mid.at(src) == swap_result(inv, src, dst, src));
        assert(mid.at(dst) == swap_result(inv, src, dst, dst));
        if s == src {
            lemma_stack_at_slot(inv.stacks@, src);
        } else if s == dst {
            lemma_stack_at_slot(inv.stacks@, dst);
        }
    }
}

/// How many items a list of stack changes takes away, given the stacks' counts.
pub open spec fn removed_count(inv: &DirectInventory, changes: Seq<ExtendedCostItemTurninChange>) -> int
    decreases changes.len(),
{
    if changes.len() == 0 {
        0
    } else {
        let here = match changes[0] {
            ExtendedCostItemTurninChange::Delete { slot, .. } => match inv.at(slot) {
                Some(s) => match s.runtime {
                    Some(rt) => rt.count as int,
                    None => 0,
                },
                None => 0,
            },
            ExtendedCostItemTurninChange::Update { slot, new_count, .. } => match inv.at(slot) {
                Some(s) => match s.runtime {
                    Some(rt) => rt.count - new_count,
                    None => 0,
                },
                None => 0,
            },
        };
        here + removed_count(inv, changes.drop_first())
    }
}

/// An item cost can be paid from the inventory exactly when the inventory holds
/// that many payable items.
pub proof fn lemma_plan_exists_iff_holds(inv: &DirectInventory, entry: u32, count: u32)
    ensures
        inv.plan_from(entry, 0, count as nat) is Some <==> inv.holds(entry, count),
{
    lemma_plan_from_some(inv, entry, 0, count as nat);
}

/// Paying an item cost takes exactly the requested number of items.
pub proof fn lemma_plan_takes_requested_count(inv: &DirectInventory, entry: u32, count: u32)
    ensures
        inv.plan_from(entry, 0, count as nat) matches Some(cs) ==> removed_count(inv, cs)
            == count,
{
    lemma_plan_from_removes(inv, entry, 0, count as nat);
}

proof fn lemma_plan_from_removes(inv: &DirectInventory, entry: u32, rank: int, remaining: nat)
    requires
        0 <= rank <= 256,
    ensures
        inv.plan_from(entry, rank, remaining) matches Some(cs) ==> removed_count(inv, cs)
            == remaining,
    decreases 256 - rank,
{
    if remaining > 0 && rank < 256 {
        let slot = slot_of_rank(rank);
        match payable_count(inv.at(slot), entry) {
            None => lemma_plan_from_removes(inv, entry, rank + 1, remaining),
            Some(c) => {
                let st = inv.at(slot)->0;
                if c <= remaining {
                    lemma_plan_from_removes(inv, entry, rank + 1, (remaining - c) as nat);
                    match inv.plan_from(entry, rank + 1, (remaining - c) as nat) {
                        Some(rest) => {
                            let d = ExtendedCostItemTurninChange::Delete {
                                slot,
                                item_guid: st.guid,
                                db_guid: st.db_guid,
                            };
                            assert((seq![d] + rest).drop_first() =~= rest);
                            assert((seq![d] + rest)[0] == d);
                            assert(removed_count(inv, seq![d] + rest) == c + removed_count(inv, rest));
                        },
                        None => {},
                    }
                } else {
                    let u = ExtendedCostItemTurninChange::Update {
                        slot,
                        item_guid: st.guid,
                        db_guid: st.db_guid,
                        new_count: (c - remaining) as u32,
                    };
                    assert(seq![u].drop_first() =~= Seq::<ExtendedCostItemTurninChange>::empty());
                    assert(removed_count(inv, Seq::<ExtendedCostItemTurninChange>::empty()) == 0);
                    assert(removed_count(inv, seq![u]) == c - (c - remaining));
                }
            },
        }
    } else if remaining == 0 {
        assert(removed_count(inv, Seq::<ExtendedCostItemTurninChange>::empty()) == 0);
    }
}

/// The scan position of a slot (the inverse of `slot_of_rank`).
pub open spec fn rank_of(slot: u8) -> int {
    if slot >= 19 {
        slot - 19
    } else {
        slot + 237
    }
}

/// The slot a stack change is about.
pub open spec fn change_slot(c: ExtendedCostItemTurninChange) -> u8 {
    match c {
        ExtendedCostItemTurninChange::Delete { slot, .. } => slot,
        ExtendedCostItemTurninChange::Update { slot, .. } => slot,
    }
}

/// `payable_from` over any assignment of stacks to slots.
pub open spec fn payable_view(v: spec_fn(u8) -> Option<InventoryStack>, entry: u32, rank: int) -> nat
    decreases 256 - rank,
{
    if rank >= 256 || rank < 0 {
        0
    } else {
        let here: nat = match payable_count(v(slot_of_rank(rank)), entry) {
            Some(c) => c as nat,
            None => 0,
        };
        here + payable_view(v, entry, rank + 1)
    }
}

proof fn lemma_payable_view_agree(
    v1: spec_fn(u8) -> Option<InventoryStack>,
    v2: spec_fn(u8) -> Option<InventoryStack>,
    entry: u32,
    rank: int,
)
    requires
        0 <= rank <= 256,
        forall|k: int| rank <= k < 256 ==> #[trigger] v1(slot_of_rank(k)) == v2(slot_of_rank(k)),
    ensures
        payable_view(v1, entry, rank) == payable_view(v2, entry, rank),
    decreases 256 - rank,
{
    if rank < 256 {
        assert(v1(slot_of_rank(rank)) == v2(slot_of_rank(rank)));
        lemma_payable_view_agree(v1, v2, entry, rank + 1);
    }
}

proof fn lemma_payable_view_of(inv: &DirectInventory, entry: u32, rank: int)
    requires
        0 <= rank <= 256,
    ensures
        inv.payable_from(entry, rank) == payable_view(|s: u8| inv.at(s), entry, rank),
    decreases 256 - rank,
{
    if rank < 256 {
        lemma_payable_view_of(inv, entry, rank + 1);
    }
}

proof fn lemma_after_changes_none(s: u8, cs: Seq<ExtendedCostItemTurninChange>)
    ensures
        after_changes(None, s, cs) == None::<InventoryStack>,
    decreases cs.len(),
{
    if cs.len() > 0 {
        lemma_after_changes_none(s, cs.drop_last());
    }
}

proof fn lemma_after_changes_untouched(
    st: Option<InventoryStack>,
    s: u8,
    cs: Seq<ExtendedCostItemTurninChange>,
)
    requires
        forall|i: int| 0 <= i < cs.len() ==> change_slot(#[trigger] cs[i]) != s,
    ensures
        after_changes(st, s, cs) == st,
    decreases cs.len(),
{
    if cs.len() > 0 {
        assert forall|i: int| 0 <= i < cs.drop_last().len() implies change_slot(
            #[trigger] cs.drop_last()[i],
        ) != s by {
            assert(cs.drop_last()[i] == cs[i]);
        }
        lemma_after_changes_untouched(st, s, cs.drop_last());
        assert(change_slot(cs[cs.len() - 1]) != s);
    }
}

proof fn lemma_after_changes_concat(
    st: Option<InventoryStack>,
    s: u8,
    a: Seq<ExtendedCostItemTurninChange>,
    b: Seq<ExtendedCostItemTurninChange>,
)
    ensures
        after_changes(st, s, a + b) == after_changes(after_changes(st, s, a), s, b),
    decreases b.len(),
{
    if b.len() == 0 {
        assert(a + b =~= a);
    } else {
        assert((a + b).drop_last() =~= a + b.drop_last());
        assert((a + b).last() == b.last());
        lemma_after_changes_concat(st, s, a, b.drop_last());
    }
}

proof fn lemma_plan_slots(inv: &DirectInventory, entry: u32, rank: int, remaining: nat)
    requires
        0 <= rank <= 256,
    ensures
        inv.plan_from(entry, rank, remaining) matches Some(cs) ==> forall|i: int|
            0 <= i < cs.len() ==> rank <= #[trigger] rank_of(change_slot(cs[i])) < 256,
    decreases 256 - rank,
{
    if remaining > 0 && rank < 256 {
        let slot = slot_of_rank(rank);
        assert(rank_of(slot) == rank);
        match payable_count(inv.at(slot), entry) {
            None => lemma_plan_slots(inv, entry, rank + 1, remaining),
            Some(c) => {
                let st = inv.at(slot)->0;
                if c <= remaining {
                    lemma_plan_slots(inv, entry, rank + 1, (remaining - c) as nat);
                    match inv.plan_from(entry, rank + 1, (remaining - c) as nat) {
                        Some(rest) => {
                            let d = ExtendedCostItemTurninChange::Delete {
                                slot,
                                item_guid: st.guid,
                                db_guid: st.db_guid,
                            };
                            let cs = seq![d] + rest;
                            assert forall|i: int| 0 <= i < cs.len() implies rank <= #[trigger] rank_of(
                                change_slot(cs[i]),
                            ) < 256 by {
                                if i > 0 {
                                    assert(cs[i] == rest[i - 1]);
                                }
                            }
                        },
                        None => {},
                    }
                }
            },
        }
    }
}

proof fn lemma_plan_pays(inv: &DirectInventory, entry: u32, rank: int, remaining: nat)
    requires
        0 <= rank <= 256,
        inv.plan_from(entry, rank, remaining) is Some,
    ensures
        payable_view(
            |s: u8| after_changes(inv.at(s), s, inv.plan_from(entry, rank, remaining)->0),
            entry,
            rank,
        ) + remaining == inv.payable_from(entry, rank),
    decreases 256 - rank,
{
    let cs = inv.plan_from(entry, rank, remaining)->0;
    let v = |s: u8| after_changes(inv.at(s), s, cs);
    if remaining == 0 {
        assert(cs =~= Seq::<ExtendedCostItemTurninChange>::empty());
        lemma_payable_view_of(inv, entry, rank);
        lemma_payable_view_agree(v, |s: u8| inv.at(s), entry, rank);
    } else {
        let slot = slot_of_rank(rank);
        assert(rank_of(slot) == rank);
        lemma_stack_at_slot(inv.stacks@, slot);
        match payable_count(inv.at(slot), entry) {
            None => {
                lemma_plan_pays(inv, entry, rank + 1, remaining);
                lemma_plan_slots(inv, entry, rank + 1, remaining);
                assert(forall|i: int| 0 <= i < cs.len() ==> change_slot(#[trigger] cs[i]) != slot) by {
                    assert forall|i: int| 0 <= i < cs.len() implies change_slot(#[trigger] cs[i]) != slot by {
                        assert(rank + 1 <= rank_of(change_slot(cs[i])));
                    }
                }
                lemma_after_changes_untouched(inv.at(slot), slot, cs);
            },
            Some(c) => {
                let st = inv.at(slot)->0;
                if c <= remaining {
                    let rest = inv.plan_from(entry, rank + 1, (remaining - c) as nat)->0;
                    let d = ExtendedCostItemTurninChange::Delete {
                        slot,
                        item_guid: st.guid,
                        db_guid: st.db_guid,
                    };
                    assert(cs == seq![d] + rest);
                    lemma_plan_pays(inv, entry, rank + 1, (remaining - c) as nat);
                    lemma_plan_slots(inv, entry, rank + 1, (remaining - c) as nat);
                    let vr = |s: u8| after_changes(inv.at(s), s, rest);
                    assert forall|k: int| rank + 1 <= k < 256 implies #[trigger] v(slot_of_rank(k))
                        == vr(slot_of_rank(k)) by {
                        let t = slot_of_rank(k);
                        assert(rank_of(t) == k);
                        assert(t != slot);
                        lemma_after_changes_concat(inv.at(t), t, seq![d], rest);
                        assert(seq![d].drop_last() =~= Seq::<ExtendedCostItemTurninChange>::empty());
                        assert(seq![d].last() == d);
                        assert(after_changes(inv.at(t), t, seq![d].drop_last()) == inv.at(t));
                        assert(after_changes(inv.at(t), t, seq![d]) == inv.at(t));
                        assert(v(t) == after_changes(inv.at(t), t, seq![d] + rest));
                    }
                    lemma_payable_view_agree(v, vr, entry, rank + 1);
                    lemma_after_changes_concat(inv.at(slot), slot, seq![d], rest);
                    assert(seq![d].drop_last() =~= Seq::<ExtendedCostItemTurninChange>::empty());
                    lemma_after_changes_none(slot, rest);
                    assert(v(slot) == None::<InventoryStack>);
                } else {
                    let u = ExtendedCostItemTurninChange::Update {
                        slot,
                        item_guid: st.guid,
                        db_guid: st.db_guid,
                        new_count: (c - remaining) as u32,
                    };
                    assert(cs == seq![u]);
                    assert(seq![u].drop_last() =~= Seq::<ExtendedCostItemTurninChange>::empty());
                    assert forall|k: int| rank + 1 <= k < 256 implies #[trigger] v(slot_of_rank(k))
                        == inv.at(slot_of_rank(k)) by {
                        let t = slot_of_rank(k);
                        assert(rank_of(t) == k);
                        assert(t != slot);
                        assert(seq![u].last() == u);
                        assert(after_changes(inv.at(t), t, seq![u].drop_last()) == inv.at(t));
                        assert(after_changes(inv.at(t), t, seq![u]) == inv.at(t));
                    }
                    lemma_payable_view_agree(v, |s: u8| inv.at(s), entry, rank + 1);
                    lemma_payable_view_of(inv, entry, rank + 1);
                    assert(after_changes(inv.at(slot), slot, seq![u].drop_last()) == inv.at(slot));
                    assert(seq![u].last() == u);
                    let paid = InventoryStack {
                        runtime: Some(
                            RuntimeItemState { count: (c - remaining) as u32, ..st.runtime->0 },
                        ),
                        ..st
                    };
                    assert(after_change(inv.at(slot), slot, u) == Some(paid));
                    assert(v(slot) == Some(paid));
                    assert(payable_count(v(slot), entry) == Some((c - remaining) as u32));
                }
            },
        }
    }
}

/// Paying an item cost from the inventory leaves exactly that many fewer
/// payable items of the entry: the inventory after the payment's stack changes
/// holds the count it held before, less the cost.
pub proof fn lemma_payment_takes_cost_from_inventory(
    inv: &DirectInventory,
    after: &DirectInventory,
    entry: u32,
    count: u32,
)
    requires
        inv.plan_from(entry, 0, count as nat) is Some,
        forall|s: u8| #[trigger]
            after.at(s) == after_changes(inv.at(s), s, inv.plan_from(entry, 0, count as nat)->0),
    ensures
        after.payable_from(entry, 0) + count == inv.payable_from(entry, 0),
{
    let cs = inv.plan_from(entry, 0, count as nat)->0;
    lemma_plan_pays(inv, entry, 0, count as nat);
    lemma_payable_view_of(after, entry, 0);
    lemma_payable_view_agree(
        |s: u8| after.at(s),
        |s: u8| after_changes(inv.at(s), s, cs),
        entry,
        0,
    );
}

proof fn lemma_plan_shape_from(inv: &DirectInventory, entry: u32, rank: int, remaining: nat)
    requires
        0 <= rank <= 256,
    ensures
        inv.plan_from(entry, rank, remaining) matches Some(cs) ==> {
            &&& forall|i: int| 0 <= i < cs.len() - 1 ==> #[trigger] cs[i] is Delete
            &&& forall|i: int, j: int|
                0 <= i < j < cs.len() ==> #[trigger] rank_of(change_slot(cs[i])) < #[trigger] rank_of(
                    change_slot(cs[j]),
                )
        },
    decreases 256 - rank,
{
    if remaining > 0 && rank < 256 {
        let slot = slot_of_rank(rank);
        assert(rank_of(slot) == rank);
        match payable_count(inv.at(slot), entry) {
            None => lemma_plan_shape_from(inv, entry, rank + 1, remaining),
            Some(c) => {
                let st = inv.at(slot)->0;
                if c <= remaining {
                    lemma_plan_shape_from(inv, entry, rank + 1, (remaining - c) as nat);
                    lemma_plan_slots(inv, entry, rank + 1, (remaining - c) as nat);
                    match inv.plan_from(entry, rank + 1, (remaining - c) as nat) {
                        Some(rest) => {
                            let d = ExtendedCostItemTurninChange::Delete {
                                slot,
                                item_guid: st.guid,
                                db_guid: st.db_guid,
                            };
                            let cs = seq![d] + rest;
                            assert forall|i: int| 0 <= i < cs.len() - 1 implies #[trigger] cs[i] is Delete by {
                                if i > 0 {
                                    assert(cs[i] == rest[i - 1]);
                                }
                            }
                            assert forall|i: int, j: int|
                                0 <= i < j < cs.len() implies #[trigger] rank_of(change_slot(cs[i]))
                                < #[trigger] rank_of(change_slot(cs[j])) by {
                                assert(cs[j] == rest[j - 1]);
                                assert(rank + 1 <= rank_of(change_slot(rest[j - 1])));
                                if i > 0 {
                                    assert(cs[i] == rest[i - 1]);
                                }
                            }
                        },
                        None => {},
                    }
                }
            },
        }
    }
}

/// Paying an item cost removes whole stacks, each in scan order (pack and bag
/// slots before equipment slots, each ascending), and only the last stack
/// used may keep some items.
pub proof fn lemma_plan_shape(inv: &DirectInventory, entry: u32, count: u32)
    ensures
        inv.plan_from(entry, 0, count as nat) matches Some(cs) ==> {
            &&& forall|i: int| 0 <= i < cs.len() - 1 ==> #[trigger] cs[i] is Delete
            &&& forall|i: int, j: int|
                0 <= i < j < cs.len() ==> #[trigger] rank_of(change_slot(cs[i])) < #[trigger] rank_of(
                    change_slot(cs[j]),
                )
        },
{
    lemma_plan_shape_from(inv, entry, 0, count as nat);
}

proof fn lemma_plan_from_some(inv: &DirectInventory, entry: u32, rank: int, remaining: nat)
    requires
        0 <= rank <= 256,
    ensures
        inv.plan_from(entry, rank, remaining) is Some <==> (remaining == 0 || inv.payable_from(
            entry,
            rank,
        ) >= remaining),
    decreases 256 - rank,
{
    if remaining > 0 && rank < 256 {
        let slot = slot_of_rank(rank);
        match payable_count(inv.at(slot), entry) {
            None => lemma_plan_from_some(inv, entry, rank + 1, remaining),
            Some(c) => {
                if c <= remaining {
                    lemma_plan_from_some(inv, entry, rank + 1, (remaining - c) as nat);
                }
            },
        }
    }
}

} // verus!
