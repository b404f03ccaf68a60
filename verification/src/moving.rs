use vstd::prelude::*;
use crate::codes::InventoryResult;
use crate::guid::ObjectGuid;
use crate::inventory::{DirectInventory, ExtendedCostItemTurninChange, swap_result};
use crate::slots::{EQUIPMENT_SLOT_END, INVENTORY_SLOT_BAG_0, equipment_pos, is_equipment_pos};

verus! {

/// One past the last slot a direct-inventory swap may name.
pub const SWAP_INV_SLOT_LIMIT: u8 = 141;
/// The first weapon slot; weapon slots 15 to 17 are the virtual item slots 0 to 2.
pub const VIRTUAL_ITEM_SLOT_START: u8 = 15;
/// One past the last weapon slot.
pub const VIRTUAL_ITEM_SLOT_END: u8 = 18;

/// What a request to move items comes to.
#[derive(Clone, Copy, Debug, PartialEq, Eq, Structural)]
pub enum MoveOutcome {
    /// The contents of the two slots were swapped.
    Swapped { src: u8, dst: u8 },
    /// Nothing happens and nothing is answered.
    Ignored,
    /// Nothing happens and the client is told why.
    Refused(InventoryResult),
}

/// What a direct-inventory swap of `src` and `dst` comes to: slots past the
/// inventory are an internal bag error, a slot swapped with itself is ignored,
/// and two empty slots cannot be swapped.
pub open spec fn swap_inv_item_outcome(inv: DirectInventory, src: u8, dst: u8) -> MoveOutcome {
    if src >= SWAP_INV_SLOT_LIMIT || dst >= SWAP_INV_SLOT_LIMIT {
        MoveOutcome::Refused(InventoryResult::InternalBagError)
    } else if src == dst {
        MoveOutcome::Ignored
    } else if inv.at(src) is None && inv.at(dst) is None {
        MoveOutcome::Refused(InventoryResult::SlotEmpty)
    } else {
        MoveOutcome::Swapped { src, dst }
    }
}

/// Swaps two slots of the player's direct inventory when the request allows it.
pub fn swap_inv_item(inv: &mut DirectInventory, src: u8, dst: u8) -> (r: MoveOutcome)
    ensures
        r == swap_inv_item_outcome(*old(inv), src, dst),
        r is Swapped ==> forall|s: u8| #[trigger] final(inv).at(s) == swap_result(*old(inv), src, dst, s),
        !(r is Swapped) ==> forall|s: u8| #[trigger] final(inv).at(s) == old(inv).at(s),
{
    if src >= SWAP_INV_SLOT_LIMIT || dst >= SWAP_INV_SLOT_LIMIT {
        return MoveOutcome::Refused(InventoryResult::InternalBagError);
    }
    if src == dst {
        return MoveOutcome::Ignored;
    }
    if inv.stack_at_slot(src).is_none() && inv.stack_at_slot(dst).is_none() {
        return MoveOutcome::Refused(InventoryResult::SlotEmpty);
    }
    inv.swap_slots(src, dst);
    MoveOutcome::Swapped { src, dst }
}

/// A container-aware swap: only the player's own slots (container 255) are
/// handled, and the swap is then a direct-inventory swap.
pub fn swap_item(
    inv: &mut DirectInventory,
    container_a: u8,
    slot_a: u8,
    container_b: u8,
    slot_b: u8,
) -> (r: MoveOutcome)
    ensures
        container_a != INVENTORY_SLOT_BAG_0 || container_b != INVENTORY_SLOT_BAG_0 ==> r
            == MoveOutcome::Refused(InventoryResult::InternalBagError) && forall|s: u8| #[trigger]
            final(inv).at(s) == old(inv).at(s),
        container_a == INVENTORY_SLOT_BAG_0 && container_b == INVENTORY_SLOT_BAG_0 ==> r
            == swap_inv_item_outcome(*old(inv), slot_a, slot_b),
        r is Swapped ==> forall|s: u8| #[trigger]
            final(inv).at(s) == swap_result(*old(inv), slot_a, slot_b, s),
        !(r is Swapped) ==> forall|s: u8| #[trigger] final(inv).at(s) == old(inv).at(s),
{
    if container_a != INVENTORY_SLOT_BAG_0 || container_b != INVENTORY_SLOT_BAG_0 {
        return MoveOutcome::Refused(InventoryResult::InternalBagError);
    }
    swap_inv_item(inv, slot_a, slot_b)
}

/// The first free backpack slot of `inv`, as `find_free_backpack_slot` finds it.
pub open spec fn first_free_backpack(inv: DirectInventory, r: Option<u8>) -> bool {
    match r {
        Some(s) => 35 <= s < 59 && inv.at(s) is None && forall|t: u8|
            35 <= t < s ==> #[trigger] inv.at(t) is Some,
        None => forall|t: u8| 35 <= t < 59 ==> #[trigger] inv.at(t) is Some,
    }
}

/// Where storing the item at `src_slot` of container `container` into the
/// backpack moves it: only the player's own slots are handled, the slot must
/// hold an item, and the first free backpack slot is taken.
pub fn auto_store_bag_item_destination(inv: &DirectInventory, container: u8, src_slot: u8) -> (r:
    Result<u8, InventoryResult>)
    ensures
        container != INVENTORY_SLOT_BAG_0 ==> r == Err::<u8, InventoryResult>(
            InventoryResult::InternalBagError,
        ),
        container == INVENTORY_SLOT_BAG_0 && inv.at(src_slot) is None ==> r == Err::<
            u8,
            InventoryResult,
        >(InventoryResult::SlotEmpty),
        container == INVENTORY_SLOT_BAG_0 && inv.at(src_slot) is Some ==> match r {
            Ok(s) => first_free_backpack(*inv, Some(s)),
            Err(e) => e == InventoryResult::InvFull && first_free_backpack(*inv, None),
        },
{
    if container != INVENTORY_SLOT_BAG_0 {
        return Err(InventoryResult::InternalBagError);
    }
    if inv.stack_at_slot(src_slot).is_none() {
        return Err(InventoryResult::SlotEmpty);
    }
    match inv.find_free_backpack_slot() {
        Some(s) => Ok(s),
        None => Err(InventoryResult::InvFull),
    }
}

/// The equipment slot an item's inventory type leads to, as the equip-slot
/// lookup answered it for the slots currently taken.
#[derive(Clone, Copy, Debug, PartialEq, Eq, Structural)]
pub enum EquipTarget {
    /// The item's inventory type is not known.
    UnknownInventoryType,
    /// The inventory type has no equipment slot.
    NoSlot,
    Slot(u8),
}

/// Where auto-equipping the item at `src_slot` moves it: a worn item goes to
/// the first free backpack slot, any other to the slot its inventory type leads to.
pub fn auto_equip_destination(inv: &DirectInventory, src_slot: u8, target: EquipTarget) -> (r:
    Result<u8, InventoryResult>)
    ensures
        inv.at(src_slot) is None ==> r == Err::<u8, InventoryResult>(InventoryResult::SlotEmpty),
        inv.at(src_slot) is Some && src_slot < EQUIPMENT_SLOT_END ==> match r {
            Ok(s) => first_free_backpack(*inv, Some(s)),
            Err(e) => e == InventoryResult::InvFull && first_free_backpack(*inv, None),
        },
        inv.at(src_slot) is Some && src_slot >= EQUIPMENT_SLOT_END ==> r == match target {
            EquipTarget::Slot(s) => Ok::<u8, InventoryResult>(s),
            _ => Err::<u8, InventoryResult>(InventoryResult::NotEquippable),
        },
{
    if inv.stack_at_slot(src_slot).is_none() {
        return Err(InventoryResult::SlotEmpty);
    }
    if src_slot < EQUIPMENT_SLOT_END {
        match inv.find_free_backpack_slot() {
            Some(s) => Ok(s),
            None => Err(InventoryResult::InvFull),
        }
    } else {
        match target {
            EquipTarget::Slot(s) => Ok(s),
            _ => Err(InventoryResult::NotEquippable),
        }
    }
}

/// Whether an explicit equip of `item_pos` (where the item was said to be) into
/// `dst_slot` goes ahead: the request names exactly one source position, the
/// destination is an equipment position, the item still lies at the named
/// position, that position is one of the player's own slots, and it differs
/// from the destination.
pub fn auto_equip_item_slot_allowed(
    source_count: usize,
    container_slot: u8,
    src_slot: u8,
    dst_slot: u8,
    item_pos: Option<(u8, u8)>,
) -> (b: bool)
    ensures
        b == (source_count == 1 && equipment_pos(INVENTORY_SLOT_BAG_0, dst_slot) && item_pos
            == Some((container_slot, src_slot)) && container_slot == INVENTORY_SLOT_BAG_0
            && src_slot != dst_slot),
{
    if source_count != 1 || !is_equipment_pos(INVENTORY_SLOT_BAG_0, dst_slot) {
        return false;
    }
    match item_pos {
        Some((bag, slot)) => {
            bag == container_slot && slot == src_slot && container_slot == INVENTORY_SLOT_BAG_0
                && src_slot != dst_slot
        },
        None => false,
    }
}

/// The worn slot a request to cancel a temporary enchantment names: the
/// request's slot when it is a byte and an equipment position, else none.
pub fn cancel_temp_enchantment_slot(slot: i32) -> (r: Option<u8>)
    ensures
        r == (if 0 <= slot <= 255 && equipment_pos(INVENTORY_SLOT_BAG_0, slot as u8) {
            Some(slot as u8)
        } else {
            None::<u8>
        }),
{
    if slot < 0 || slot > 255 {
        return None;
    }
    let s: u8 = slot as u8;
    if is_equipment_pos(INVENTORY_SLOT_BAG_0, s) {
        Some(s)
    } else {
        None
    }
}

/// Whether the player's own slot `slot` holds the item `guid`.
pub open spec fn holds_item(inv: DirectInventory, slot: u8, guid: ObjectGuid) -> bool {
    inv.at(slot) matches Some(st) && st.guid == guid
}

/// The lowest of the player's own slots that holds the item `guid`.
pub fn find_item_slot(inv: &DirectInventory, guid: ObjectGuid) -> (r: Option<u8>)
    ensures
        match r {
            Some(s) => holds_item(*inv, s, guid) && forall|t: u8| t < s ==> !#[trigger] holds_item(*inv, t, guid),
            None => forall|t: u8| !#[trigger] holds_item(*inv, t, guid),
        },
{
    let mut slot: u16 = 0;
    while slot < 256
        invariant
            slot <= 256,
            forall|t: u8| t < slot ==> !#[trigger] holds_item(*inv, t, guid),
        decreases 256 - slot,
    {
        let s: u8 = slot as u8;
        match inv.stack_at_slot(s) {
            Some(st) => {
                if st.guid.high == guid.high && st.guid.low == guid.low {
                    return Some(s);
                }
            },
            None => {},
        }
        slot = slot + 1;
    }
    None
}

/// Equips the item `item` into `dst_slot` as an explicit equip request asks:
/// the request names exactly one source position, the destination is an
/// equipment position, the item lies (first) at the named position, that
/// position is one of the player's own slots, and it is not the destination.
/// The two slots are then swapped.
pub fn auto_equip_item_slot(
    inv: &mut DirectInventory,
    sources: &Vec<(u8, u8)>,
    item: ObjectGuid,
    dst_slot: u8,
) -> (r: Option<u8>)
    ensures
        match r {
            Some(src) => {
                &&& sources@.len() == 1
                &&& equipment_pos(INVENTORY_SLOT_BAG_0, dst_slot)
                &&& sources@[0] == (INVENTORY_SLOT_BAG_0, src)
                &&& holds_item(*old(inv), src, item)
                &&& forall|t: u8| t < src ==> !#[trigger] holds_item(*old(inv), t, item)
                &&& src != dst_slot
                &&& forall|s: u8| #[trigger] final(inv).at(s) == swap_result(*old(inv), src, dst_slot, s)
            },
            None => {
                &&& !(sources@.len() == 1 && equipment_pos(INVENTORY_SLOT_BAG_0, dst_slot) && (exists|s: u8|
                    #[trigger] holds_item(*old(inv), s, item) && (forall|t: u8| t < s ==> !#[trigger] holds_item(*old(inv), t, item))
                    && sources@[0] == (INVENTORY_SLOT_BAG_0, s) && s != dst_slot))
                &&& forall|s: u8| #[trigger] final(inv).at(s) == old(inv).at(s)
            },
        },
{
    let item_pos = match find_item_slot(inv, item) {
        Some(s) => Some((INVENTORY_SLOT_BAG_0, s)),
        None => None,
    };
    if sources.len() != 1 {
        return None;
    }
    let (container_slot, src_slot) = sources[0];
    if !auto_equip_item_slot_allowed(sources.len(), container_slot, src_slot, dst_slot, item_pos) {
        return None;
    }
    inv.swap_slots(src_slot, dst_slot);
    Some(src_slot)
}

/// The player fields a swap of `src` and `dst` changes besides the two slots.
pub struct SwapFieldUpdates {
    /// Equipment slots whose visible item changes.
    pub visible_slots: Vec<u8>,
    /// Virtual item indices (weapon slot less 15) that change.
    pub virtual_indices: Vec<u8>,
    /// Whether a worn slot changed, so that stats are sent again.
    pub stats_changed: bool,
}

pub open spec fn visible_part(slot: u8) -> Seq<u8> {
    if slot < EQUIPMENT_SLOT_END {
        seq![slot]
    } else {
        Seq::empty()
    }
}

pub open spec fn virtual_part(slot: u8) -> Seq<u8> {
    if VIRTUAL_ITEM_SLOT_START <= slot && slot < VIRTUAL_ITEM_SLOT_END {
        seq![(slot - VIRTUAL_ITEM_SLOT_START) as u8]
    } else {
        Seq::empty()
    }
}

/// The visible item slots among `slots`, in order.
pub open spec fn visible_parts(slots: Seq<u8>) -> Seq<u8>
    decreases slots.len(),
{
    if slots.len() == 0 {
        Seq::empty()
    } else {
        visible_parts(slots.drop_last()) + visible_part(slots.last())
    }
}

/// The virtual item indices of the weapon slots among `slots`, in order.
pub open spec fn virtual_parts(slots: Seq<u8>) -> Seq<u8>
    decreases slots.len(),
{
    if slots.len() == 0 {
        Seq::empty()
    } else {
        virtual_parts(slots.drop_last()) + virtual_part(slots.last())
    }
}

/// The slots a list of stack changes empties, in order.
pub open spec fn deleted_slots(cs: Seq<ExtendedCostItemTurninChange>) -> Seq<u8>
    decreases cs.len(),
{
    if cs.len() == 0 {
        Seq::empty()
    } else {
        match cs.last() {
            ExtendedCostItemTurninChange::Delete { slot, .. } => deleted_slots(cs.drop_last()).push(
                slot,
            ),
            ExtendedCostItemTurninChange::Update { .. } => deleted_slots(cs.drop_last()),
        }
    }
}

/// The slots that paying an item cost empties.
pub fn turnin_deleted_slots(changes: &Vec<ExtendedCostItemTurninChange>) -> (r: Vec<u8>)
    ensures
        r@ == deleted_slots(changes@),
{
    let mut out: Vec<u8> = Vec::new();
    let mut i: usize = 0;
    while i < changes.len()
        invariant
            i <= changes.len(),
            out@ == deleted_slots(changes@.take(i as int)),
        decreases changes.len() - i,
    {
        proof {
            assert(changes@.take(i + 1).drop_last() =~= changes@.take(i as int));
        }
        match changes[i] {
            ExtendedCostItemTurninChange::Delete { slot, .. } => out.push(slot),
            ExtendedCostItemTurninChange::Update { .. } => {},
        }
        i = i + 1;
    }
    proof {
        assert(changes@.take(i as int) =~= changes@);
    }
    out
}

/// The player fields that emptying some slots of the player's own inventory changes.
pub struct ClearedSlotUpdates {
    /// Equipment slots whose visible item is cleared.
    pub visible_slots: Vec<u8>,
    /// Virtual item indices that are cleared.
    pub virtual_indices: Vec<u8>,
    /// Whether a worn slot was emptied, so that stats are sent again.
    pub stats_changed: bool,
}

/// The player fields that emptying `slots` changes: the visible item of each
/// equipment slot, the virtual item of each weapon slot, and the stats when a
/// worn slot is among them.
pub fn cleared_slot_updates(slots: &Vec<u8>) -> (r: ClearedSlotUpdates)
    ensures
        r.visible_slots@ == visible_parts(slots@),
        r.virtual_indices@ == virtual_parts(slots@),
        r.stats_changed == (visible_parts(slots@).len() > 0),
{
    let mut visible_slots: Vec<u8> = Vec::new();
    let mut virtual_indices: Vec<u8> = Vec::new();
    let mut i: usize = 0;
    while i < slots.len()
        invariant
            i <= slots.len(),
            visible_slots@ == visible_parts(slots@.take(i as int)),
            virtual_indices@ == virtual_parts(slots@.take(i as int)),
        decreases slots.len() - i,
    {
        proof {
            assert(slots@.take(i + 1).drop_last() =~= slots@.take(i as int));
        }
        let slot = slots[i];
        let ghost vis = visible_slots@;
        let ghost virt = virtual_indices@;
        if slot < EQUIPMENT_SLOT_END {
            visible_slots.push(slot);
        }
        if VIRTUAL_ITEM_SLOT_START <= slot && slot < VIRTUAL_ITEM_SLOT_END {
            virtual_indices.push(slot - VIRTUAL_ITEM_SLOT_START);
        }
        proof {
            assert(visible_slots@ =~= vis + visible_part(slot));
            assert(virtual_indices@ =~= virt + virtual_part(slot));
        }
        i = i + 1;
    }
    proof {
        assert(slots@.take(i as int) =~= slots@);
    }
    let stats_changed = visible_slots.len() > 0;
    ClearedSlotUpdates { visible_slots, virtual_indices, stats_changed }
}

/// The player fields a swap touches: the visible item of each equipment slot
/// among the two, the virtual item of each weapon slot among them, and the
/// stats when either is worn.
pub fn swap_field_updates(src: u8, dst: u8) -> (r: SwapFieldUpdates)
    ensures
        r.visible_slots@ == visible_part(src) + visible_part(dst),
        r.virtual_indices@ == virtual_part(src) + virtual_part(dst),
        r.stats_changed == (src < EQUIPMENT_SLOT_END || dst < EQUIPMENT_SLOT_END),
{
    let mut visible_slots: Vec<u8> = Vec::new();
    let mut virtual_indices: Vec<u8> = Vec::new();
    if src < EQUIPMENT_SLOT_END {
        visible_slots.push(src);
    }
    if dst < EQUIPMENT_SLOT_END {
        visible_slots.push(dst);
    }
    if VIRTUAL_ITEM_SLOT_START <= src && src < VIRTUAL_ITEM_SLOT_END {
        virtual_indices.push(src - VIRTUAL_ITEM_SLOT_START);
    }
    if VIRTUAL_ITEM_SLOT_START <= dst && dst < VIRTUAL_ITEM_SLOT_END {
        virtual_indices.push(dst - VIRTUAL_ITEM_SLOT_START);
    }
    proof {
        assert(visible_slots@ =~= visible_part(src) + visible_part(dst));
        assert(virtual_indices@ =~= virtual_part(src) + virtual_part(dst));
    }
    SwapFieldUpdates {
        visible_slots,
        virtual_indices,
        stats_changed: src < EQUIPMENT_SLOT_END || dst < EQUIPMENT_SLOT_END,
    }
}

} // verus!
