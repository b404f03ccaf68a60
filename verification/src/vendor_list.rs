use vstd::prelude::*;
use std::collections::{HashSet, VecDeque};
use crate::codes::Team;
use crate::items::{
    class_mask_of, vendor_list_should_skip_allowed_class, vendor_list_should_skip_faction_flags,
    ITEM_BONDING_ON_ACQUIRE, ITEM_FLAG2_FACTION_ALLIANCE, ITEM_FLAG2_FACTION_HORDE,
};
use crate::vendor::vendor_list_should_skip_sold_out;

verus! {

/// Vendor row type: an item.
pub const ITEM_VENDOR_TYPE_ITEM: i32 = 1;
/// Vendor row type: a currency.
pub const ITEM_VENDOR_TYPE_CURRENCY: i32 = 2;

/// The first entry of `pending` not yet read.
pub open spec fn first_unread(pending: Seq<u32>, expanded: Set<u32>) -> Option<int>
    decreases pending.len(),
{
    if pending.len() == 0 {
        None
    } else if !expanded.contains(pending[0]) {
        Some(0)
    } else {
        match first_unread(pending.skip(1), expanded) {
            Some(k) => Some(k + 1),
            None => None,
        }
    }
}

/// The first unread entry is the first waiting entry not read before: every
/// entry ahead of it was read, and when there is none, every waiting entry was.
pub proof fn lemma_first_unread(pending: Seq<u32>, expanded: Set<u32>)
    ensures
        first_unread(pending, expanded) matches Some(k) ==> {
            &&& 0 <= k < pending.len()
            &&& !expanded.contains(pending[k])
            &&& forall|j: int| 0 <= j < k ==> expanded.contains(#[trigger] pending[j])
        },
        first_unread(pending, expanded) is None ==> forall|j: int|
            0 <= j < pending.len() ==> expanded.contains(#[trigger] pending[j]),
    decreases pending.len(),
{
    if pending.len() > 0 && expanded.contains(pending[0]) {
        let rest = pending.skip(1);
        lemma_first_unread(rest, expanded);
        match first_unread(rest, expanded) {
            Some(k) => {
                assert(pending[k + 1] == rest[k]);
                assert forall|j: int| 0 <= j < k + 1 implies expanded.contains(#[trigger] pending[j]) by {
                    if j > 0 {
                        assert(pending[j] == rest[j - 1]);
                    }
                }
            },
            None => {
                assert forall|j: int| 0 <= j < pending.len() implies expanded.contains(
                    #[trigger] pending[j],
                ) by {
                    if j > 0 {
                        assert(pending[j] == rest[j - 1]);
                    }
                }
            },
        }
    }
}

/// The order in which the vendor entries of a vendor and the vendors it
/// references are read: a queue of entries to read, and the set of entries
/// already read, so that each entry is read once, first come first served.
pub struct VendorExpansion {
    queue: VecDeque<u32>,
    expanded: HashSet<u32>,
}

impl VendorExpansion {
    /// The entries waiting to be read, in order.
    pub closed spec fn pending(&self) -> Seq<u32> {
        self.queue@
    }

    /// The entries already read.
    pub closed spec fn expanded(&self) -> Set<u32> {
        self.expanded@
    }

    /// Starts with the vendor's own entry.
    pub fn new(root_entry: u32) -> (s: VendorExpansion)
        ensures
            s.pending() == seq![root_entry],
            s.expanded() == Set::<u32>::empty(),
    {
        let mut queue: VecDeque<u32> = VecDeque::new();
        queue.push_back(root_entry);
        VendorExpansion { queue, expanded: HashSet::new() }
    }

    /// The next vendor entry to read: waiting entries already read are
    /// dropped; the entry returned is marked as read.
    pub fn next_entry(&mut self) -> (r: Option<u32>)
        ensures
            match first_unread(old(self).pending(), old(self).expanded()) {
                Some(k) => {
                    &&& r == Some(old(self).pending()[k])
                    &&& final(self).pending() == old(self).pending().skip(k + 1)
                    &&& final(self).expanded() == old(self).expanded().insert(old(self).pending()[k])
                },
                None => {
                    &&& r is None
                    &&& final(self).pending().len() == 0
                    &&& final(self).expanded() == old(self).expanded()
                },
            },
            r matches Some(e) ==> !old(self).expanded().contains(e) && final(self).expanded().contains(e),
    {
        proof {
            lemma_first_unread(old(self).pending(), old(self).expanded());
        }
        broadcast use vstd::std_specs::hash::group_hash_axioms;

        let ghost start = self.queue@;
        let ghost read_before = self.expanded@;
        let ghost mut dropped: int = 0;
        loop
            invariant
                start == old(self).queue@,
                read_before == old(self).expanded@,
                0 <= dropped <= start.len(),
                self.queue@ == start.skip(dropped),
                self.expanded@ == read_before,
                first_unread(start, read_before) == match first_unread(self.queue@, read_before) {
                    Some(k) => Some(k + dropped),
                    None => None,
                },
            decreases self.queue@.len(),
        {
            let ghost before = self.queue@;
            match self.queue.pop_front() {
                None => {
                    return None;
                },
                Some(e) => {
                    proof {
                        assert(before.skip(1) =~= start.skip(dropped + 1));
                        assert(self.queue@ =~= before.skip(1));
                        assert(e == start[dropped]);
                        dropped = dropped + 1;
                    }
                    if self.expanded.insert(e) {
                        return Some(e);
                    }
                },
            }
        }
    }

    /// Queues the vendor that a reference row (a negative item id) names.
    pub fn add_reference(&mut self, item_id: i32)
        requires
            item_id < 0,
            item_id != i32::MIN,
        ensures
            final(self).pending() == old(self).pending().push((-item_id) as u32),
            final(self).expanded() == old(self).expanded(),
    {
        self.queue.push_back((-item_id) as u32);
    }
}

/// The one-based list id of the row after `raw_slot` earlier item rows.
pub fn vendor_row_muid(raw_slot: i32) -> (m: i32)
    ensures
        m == (if raw_slot == i32::MAX {
            i32::MAX as int
        } else {
            raw_slot + 1
        }),
{
    if raw_slot == i32::MAX {
        i32::MAX
    } else {
        raw_slot + 1
    }
}

/// What a vendor list does with a row before any stock is read.
#[derive(Clone, Copy, Debug, PartialEq, Eq, Structural)]
pub enum VendorRowKind {
    /// No item: the row is ignored.
    Empty,
    /// A reference to another vendor's list.
    Reference,
    /// A currency row that is hidden.
    HiddenCurrency,
    /// A currency row that is listed.
    Currency,
    /// An item the server does not know: hidden.
    UnknownItem,
    /// An item row that goes on to the stock and restriction checks.
    Item,
}

/// Rows with a positive id are listed items or currencies (a currency needs an
/// extended cost and a known currency; an item must be known); negative ids
/// reference other vendors.
pub fn vendor_row_kind(
    item_id: i32,
    item_type: i32,
    currency_row_hidden: bool,
    item_known: bool,
) -> (k: VendorRowKind)
    ensures
        k == (if item_id > 0 {
            if item_type == ITEM_VENDOR_TYPE_CURRENCY {
                if currency_row_hidden {
                    VendorRowKind::HiddenCurrency
                } else {
                    VendorRowKind::Currency
                }
            } else if !item_known {
                VendorRowKind::UnknownItem
            } else {
                VendorRowKind::Item
            }
        } else if item_id < 0 {
            VendorRowKind::Reference
        } else {
            VendorRowKind::Empty
        }),
{
    if item_id > 0 {
        if item_type == ITEM_VENDOR_TYPE_CURRENCY {
            if currency_row_hidden {
                VendorRowKind::HiddenCurrency
            } else {
                VendorRowKind::Currency
            }
        } else if !item_known {
            VendorRowKind::UnknownItem
        } else {
            VendorRowKind::Item
        }
    } else if item_id < 0 {
        VendorRowKind::Reference
    } else {
        VendorRowKind::Empty
    }
}

/// Whether a known item row is hidden from the player: sold out, restricted to
/// other classes or to the other faction, or with vendor conditions that are
/// not met or cannot be evaluated (`conditions_met` is `None` then).
pub fn vendor_list_item_hidden(
    max_count: i32,
    current_count: u32,
    is_game_master: bool,
    allowable_class: Option<i16>,
    bonding: Option<u8>,
    player_class: u8,
    flags2: Option<u32>,
    team: Team,
    has_vendor_conditions: bool,
    conditions_met: Option<bool>,
) -> (b: bool)
    ensures
        b == ((max_count > 0 && current_count == 0 && !is_game_master) || (!is_game_master
            && bonding == Some(ITEM_BONDING_ON_ACQUIRE) && allowable_class is Some && (
        allowable_class->0 as i32) & (class_mask_of(player_class) as i32) == 0) || (
        !is_game_master && flags2 is Some && ((flags2->0 & ITEM_FLAG2_FACTION_HORDE != 0 && team
            == Team::Alliance) || (flags2->0 & ITEM_FLAG2_FACTION_ALLIANCE != 0 && team
            == Team::Horde))) || (has_vendor_conditions && conditions_met != Some(true))),
{
    if vendor_list_should_skip_sold_out(max_count, current_count, is_game_master) {
        return true;
    }
    if vendor_list_should_skip_allowed_class(allowable_class, bonding, player_class, is_game_master) {
        return true;
    }
    if vendor_list_should_skip_faction_flags(flags2, team, is_game_master) {
        return true;
    }
    if has_vendor_conditions {
        match conditions_met {
            Some(true) => {},
            _ => return true,
        }
    }
    false
}

/// The quantity a vendor list shows: -1 for unlimited items, else the stock.
pub fn vendor_list_quantity(max_count: i32, current_count: u32) -> (q: i32)
    ensures
        q == (if max_count == 0 {
            -1i32
        } else {
            current_count as i32
        }),
{
    if max_count == 0 {
        -1
    } else {
        #[verifier::truncate]
        (current_count as i32)
    }
}

/// How a vendor row compares with a purchase request for list slot `vendor_slot`.
#[derive(Clone, Copy, Debug, PartialEq, Eq, Structural)]
pub enum VendorSlotMatch {
    /// Not the requested row.
    Other,
    /// The requested row, but it sells another item: the purchase fails.
    WrongItem,
    /// The requested row.
    Found,
}

/// A row matches the requested slot when it is the row at that position among
/// all item rows and its item (or currency) is known.
pub fn vendor_slot_match(
    item_id: i32,
    item_type: i32,
    item_known: bool,
    currency_known: bool,
    current_slot: u32,
    vendor_slot: u32,
    expected_item_id: u32,
) -> (m: VendorSlotMatch)
    requires
        item_id > 0,
    ensures
        m == (if (item_known || (item_type == ITEM_VENDOR_TYPE_CURRENCY && currency_known))
            && current_slot == vendor_slot {
            if item_id as u32 != expected_item_id {
                VendorSlotMatch::WrongItem
            } else {
                VendorSlotMatch::Found
            }
        } else {
            VendorSlotMatch::Other
        }),
{
    let known = item_known || (item_type == ITEM_VENDOR_TYPE_CURRENCY && currency_known);
    if known && current_slot == vendor_slot {
        if item_id as u32 != expected_item_id {
            VendorSlotMatch::WrongItem
        } else {
            VendorSlotMatch::Found
        }
    } else {
        VendorSlotMatch::Other
    }
}

} // verus!
