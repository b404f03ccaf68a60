use vstd::prelude::*;
use crate::codes::{BuyResult, InventoryResult, MAX_MONEY_AMOUNT};
use crate::guid::ObjectGuid;
use crate::slots::{
    equipment_pos, inventory_pos, is_equipment_pos, is_inventory_pos, INVENTORY_SLOT_BAG_0,
    MAX_BAG_SIZE, NULL_BAG, NULL_SLOT,
};

verus! {

/// The most items a vendor list shows.
pub const MAX_VENDOR_ITEMS_CPP: usize = 150;

/// The money a player holds after gaining `amount`, or `None` when that would
/// exceed the money cap.
pub open spec fn money_after_gain(current_money: u64, amount: u64) -> Option<u64> {
    if amount == 0 {
        Some(current_money)
    } else if amount > MAX_MONEY_AMOUNT || current_money > MAX_MONEY_AMOUNT - amount {
        None
    } else {
        Some((current_money + amount) as u64)
    }
}

pub fn player_money_gain_like_cpp(current_money: u64, amount: u64) -> (r: Option<u64>)
    ensures
        r == money_after_gain(current_money, amount),
        r is None <==> (amount != 0 && current_money + amount > 99_999_999_999),
        r matches Some(m) ==> m == current_money + amount,
{
    if amount == 0 {
        return Some(current_money);
    }
    let max_gain = match MAX_MONEY_AMOUNT.checked_sub(amount) {
        Some(m) => m,
        None => return None,
    };
    if current_money <= max_gain {
        Some(current_money + amount)
    } else {
        None
    }
}

/// Gaining money never takes a player above the money cap.
pub proof fn lemma_money_gain_stays_under_cap(current_money: u64, amount: u64)
    requires
        current_money <= MAX_MONEY_AMOUNT,
    ensures
        money_after_gain(current_money, amount) matches Some(m) ==> m <= MAX_MONEY_AMOUNT && m
            == current_money + amount,
{
}

/// The item count that a purchase request asks for: the packet's quantity
/// taken as a byte, at least one.
pub fn vendor_buy_packet_quantity_to_cpp_count(quantity: i32) -> (c: u32)
    ensures
        c == (if quantity as u8 == 0 {
            1
        } else {
            quantity as u8 as u32
        }),
        1 <= c <= 255,
{
    let q = quantity as u8;
    if q == 0 {
        1
    } else {
        q as u32
    }
}

/// The currency amount that a purchase request asks for: the packet's quantity
/// taken as unsigned, at least one.
pub fn vendor_buy_currency_packet_quantity_to_cpp_count(quantity: i32) -> (c: u32)
    ensures
        c == (if quantity as u32 == 0 {
            1
        } else {
            quantity as u32
        }),
        c >= 1,
{
    let q = quantity as u32;
    if q == 0 {
        1
    } else {
        q
    }
}

pub fn vendor_list_reaches_cpp_item_limit(count: usize) -> (b: bool)
    ensures
        b == (count >= MAX_VENDOR_ITEMS_CPP),
{
    count >= MAX_VENDOR_ITEMS_CPP
}

/// The currency types known to the server.
pub struct CurrencyTypesStore {
    pub ids: Vec<u32>,
}

impl CurrencyTypesStore {
    pub open spec fn knows(&self, id: u32) -> bool {
        self.ids@.contains(id)
    }

    pub fn from_ids(ids: Vec<u32>) -> (s: CurrencyTypesStore)
        ensures
            s.ids@ == ids@,
    {
        CurrencyTypesStore { ids }
    }

    pub fn has_record(&self, id: u32) -> (b: bool)
        ensures
            b == self.knows(id),
    {
        let mut i: usize = 0;
        while i < self.ids.len()
            invariant
                i <= self.ids.len(),
                forall|j: int| 0 <= j < i ==> self.ids@[j] != id,
            decreases self.ids.len() - i,
        {
            if self.ids[i] == id {
                return true;
            }
            i = i + 1;
        }
        false
    }
}

pub open spec fn currency_known(store: Option<&CurrencyTypesStore>, currency_id: u32) -> bool {
    match store {
        Some(s) => s.knows(currency_id),
        None => false,
    }
}

pub fn vendor_currency_type_is_known(store: Option<&CurrencyTypesStore>, currency_id: u32) -> (b:
    bool)
    ensures
        b == currency_known(store, currency_id),
{
    match store {
        Some(s) => s.has_record(currency_id),
        None => false,
    }
}

/// A currency row is hidden when it has no extended cost or its currency is unknown.
pub fn vendor_list_should_skip_currency_row(
    currency_store: Option<&CurrencyTypesStore>,
    item_id: i32,
    extended_cost: i32,
) -> (b: bool)
    ensures
        b == (extended_cost == 0 || !currency_known(currency_store, item_id as u32)),
{
    if extended_cost == 0 {
        return true;
    }
    !vendor_currency_type_is_known(currency_store, item_id as u32)
}

/// A currency purchase must ask for a whole multiple of a nonzero vendor amount.
pub fn vendor_buy_currency_quantity_block_result(max_count: u32, quantity: u32) -> (r: Option<
    InventoryResult,
>)
    ensures
        r == (if max_count == 0 || quantity % max_count != 0 {
            Some(InventoryResult::CantBuyQuantity)
        } else {
            None
        }),
{
    if max_count == 0 || quantity % max_count != 0 {
        Some(InventoryResult::CantBuyQuantity)
    } else {
        None
    }
}

/// The vendor slot that a one-based list id names.
pub fn vendor_buy_muid_to_cpp_slot(muid: i32) -> (r: Option<u32>)
    ensures
        r == (if muid as u32 > 0 {
            Some((muid as u32 - 1) as u32)
        } else {
            None::<u32>
        }),
        r matches Some(s) ==> s + 1 == muid as u32,
{
    let muid = muid as u32;
    if muid > 0 {
        Some(muid - 1)
    } else {
        None
    }
}

/// What evaluating a player condition gave.
#[derive(Clone, Copy, Debug, PartialEq, Eq, Structural)]
pub enum PlayerConditionOutcome {
    /// The condition store or the player's condition context is not available.
    Unavailable,
    /// The store has no condition with that id.
    NotFound,
    /// The condition was evaluated.
    Evaluated { met: bool },
}

/// The id of the player condition that fails, or 0: no condition, an unknown
/// condition and a met condition all pass; a condition that cannot be evaluated fails.
pub fn vendor_player_condition_failed_id_like_cpp(
    player_condition_id: u32,
    outcome: PlayerConditionOutcome,
) -> (r: i32)
    ensures
        r == (if player_condition_id == 0 {
            0
        } else {
            match outcome {
                PlayerConditionOutcome::Unavailable => player_condition_id as i32,
                PlayerConditionOutcome::NotFound => 0,
                PlayerConditionOutcome::Evaluated { met } => if met {
                    0
                } else {
                    player_condition_id as i32
                },
            }
        }),
{
    if player_condition_id == 0 {
        return 0;
    }
    match outcome {
        PlayerConditionOutcome::Unavailable => player_condition_id as i32,
        PlayerConditionOutcome::NotFound => 0,
        PlayerConditionOutcome::Evaluated { met } => if met {
            0
        } else {
            player_condition_id as i32
        },
    }
}

pub fn vendor_buy_player_condition_block_result_like_cpp(
    player_condition_id: u32,
    outcome: PlayerConditionOutcome,
) -> (r: Option<InventoryResult>)
    ensures
        r == (if vendor_condition_fails(player_condition_id, outcome) {
            Some(InventoryResult::ItemLocked)
        } else {
            None
        }),
{
    proof {
        let x = player_condition_id;
        assert(x != 0 ==> x as i32 != 0) by (bit_vector);
    }
    if vendor_player_condition_failed_id_like_cpp(player_condition_id, outcome) == 0 {
        None
    } else {
        Some(InventoryResult::ItemLocked)
    }
}

/// A condition fails when it is set and either cannot be evaluated or is not met.
/// (A condition id above `i32::MAX` that cannot be evaluated reads back as a
/// negative id, which is still a failure.)
pub open spec fn vendor_condition_fails(player_condition_id: u32, outcome: PlayerConditionOutcome) -> bool {
    player_condition_id != 0 && match outcome {
        PlayerConditionOutcome::Unavailable => true,
        PlayerConditionOutcome::NotFound => false,
        PlayerConditionOutcome::Evaluated { met } => !met,
    }
}

/// Vendor rows with conditions are refused while no condition manager is loaded.
pub fn vendor_conditions_block_result(has_vendor_conditions: bool) -> (r: Option<BuyResult>)
    ensures
        r == (if has_vendor_conditions {
            Some(BuyResult::CantFindItem)
        } else {
            None
        }),
{
    if has_vendor_conditions {
        Some(BuyResult::CantFindItem)
    } else {
        None
    }
}

/// An item that requires a reputation rank is refused to a player below that rank.
pub fn vendor_buy_required_reputation_block_result(
    required_reputation_faction: Option<u16>,
    required_reputation_rank: Option<i32>,
    player_reputation_rank: i32,
) -> (r: Option<BuyResult>)
    ensures
        r == (if required_reputation_faction.unwrap_or(0) != 0 && player_reputation_rank
            < required_reputation_rank.unwrap_or(0) {
            Some(BuyResult::ReputationRequire)
        } else {
            None
        }),
{
    if required_reputation_faction.unwrap_or(0) != 0 && player_reputation_rank
        < required_reputation_rank.unwrap_or(0) {
        Some(BuyResult::ReputationRequire)
    } else {
        None
    }
}

/// Where a purchase may be stored: no chosen position or an inventory position
/// is fine; a worn position is not equippable; anything else is the wrong slot.
pub fn vendor_buy_direct_store_block_result(bag: u8, slot: u8, _quantity: u32) -> (r: Option<
    InventoryResult,
>)
    ensures
        r == (if (bag == NULL_BAG && slot == NULL_SLOT) || inventory_pos(bag, slot) {
            None
        } else if equipment_pos(bag, slot) {
            Some(InventoryResult::NotEquippable)
        } else {
            Some(InventoryResult::WrongSlot)
        }),
{
    if (bag == NULL_BAG && slot == NULL_SLOT) || is_inventory_pos(bag, slot) {
        return None;
    }
    if is_equipment_pos(bag, slot) {
        return Some(InventoryResult::NotEquippable);
    }
    Some(InventoryResult::WrongSlot)
}

/// The stock a limited vendor item has after `elapsed_secs`, and whether it is full.
pub open spec fn refill_of(
    current_count: u32,
    elapsed_secs: u64,
    incr_time: u32,
    buy_count: u32,
    max_count: u32,
) -> (u32, bool) {
    if max_count == 0 || current_count >= max_count || incr_time == 0 {
        (if current_count < max_count {
            current_count
        } else {
            max_count
        }, current_count >= max_count)
    } else {
        let increments = elapsed_secs / (incr_time as u64);
        let per = if buy_count == 0 {
            1
        } else {
            buy_count
        };
        if increments == 0 {
            (current_count, false)
        } else if current_count + increments * per >= max_count {
            (max_count, true)
        } else {
            ((current_count + increments * per) as u32, false)
        }
    }
}

/// Each full restock interval that has passed restores one vendor stack, up to the maximum.
pub fn vendor_buy_stock_refill_count(
    current_count: u32,
    elapsed_secs: u64,
    incr_time: u32,
    buy_count: u32,
    max_count: u32,
) -> (r: (u32, bool))
    ensures
        r == refill_of(current_count, elapsed_secs, incr_time, buy_count, max_count),
        r.0 <= max_count || (max_count == 0 && r.0 == 0),
        r.1 <==> (max_count <= current_count || (incr_time != 0 && max_count > 0 && current_count
            + (elapsed_secs / (incr_time as u64)) * (if buy_count == 0 {
            1
        } else {
            buy_count
        }) >= max_count)),
        !r.1 ==> r.0 == (if incr_time == 0 || max_count == 0 {
            if current_count < max_count { current_count as int } else { max_count as int }
        } else {
            current_count + (elapsed_secs / (incr_time as u64)) * (if buy_count == 0 {
                1
            } else {
                buy_count
            })
        }),
        r.1 ==> r.0 == max_count,
        r.0 >= (if current_count < max_count { current_count } else { max_count }),
{
    if max_count == 0 || current_count >= max_count || incr_time == 0 {
        let c = if current_count < max_count {
            current_count
        } else {
            max_count
        };
        return (c, current_count >= max_count);
    }
    let increments: u64 = elapsed_secs / (incr_time as u64);
    if increments == 0 {
        return (current_count, false);
    }
    let per: u64 = if buy_count == 0 {
        1
    } else {
        buy_count as u64
    };
    let restored: u64 = match increments.checked_mul(per) {
        Some(v) => v,
        None => u64::MAX,
    };
    let new_count: u64 = (current_count as u64).saturating_add(restored);
    proof {
        let p: int = per as int;
        if increments * per > u64::MAX {
            assert(current_count + increments * p >= max_count) by (nonlinear_arith)
                requires
                    increments * p > u64::MAX,
                    max_count <= u32::MAX,
                    current_count >= 0,
            ;
        }
    }
    if new_count >= max_count as u64 {
        (max_count, true)
    } else {
        (new_count as u32, false)
    }
}

/// More elapsed time never leaves a vendor with less stock.
pub proof fn lemma_refill_monotone_in_time(
    current_count: u32,
    e1: u64,
    e2: u64,
    incr_time: u32,
    buy_count: u32,
    max_count: u32,
)
    requires
        e1 <= e2,
    ensures
        refill_of(current_count, e1, incr_time, buy_count, max_count).0 <= refill_of(
            current_count,
            e2,
            incr_time,
            buy_count,
            max_count,
        ).0,
{
    if !(max_count == 0 || current_count >= max_count || incr_time == 0) {
        let d = incr_time as u64;
        let i1 = e1 / d;
        let i2 = e2 / d;
        assert(i1 <= i2) by (nonlinear_arith)
            requires
                e1 <= e2,
                d > 0,
                i1 == e1 / d,
                i2 == e2 / d,
        ;
        let per: int = if buy_count == 0 {
            1
        } else {
            buy_count as int
        };
        assert(i1 * per <= i2 * per) by (nonlinear_arith)
            requires
                i1 <= i2,
                per >= 0,
        ;
    }
}

/// A limited item that is sold out is hidden, except from game masters.
pub fn vendor_list_should_skip_sold_out(max_count: i32, current_count: u32, is_game_master: bool) -> (b:
    bool)
    ensures
        b == (max_count > 0 && current_count == 0 && !is_game_master),
{
    max_count > 0 && current_count == 0 && !is_game_master
}

/// A vendor purchase request, as the client sends it.
#[derive(Clone, Copy, Debug, PartialEq, Eq, Structural)]
pub struct BuyItem {
    pub vendor_guid: ObjectGuid,
    pub container_guid: ObjectGuid,
    pub quantity: i32,
    pub muid: i32,
    pub slot: i32,
    pub item_type: i32,
    pub item_id: i32,
}

/// Where a purchase goes: the slot is the packet's slot taken as a byte, which
/// must be "no slot" or at most the largest bag size; the player's own
/// container means the backpack bag, any other container means "no bag".
pub fn vendor_buy_direct_inventory_destination(player_guid: ObjectGuid, buy: &BuyItem) -> (r:
    Option<(u8, u8)>)
    ensures
        r == (if (buy.slot as u8) > MAX_BAG_SIZE && (buy.slot as u8) != NULL_SLOT {
            None
        } else {
            Some(
                (
                    if buy.container_guid == player_guid {
                        INVENTORY_SLOT_BAG_0
                    } else {
                        NULL_BAG
                    },
                    buy.slot as u8,
                ),
            )
        }),
{
    let slot = buy.slot as u8;
    if slot > MAX_BAG_SIZE && slot != NULL_SLOT {
        return None;
    }
    let bag = if buy.container_guid.high == player_guid.high && buy.container_guid.low
        == player_guid.low {
        INVENTORY_SLOT_BAG_0
    } else {
        NULL_BAG
    };
    Some((bag, slot))
}

} // verus!
