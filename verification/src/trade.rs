use vstd::prelude::*;
use crate::codes::{BuyResult, SellResult};
use crate::extended_cost::{season_earned_bit, item_extended_cost_currency_requires_season_earned, ItemExtendedCostEntry};
use crate::items::{
    item_is_not_empty_bag_like_cpp, sell_amount_of, sell_item_amount_action, SellItemAmountAction,
    INVENTORY_TYPE_BAG, ITEM_FIELD_FLAG_REFUNDABLE,
};
use crate::slots::{is_buyback_slot, BUYBACK_SLOT_END, BUYBACK_SLOT_START, EQUIPMENT_SLOT_END};
use crate::vendor::{money_after_gain, player_money_gain_like_cpp};

verus! {

/// How long a sold item stays in the buyback list, in seconds.
pub const BUYBACK_DURATION_SECS: u64 = 30 * 3600;

/// What the server knows of the item a player offers for sale.
#[derive(Clone, Copy, Debug, PartialEq, Eq, Structural)]
pub struct SellOffer {
    /// The inventory slot that holds the item.
    pub slot: u8,
    /// The runtime item, if loaded: its stack count.
    pub runtime_count: Option<u32>,
    /// The inventory type of the item's template, if known.
    pub inventory_type: Option<u8>,
    /// Whether the item, as a bag, holds items.
    pub contains_items: bool,
    /// Whether a loot window is open on the item or its loot is generated.
    pub being_looted: bool,
    /// Whether the purchase of the item is still refundable.
    pub refundable: bool,
}

/// The first decision a sale request gets.
#[derive(Clone, Copy, Debug, PartialEq, Eq, Structural)]
pub enum SellPreflight {
    /// Refuse the sale with this result.
    Refuse(SellResult),
    /// Drop the request without an answer.
    Ignore,
    /// Go on, selling this part of the stack.
    Proceed(SellItemAmountAction),
}

pub open spec fn sell_preflight_of(offer: Option<SellOffer>, requested_amount: i32) -> SellPreflight {
    match offer {
        None => SellPreflight::Refuse(SellResult::YouDontOwnThatItem),
        Some(o) => if o.slot < EQUIPMENT_SLOT_END {
            SellPreflight::Refuse(SellResult::CantSellItem)
        } else {
            match o.runtime_count {
                None => SellPreflight::Refuse(SellResult::CantFindItem),
                Some(count) => if o.inventory_type == Some(INVENTORY_TYPE_BAG) && o.contains_items {
                    SellPreflight::Refuse(SellResult::CantSellItem)
                } else if o.being_looted {
                    SellPreflight::Refuse(SellResult::CantSellItem)
                } else if o.refundable {
                    SellPreflight::Ignore
                } else {
                    match sell_amount_of(count, requested_amount) {
                        SellItemAmountAction::Invalid => SellPreflight::Refuse(
                            SellResult::CantSellItem,
                        ),
                        a => SellPreflight::Proceed(a),
                    }
                },
            }
        },
    }
}

/// A sale is refused for an item the player does not have, an equipped item,
/// an item without a runtime object, a bag holding items, an item being looted
/// and an invalid amount; a still-refundable item is ignored.
pub fn sell_item_preflight(offer: Option<SellOffer>, requested_amount: i32) -> (r: SellPreflight)
    ensures
        r == sell_preflight_of(offer, requested_amount),
        r matches SellPreflight::Proceed(a) ==> !(a is Invalid),
{
    let o = match offer {
        None => return SellPreflight::Refuse(SellResult::YouDontOwnThatItem),
        Some(o) => o,
    };
    if o.slot < EQUIPMENT_SLOT_END {
        return SellPreflight::Refuse(SellResult::CantSellItem);
    }
    let count = match o.runtime_count {
        None => return SellPreflight::Refuse(SellResult::CantFindItem),
        Some(c) => c,
    };
    if item_is_not_empty_bag_like_cpp(o.inventory_type, o.contains_items) {
        return SellPreflight::Refuse(SellResult::CantSellItem);
    }
    if o.being_looted {
        return SellPreflight::Refuse(SellResult::CantSellItem);
    }
    if o.refundable {
        return SellPreflight::Ignore;
    }
    match sell_item_amount_action(count, requested_amount) {
        SellItemAmountAction::Invalid => SellPreflight::Refuse(SellResult::CantSellItem),
        a => SellPreflight::Proceed(a),
    }
}

/// The money side of an accepted sale.
#[derive(Clone, Copy, Debug, PartialEq, Eq, Structural)]
pub struct SellPricing {
    /// Money the player gets.
    pub money: u64,
    /// The player's money afterwards.
    pub new_gold: u64,
    /// The price to buy the items back.
    pub buyback_price: u32,
}

pub open spec fn saturating_mul_u64(a: u64, b: u64) -> u64 {
    if a * b > u64::MAX {
        u64::MAX
    } else {
        (a * b) as u64
    }
}

pub open spec fn sell_pricing_of(sell_price: u64, sold_count: u32, old_gold: u64) -> Result<
    SellPricing,
    SellResult,
> {
    let money = saturating_mul_u64(sell_price, sold_count as u64);
    if sell_price == 0 {
        Err(SellResult::CantSellItem)
    } else {
        match money_after_gain(old_gold, money) {
            None => Err(SellResult::CantSellItem),
            Some(g) => Ok(
                SellPricing {
                    money,
                    new_gold: g,
                    buyback_price: if money > u32::MAX {
                        u32::MAX
                    } else {
                        money as u32
                    },
                },
            ),
        }
    }
}

fn saturating_mul(a: u64, b: u64) -> (r: u64)
    ensures
        r == saturating_mul_u64(a, b),
{
    match a.checked_mul(b) {
        Some(v) => v,
        None => u64::MAX,
    }
}

/// An item without a sell price cannot be sold; the player gets price times
/// count (capped at the largest value), which must keep the player under the
/// money cap; buying back costs the same, capped at 32 bits.
pub fn sell_item_pricing(sell_price: u64, sold_count: u32, old_gold: u64) -> (r: Result<
    SellPricing,
    SellResult,
>)
    ensures
        r == sell_pricing_of(sell_price, sold_count, old_gold),
        sell_price == 0 ==> r is Err,
        r matches Ok(p) ==> {
            &&& p.money == (if sell_price * sold_count > u64::MAX {
                u64::MAX as int
            } else {
                sell_price * sold_count
            })
            &&& p.new_gold == old_gold + p.money
            &&& p.money == 0 || p.new_gold <= 99_999_999_999
            &&& p.buyback_price == (if p.money > u32::MAX {
                u32::MAX as int
            } else {
                p.money as int
            })
        },
        sell_price != 0 && r is Err ==> (if sell_price * sold_count > u64::MAX {
            u64::MAX as int
        } else {
            sell_price * sold_count
        }) + old_gold > 99_999_999_999,
{
    if sell_price == 0 {
        return Err(SellResult::CantSellItem);
    }
    let money = saturating_mul(sell_price, sold_count as u64);
    let new_gold = match player_money_gain_like_cpp(old_gold, money) {
        Some(g) => g,
        None => return Err(SellResult::CantSellItem),
    };
    let buyback_price: u32 = if money > u32::MAX as u64 {
        u32::MAX
    } else {
        money as u32
    };
    Ok(SellPricing { money, new_gold, buyback_price })
}

/// When a buyback entry made `elapsed_secs` after login expires, capped at 32 bits.
pub fn buyback_expiry(elapsed_secs: u64) -> (t: i64)
    ensures
        t == (if elapsed_secs + BUYBACK_DURATION_SECS > u32::MAX {
            u32::MAX as int
        } else {
            elapsed_secs + BUYBACK_DURATION_SECS
        }),
{
    let t = elapsed_secs.saturating_add(BUYBACK_DURATION_SECS);
    if t > u32::MAX as u64 {
        u32::MAX as i64
    } else {
        t as i64
    }
}

/// The buyback slot that a buyback request names, or the refusal it gets.
pub fn buyback_slot_check(requested_slot: i32) -> (r: Result<u8, BuyResult>)
    ensures
        r == (if 0 <= requested_slot && BUYBACK_SLOT_START <= requested_slot
            && requested_slot < BUYBACK_SLOT_END {
            Ok::<u8, BuyResult>(requested_slot as u8)
        } else {
            Err(BuyResult::CantFindItem)
        }),
{
    if requested_slot < 0 || requested_slot > 255 {
        return Err(BuyResult::CantFindItem);
    }
    let slot = requested_slot as u8;
    if !is_buyback_slot(slot) {
        return Err(BuyResult::CantFindItem);
    }
    Ok(slot)
}

/// The price of buying back the item in buyback slot `slot`, if the player can pay it.
pub fn buyback_price_check(prices: &[u32; 12], slot: u8, gold: u64) -> (r: Result<u64, BuyResult>)
    requires
        BUYBACK_SLOT_START <= slot < BUYBACK_SLOT_END,
    ensures
        r == (if gold < prices@[slot - BUYBACK_SLOT_START] {
            Err(BuyResult::NotEnoughtMoney)
        } else {
            Ok::<u64, BuyResult>(prices@[slot - BUYBACK_SLOT_START] as u64)
        }),
{
    let price = prices[(slot - BUYBACK_SLOT_START) as usize] as u64;
    if gold < price {
        Err(BuyResult::NotEnoughtMoney)
    } else {
        Ok(price)
    }
}

/// The first decision a refund request gets.
#[derive(Clone, Copy, Debug, PartialEq, Eq, Structural)]
pub enum RefundPreflight {
    /// Drop the request without an answer.
    Ignore,
    /// The refund has lapsed or the player is not its recipient: clear the
    /// refund data, leaving these item flags, and tell the client; when the
    /// refund expired, answer with an error too.
    Clear { new_flags: u32, send_error: bool },
    /// Go on with the refund.
    Proceed,
}

/// What the server knows of an item a player asks to refund.
#[derive(Clone, Copy, Debug, PartialEq, Eq, Structural)]
pub struct RefundOffer {
    pub has_runtime_object: bool,
    pub being_looted: bool,
    pub refundable: bool,
    pub expired: bool,
    pub recipient_is_player: bool,
    pub item_flags: u32,
}

/// A refund request for an item the player lacks, without runtime object,
/// being looted or not refundable is ignored; a lapsed refund or one for
/// someone else is cleared.
pub fn refund_preflight(offer: Option<RefundOffer>) -> (r: RefundPreflight)
    ensures
        r == (match offer {
            None => RefundPreflight::Ignore,
            Some(o) => if !o.has_runtime_object || o.being_looted || !o.refundable {
                RefundPreflight::Ignore
            } else if o.expired || !o.recipient_is_player {
                RefundPreflight::Clear {
                    new_flags: o.item_flags & !ITEM_FIELD_FLAG_REFUNDABLE,
                    send_error: o.expired,
                }
            } else {
                RefundPreflight::Proceed
            },
        }),
{
    let o = match offer {
        None => return RefundPreflight::Ignore,
        Some(o) => o,
    };
    if !o.has_runtime_object || o.being_looted || !o.refundable {
        return RefundPreflight::Ignore;
    }
    if o.expired || !o.recipient_is_player {
        return RefundPreflight::Clear {
            new_flags: o.item_flags & !ITEM_FIELD_FLAG_REFUNDABLE,
            send_error: o.expired,
        };
    }
    RefundPreflight::Proceed
}

/// The items a refund gives back, from position `i` on: each nonzero item id
/// with a nonzero count.
pub open spec fn refund_items_from(e: ItemExtendedCostEntry, i: int) -> Seq<(u32, u32)>
    decreases 5 - i,
{
    if i >= 5 || i < 0 {
        Seq::empty()
    } else if e.item_id[i] != 0 && e.item_count[i] != 0 {
        seq![(e.item_id[i] as u32, e.item_count[i] as u32)] + refund_items_from(e, i + 1)
    } else {
        refund_items_from(e, i + 1)
    }
}

/// The currencies a refund gives back, from position `i` on: each nonzero
/// currency with a nonzero count, except those that count only currency earned
/// this season.
pub open spec fn refund_currencies_from(e: ItemExtendedCostEntry, i: int) -> Seq<(u32, u32)>
    decreases 5 - i,
{
    if i >= 5 || i < 0 {
        Seq::empty()
    } else if e.flags & season_earned_bit(i) == 0 && e.currency_id[i] != 0
        && e.currency_count[i] != 0 {
        seq![(e.currency_id[i] as u32, e.currency_count[i])] + refund_currencies_from(e, i + 1)
    } else {
        refund_currencies_from(e, i + 1)
    }
}

pub fn refund_item_costs(e: &ItemExtendedCostEntry) -> (r: Vec<(u32, u32)>)
    ensures
        r@ == refund_items_from(*e, 0),
{
    let mut out: Vec<(u32, u32)> = Vec::new();
    let mut i: usize = 0;
    while i < 5
        invariant
            i <= 5,
            out@ + refund_items_from(*e, i as int) == refund_items_from(*e, 0),
        decreases 5 - i,
    {
        let ghost before = out@;
        let item_id = e.item_id[i] as u32;
        let count = e.item_count[i] as u32;
        if item_id != 0 && count != 0 {
            proof {
                let x = e.item_id[i as int];
                assert(x != 0 ==> x as u32 != 0) by (bit_vector);
                assert(x as u32 != 0 ==> x != 0) by (bit_vector);
            }
            out.push((item_id, count));
            proof {
                let head = seq![(e.item_id[i as int] as u32, e.item_count[i as int] as u32)];
                assert(before + (head + refund_items_from(*e, i + 1)) =~= out@ + refund_items_from(*e, i + 1));
            }
        } else {
            proof {
                let x = e.item_id[i as int];
                assert(x as u32 == 0 ==> x == 0) by (bit_vector);
            }
        }
        i = i + 1;
    }
    proof {
        assert(out@ + Seq::<(u32, u32)>::empty() =~= out@);
    }
    out
}

pub fn refund_currency_costs(e: &ItemExtendedCostEntry) -> (r: Vec<(u32, u32)>)
    ensures
        r@ == refund_currencies_from(*e, 0),
{
    let mut out: Vec<(u32, u32)> = Vec::new();
    let mut i: usize = 0;
    while i < 5
        invariant
            i <= 5,
            out@ + refund_currencies_from(*e, i as int) == refund_currencies_from(*e, 0),
        decreases 5 - i,
    {
        let ghost before = out@;
        if !item_extended_cost_currency_requires_season_earned(e.flags, i) {
            let currency_id = e.currency_id[i] as u32;
            let count = e.currency_count[i];
            if currency_id != 0 && count != 0 {
                out.push((currency_id, count));
                proof {
                    let head = seq![(e.currency_id[i as int] as u32, e.currency_count[i as int])];
                    assert(before + (head + refund_currencies_from(*e, i + 1)) =~= out@
                        + refund_currencies_from(*e, i + 1));
                }
            }
        }
        i = i + 1;
    }
    proof {
        assert(out@ + Seq::<(u32, u32)>::empty() =~= out@);
    }
    out
}

/// The player's money after a refund pays back `paid_money`, and whether the
/// money cap stopped it (the money is then left as it was).
pub fn refund_money(old_money: u64, paid_money: u64) -> (r: (u64, bool))
    ensures
        r == (match money_after_gain(old_money, paid_money) {
            Some(g) => (g, false),
            None => (old_money, true),
        }),
        r.1 <==> (paid_money != 0 && old_money + paid_money > 99_999_999_999),
        !r.1 ==> r.0 == old_money + paid_money,
        r.1 ==> r.0 == old_money,
{
    match player_money_gain_like_cpp(old_money, paid_money) {
        Some(g) => (g, false),
        None => (old_money, true),
    }
}

} // verus!
