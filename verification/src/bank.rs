use vstd::prelude::*;

verus! {

/// Number of bank bag slots whose flags a player can set.
pub const BANK_BAG_FLAG_SLOTS: usize = 7;

/// The bank bag slot a player buys next, counting from 1.
pub fn next_bank_bag_slot(current_count: u8) -> (n: u32)
    ensures
        n == current_count + 1,
{
    current_count as u32 + 1
}

/// The outcome of buying bank bag slot `next_slot` at `price` (if the slot has
/// a price) from a banker: the new slot count (capped at 255) and money, or
/// `None` when no banker the player can use is at hand, there is no price, or
/// the player cannot pay.
pub fn bank_slot_purchase(banker_at_hand: bool, next_slot: u32, price: Option<u32>, money: u64) -> (r:
    Option<(u8, u64)>)
    ensures
        !banker_at_hand ==> r is None,
        banker_at_hand ==> r == (match price {
            None => None,
            Some(p) => if money < p {
                None
            } else {
                Some(
                    (
                        if next_slot > 255 {
                            255u8
                        } else {
                            next_slot as u8
                        },
                        (money - p) as u64,
                    ),
                )
            },
        }),
{
    if !banker_at_hand {
        return None;
    }
    let price = match price {
        Some(p) => p,
        None => return None,
    };
    if money < price as u64 {
        return None;
    }
    let new_count: u8 = if next_slot > 255 {
        255
    } else {
        next_slot as u8
    };
    Some((new_count, money - price as u64))
}

/// The bank bag flags after a request to turn flag bit `flag` of bag slot
/// `slot` on or off; `None` when the player cannot use the bank currently
/// opened, for a slot outside 0..7, or for a bit outside 0..32.
pub fn bank_bag_slot_flag_update(
    can_use_bank: bool,
    slot: i32,
    flag: u32,
    enabled: bool,
    current: Option<u32>,
) -> (r: Option<(usize, u32)>)
    ensures
        r == (if !can_use_bank || slot < 0 || slot >= 7 || flag >= 32 {
            None
        } else {
            let cur = match current {
                Some(c) => c,
                None => 0u32,
            };
            Some(
                (
                    slot as usize,
                    if enabled {
                        cur | (1u32 << flag)
                    } else {
                        cur & !(1u32 << flag)
                    },
                ),
            )
        }),
{
    if !can_use_bank || slot < 0 {
        return None;
    }
    let slot = slot as usize;
    if slot >= BANK_BAG_FLAG_SLOTS {
        return None;
    }
    if flag >= 32 {
        return None;
    }
    let cur = match current {
        Some(c) => c,
        None => 0,
    };
    let mask = 1u32 << flag;
    let updated = if enabled {
        cur | mask
    } else {
        cur & !mask
    };
    Some((slot, updated))
}

/// Turning a flag bit on sets exactly that bit; turning it off clears exactly
/// that bit; the other bits keep their values.
pub proof fn lemma_bank_flag_touches_one_bit(cur: u32, flag: u32, other: u32)
    requires
        flag < 32,
        other < 32,
        other != flag,
    ensures
        (cur | (1u32 << flag)) & (1u32 << flag) != 0,
        (cur & !(1u32 << flag)) & (1u32 << flag) == 0,
        ((cur | (1u32 << flag)) & (1u32 << other)) == (cur & (1u32 << other)),
        ((cur & !(1u32 << flag)) & (1u32 << other)) == (cur & (1u32 << other)),
{
    assert(flag < 32 ==> (cur | (1u32 << flag)) & (1u32 << flag) != 0) by (bit_vector);
    assert(flag < 32 ==> (cur & !(1u32 << flag)) & (1u32 << flag) == 0) by (bit_vector);
    assert(flag < 32 && other < 32 && other != flag ==> ((cur | (1u32 << flag)) & (1u32 << other))
        == (cur & (1u32 << other))) by (bit_vector);
    assert(flag < 32 && other < 32 && other != flag ==> ((cur & !(1u32 << flag)) & (1u32
        << other)) == (cur & (1u32 << other))) by (bit_vector);
}

} // verus!
