use vstd::prelude::*;
use crate::codes::{BuyResult, InventoryResult};
use crate::vendor::{currency_known, vendor_currency_type_is_known, CurrencyTypesStore};

verus! {

/// Number of item and of currency costs an extended cost can name.
pub const MAX_ITEM_EXT_COST_ENTRIES: usize = 5;
/// Extended cost flag: the buyer must be in a guild.
pub const ITEM_EXT_COST_FLAG_REQUIRE_GUILD: u8 = 0x01;

/// An extended (non-money) price: items and currencies to hand in, and requirements.
#[derive(Clone, Copy, Debug, PartialEq, Eq)]
pub struct ItemExtendedCostEntry {
    pub id: u32,
    pub required_arena_rating: u16,
    pub arena_bracket: i8,
    pub flags: u8,
    pub min_faction_id: u8,
    pub min_reputation: i32,
    pub required_achievement: u16,
    pub item_id: [i32; 5],
    pub item_count: [u16; 5],
    pub currency_id: [u16; 5],
    pub currency_count: [u32; 5],
}

impl ItemExtendedCostEntry {
    pub open spec fn requires_guild_spec(&self) -> bool {
        self.flags & ITEM_EXT_COST_FLAG_REQUIRE_GUILD != 0
    }

    pub fn requires_guild(&self) -> (b: bool)
        ensures
            b == self.requires_guild_spec(),
    {
        self.flags & ITEM_EXT_COST_FLAG_REQUIRE_GUILD != 0
    }
}

/// The extended cost entry that a sequence names with `id` (the last one given).
pub open spec fn entry_with_id(s: Seq<ItemExtendedCostEntry>, id: u32) -> Option<ItemExtendedCostEntry>
    decreases s.len(),
{
    if s.len() == 0 {
        None
    } else if s.last().id == id {
        Some(s.last())
    } else {
        entry_with_id(s.drop_last(), id)
    }
}

/// The extended costs known to the server.
pub struct ItemExtendedCostStore {
    pub entries: Vec<ItemExtendedCostEntry>,
}

impl ItemExtendedCostStore {
    pub open spec fn lookup(&self, id: u32) -> Option<ItemExtendedCostEntry> {
        entry_with_id(self.entries@, id)
    }

    pub fn from_entries(entries: Vec<ItemExtendedCostEntry>) -> (s: ItemExtendedCostStore)
        ensures
            s.entries@ == entries@,
    {
        ItemExtendedCostStore { entries }
    }

    pub fn get(&self, id: u32) -> (r: Option<ItemExtendedCostEntry>)
        ensures
            r == self.lookup(id),
    {
        let mut found: Option<ItemExtendedCostEntry> = None;
        let mut i: usize = 0;
        while i < self.entries.len()
            invariant
                i <= self.entries.len(),
                found == entry_with_id(self.entries@.take(i as int), id),
            decreases self.entries.len() - i,
        {
            proof {
                assert(self.entries@.take(i + 1).drop_last() =~= self.entries@.take(i as int));
            }
            if self.entries[i].id == id {
                found = Some(self.entries[i]);
            }
            i = i + 1;
        }
        proof {
            assert(self.entries@.take(i as int) =~= self.entries@);
        }
        found
    }
}

pub open spec fn lookup_in(store: Option<&ItemExtendedCostStore>, id: u32) -> Option<ItemExtendedCostEntry> {
    match store {
        Some(s) => s.lookup(id),
        None => None,
    }
}

/// The flag bit that makes currency cost `index` count only currency earned this season.
pub open spec fn season_earned_bit(currency_index: int) -> u8 {
    if currency_index == 0 {
        0x02
    } else if currency_index == 1 {
        0x04
    } else if currency_index == 2 {
        0x08
    } else if currency_index == 3 {
        0x10
    } else if currency_index == 4 {
        0x20
    } else {
        0
    }
}

pub fn item_extended_cost_currency_requires_season_earned(flags: u8, currency_index: usize) -> (b:
    bool)
    ensures
        b == (flags & season_earned_bit(currency_index as int) != 0),
{
    proof {
        assert(flags & 0u8 == 0) by (bit_vector);
    }
    match currency_index {
        0 => flags & 0x02 != 0,
        1 => flags & 0x04 != 0,
        2 => flags & 0x08 != 0,
        3 => flags & 0x10 != 0,
        4 => flags & 0x20 != 0,
        _ => false,
    }
}

/// Why an extended cost stops a purchase.
#[derive(Clone, Copy, Debug, PartialEq, Eq, Structural)]
pub enum VendorExtendedCostBlock {
    Equip(InventoryResult),
    Buy(BuyResult),
    Silent,
}

/// The number of vendor stacks that `quantity` items make.
pub open spec fn stacks_of(buy_count: u32, quantity: u32) -> u32 {
    (quantity / (if buy_count == 0 {
        1
    } else {
        buy_count
    })) as u32
}

/// The answer that a deterministic query closure gives.
pub open spec fn answer<F: Fn(u32, u32) -> bool>(f: F, a: u32, b: u32) -> bool {
    choose|r: bool| call_ensures(f, (a, b), r)
}

/// A query closure that can always be called.
pub open spec fn total_query<F: Fn(u32, u32) -> bool>(f: F) -> bool {
    forall|a: u32, b: u32| call_requires(f, (a, b))
}

/// Whether checking an extended cost gets as far as asking what the player
/// holds: the cost is set, the quantity is a whole number of stacks, and the
/// cost is known.
pub open spec fn cost_consults_holdings(
    store: Option<&ItemExtendedCostStore>,
    extended_cost: u32,
    buy_count: u32,
    quantity: u32,
) -> bool {
    &&& extended_cost != 0
    &&& quantity % (if buy_count == 0 {
        1
    } else {
        buy_count
    }) == 0
    &&& lookup_in(store, extended_cost) is Some
}

/// A query closure that can always be called and always gives the same answer.
pub open spec fn deterministic_query<F: Fn(u32, u32) -> bool>(f: F) -> bool {
    &&& forall|a: u32, b: u32| call_requires(f, (a, b))
    &&& forall|a: u32, b: u32, r1: bool, r2: bool|
        call_ensures(f, (a, b), r1) && call_ensures(f, (a, b), r2) ==> r1 == r2
}

/// The first item cost, from `i` on, that the player cannot hand in.
pub open spec fn item_cost_block_from<F: Fn(u32, u32) -> bool>(
    e: ItemExtendedCostEntry,
    i: int,
    stacks: u32,
    has_item: F,
) -> Option<VendorExtendedCostBlock>
    decreases 5 - i,
{
    if i >= 5 || i < 0 {
        None
    } else if e.item_id[i] == 0 {
        item_cost_block_from(e, i + 1, stacks, has_item)
    } else if e.item_id[i] < 0 || !answer(
        has_item,
        e.item_id[i] as u32,
        (e.item_count[i] as u32).wrapping_mul(stacks),
    ) {
        Some(VendorExtendedCostBlock::Equip(InventoryResult::VendorMissingTurnins))
    } else {
        item_cost_block_from(e, i + 1, stacks, has_item)
    }
}

/// The first currency cost, from `i` on, that is unknown or that the player cannot pay.
pub open spec fn currency_cost_block_from<F: Fn(u32, u32) -> bool>(
    e: ItemExtendedCostEntry,
    i: int,
    stacks: u32,
    known: Option<&CurrencyTypesStore>,
    has_currency: F,
) -> Option<VendorExtendedCostBlock>
    decreases 5 - i,
{
    if i >= 5 || i < 0 {
        None
    } else if e.currency_id[i] == 0 {
        currency_cost_block_from(e, i + 1, stacks, known, has_currency)
    } else if !currency_known(known, e.currency_id[i] as u32) {
        Some(VendorExtendedCostBlock::Buy(BuyResult::CantFindItem))
    } else if e.flags & season_earned_bit(i) != 0 || !answer(
        has_currency,
        e.currency_id[i] as u32,
        e.currency_count[i].wrapping_mul(stacks),
    ) {
        Some(VendorExtendedCostBlock::Equip(InventoryResult::VendorMissingTurnins))
    } else {
        currency_cost_block_from(e, i + 1, stacks, known, has_currency)
    }
}

/// Why an extended cost stops a purchase, if it does: a quantity that is not a
/// whole number of stacks, an unknown cost (silently), a missing item, an unknown
/// or missing currency, an arena rating, a reputation, a guild or achievement
/// requirement, and lastly any purchase where currency-only success is not allowed.
pub open spec fn extended_cost_block<F1: Fn(u32, u32) -> bool, F2: Fn(u32, u32) -> bool>(
    entry: Option<ItemExtendedCostEntry>,
    known: Option<&CurrencyTypesStore>,
    has_item: F1,
    has_currency: F2,
    allow_currency_only_success: bool,
    extended_cost: u32,
    buy_count: u32,
    quantity: u32,
) -> Option<VendorExtendedCostBlock> {
    let per = if buy_count == 0 {
        1
    } else {
        buy_count
    };
    if extended_cost == 0 {
        None
    } else if quantity % per != 0 {
        Some(VendorExtendedCostBlock::Equip(InventoryResult::CantBuyQuantity))
    } else {
        match entry {
            None => Some(VendorExtendedCostBlock::Silent),
            Some(e) => {
                let stacks = stacks_of(buy_count, quantity);
                match item_cost_block_from(e, 0, stacks, has_item) {
                    Some(b) => Some(b),
                    None => match currency_cost_block_from(e, 0, stacks, known, has_currency) {
                        Some(b) => Some(b),
                        None => if e.required_arena_rating != 0 {
                            Some(VendorExtendedCostBlock::Equip(InventoryResult::CantEquipRank))
                        } else if e.min_faction_id != 0 {
                            Some(VendorExtendedCostBlock::Buy(BuyResult::ReputationRequire))
                        } else if e.requires_guild_spec() || e.required_achievement != 0 {
                            Some(
                                VendorExtendedCostBlock::Equip(
                                    InventoryResult::VendorMissingTurnins,
                                ),
                            )
                        } else if allow_currency_only_success {
                            None
                        } else {
                            Some(
                                VendorExtendedCostBlock::Equip(
                                    InventoryResult::VendorMissingTurnins,
                                ),
                            )
                        },
                    },
                }
            },
        }
    }
}

/// Checks an extended cost against what the player holds; `has_item_count` and
/// `has_currency` answer whether the player holds an amount of an item or currency.
/// They are asked only once the cost is set, the quantity is a whole number of
/// stacks and the cost is known, so before that nothing is required of them.
#[verifier::loop_isolation(false)]
pub fn vendor_buy_extended_cost_block_result<F1: Fn(u32, u32) -> bool, F2: Fn(u32, u32) -> bool>(
    extended_cost_store: Option<&ItemExtendedCostStore>,
    currency_store: Option<&CurrencyTypesStore>,
    has_item_count: F1,
    has_currency: F2,
    allow_currency_only_success: bool,
    extended_cost: u32,
    buy_count: u32,
    quantity: u32,
) -> (r: Option<VendorExtendedCostBlock>)
    requires
        cost_consults_holdings(extended_cost_store, extended_cost, buy_count, quantity)
            ==> total_query(has_item_count) && total_query(has_currency),
    ensures
        extended_cost == 0 ==> r is None,
        extended_cost != 0 && quantity % (if buy_count == 0 {
            1
        } else {
            buy_count
        }) != 0 ==> r == Some(VendorExtendedCostBlock::Equip(InventoryResult::CantBuyQuantity)),
        extended_cost != 0 && quantity % (if buy_count == 0 {
            1
        } else {
            buy_count
        }) == 0 && lookup_in(extended_cost_store, extended_cost) is None ==> r == Some(
            VendorExtendedCostBlock::Silent,
        ),
        deterministic_query(has_item_count) && deterministic_query(has_currency) ==> r
            == extended_cost_block(
            lookup_in(extended_cost_store, extended_cost),
            currency_store,
            has_item_count,
            has_currency,
            allow_currency_only_success,
            extended_cost,
            buy_count,
            quantity,
        ),
{
    if extended_cost == 0 {
        return None;
    }
    let per: u32 = if buy_count == 0 {
        1
    } else {
        buy_count
    };
    if quantity % per != 0 {
        return Some(VendorExtendedCostBlock::Equip(InventoryResult::CantBuyQuantity));
    }
    let e = match extended_cost_store {
        Some(store) => match store.get(extended_cost) {
            Some(e) => e,
            None => return Some(VendorExtendedCostBlock::Silent),
        },
        None => return Some(VendorExtendedCostBlock::Silent),
    };
    let stacks: u32 = quantity / per;
    let mut i: usize = 0;
    while i < 5
        invariant
            i <= 5,
            total_query(has_item_count),
            deterministic_query(has_item_count) ==> item_cost_block_from(e, 0, stacks, has_item_count) == item_cost_block_from(
                e,
                i as int,
                stacks,
                has_item_count,
            ),
        decreases 5 - i,
    {
        let item_id = e.item_id[i];
        if item_id != 0 {
            if item_id < 0 {
                return Some(VendorExtendedCostBlock::Equip(InventoryResult::VendorMissingTurnins));
            }
            let amount = (e.item_count[i] as u32).wrapping_mul(stacks);
            let ok = has_item_count(item_id as u32, amount);
            proof {
                assert(call_ensures(has_item_count, (item_id as u32, amount), ok));
                if deterministic_query(has_item_count) {
                    assert(ok == answer(has_item_count, item_id as u32, amount));
                }
            }
            if !ok {
                return Some(VendorExtendedCostBlock::Equip(InventoryResult::VendorMissingTurnins));
            }
        }
        i = i + 1;
    }
    let mut j: usize = 0;
    while j < 5
        invariant
            j <= 5,
            total_query(has_currency),
            deterministic_query(has_item_count) ==> item_cost_block_from(e, 0, stacks, has_item_count) is None,
            deterministic_query(has_currency) ==> currency_cost_block_from(e, 0, stacks, currency_store, has_currency)
                == currency_cost_block_from(e, j as int, stacks, currency_store, has_currency),
        decreases 5 - j,
    {
        let currency_id = e.currency_id[j];
        if currency_id != 0 {
            let cid = currency_id as u32;
            if !vendor_currency_type_is_known(currency_store, cid) {
                return Some(VendorExtendedCostBlock::Buy(BuyResult::CantFindItem));
            }
            if item_extended_cost_currency_requires_season_earned(e.flags, j) {
                return Some(VendorExtendedCostBlock::Equip(InventoryResult::VendorMissingTurnins));
            }
            let amount = e.currency_count[j].wrapping_mul(stacks);
            let ok = has_currency(cid, amount);
            proof {
                assert(call_ensures(has_currency, (cid, amount), ok));
                if deterministic_query(has_currency) {
                    assert(ok == answer(has_currency, cid, amount));
                }
            }
            if !ok {
                return Some(VendorExtendedCostBlock::Equip(InventoryResult::VendorMissingTurnins));
            }
        }
        j = j + 1;
    }
    if e.required_arena_rating != 0 {
        return Some(VendorExtendedCostBlock::Equip(InventoryResult::CantEquipRank));
    }
    if e.min_faction_id != 0 {
        return Some(VendorExtendedCostBlock::Buy(BuyResult::ReputationRequire));
    }
    if e.requires_guild() || e.required_achievement != 0 {
        return Some(VendorExtendedCostBlock::Equip(InventoryResult::VendorMissingTurnins));
    }
    if allow_currency_only_success {
        None
    } else {
        Some(VendorExtendedCostBlock::Equip(InventoryResult::VendorMissingTurnins))
    }
}

/// The item costs from position `i` on: each positive item id with its count
/// times the number of stacks (wrapping like the 32-bit product).
pub open spec fn item_costs_from(e: ItemExtendedCostEntry, i: int, stacks: u32) -> Seq<(u32, u32)>
    decreases 5 - i,
{
    if i >= 5 || i < 0 {
        Seq::empty()
    } else if e.item_id[i] > 0 {
        seq![(e.item_id[i] as u32, (e.item_count[i] as u32).wrapping_mul(stacks))]
            + item_costs_from(e, i + 1, stacks)
    } else {
        item_costs_from(e, i + 1, stacks)
    }
}

/// The currency costs from position `i` on: each nonzero currency id with its
/// count times the number of stacks (wrapping like the 32-bit product).
pub open spec fn currency_costs_from(e: ItemExtendedCostEntry, i: int, stacks: u32) -> Seq<
    (u32, u32),
>
    decreases 5 - i,
{
    if i >= 5 || i < 0 {
        Seq::empty()
    } else if e.currency_id[i] != 0 {
        seq![(e.currency_id[i] as u32, e.currency_count[i].wrapping_mul(stacks))]
            + currency_costs_from(e, i + 1, stacks)
    } else {
        currency_costs_from(e, i + 1, stacks)
    }
}

/// The items that a purchase of `quantity` hands in; empty without an extended
/// cost or when the cost is unknown.
pub fn vendor_buy_extended_cost_item_costs(
    extended_cost_store: Option<&ItemExtendedCostStore>,
    extended_cost: u32,
    buy_count: u32,
    quantity: u32,
) -> (r: Vec<(u32, u32)>)
    ensures
        r@ == (if extended_cost == 0 {
            Seq::<(u32, u32)>::empty()
        } else {
            match lookup_in(extended_cost_store, extended_cost) {
                Some(e) => item_costs_from(e, 0, stacks_of(buy_count, quantity)),
                None => Seq::<(u32, u32)>::empty(),
            }
        }),
{
    let mut out: Vec<(u32, u32)> = Vec::new();
    if extended_cost == 0 {
        return out;
    }
    let e = match extended_cost_store {
        Some(store) => match store.get(extended_cost) {
            Some(e) => e,
            None => return out,
        },
        None => return out,
    };
    let per: u32 = if buy_count == 0 {
        1
    } else {
        buy_count
    };
    let stacks: u32 = quantity / per;
    let mut i: usize = 0;
    while i < 5
        invariant
            i <= 5,
            out@ + item_costs_from(e, i as int, stacks) == item_costs_from(e, 0, stacks),
        decreases 5 - i,
    {
        let ghost before = out@;
        if e.item_id[i] > 0 {
            out.push((e.item_id[i] as u32, (e.item_count[i] as u32).wrapping_mul(stacks)));
            proof {
                let head = seq![(e.item_id[i as int] as u32, (e.item_count[i as int] as u32).wrapping_mul(stacks))];
                assert(before + (head + item_costs_from(e, i + 1, stacks)) =~= out@ + item_costs_from(e, i + 1, stacks));
            }
        }
        i = i + 1;
    }
    proof {
        assert(out@ + Seq::<(u32, u32)>::empty() =~= out@);
    }
    out
}

/// The currencies that a purchase of `quantity` pays; empty without an extended
/// cost or when the cost is unknown.
pub fn vendor_buy_extended_cost_currency_costs(
    extended_cost_store: Option<&ItemExtendedCostStore>,
    extended_cost: u32,
    buy_count: u32,
    quantity: u32,
) -> (r: Vec<(u32, u32)>)
    ensures
        r@ == (if extended_cost == 0 {
            Seq::<(u32, u32)>::empty()
        } else {
            match lookup_in(extended_cost_store, extended_cost) {
                Some(e) => currency_costs_from(e, 0, stacks_of(buy_count, quantity)),
                None => Seq::<(u32, u32)>::empty(),
            }
        }),
{
    let mut out: Vec<(u32, u32)> = Vec::new();
    if extended_cost == 0 {
        return out;
    }
    let e = match extended_cost_store {
        Some(store) => match store.get(extended_cost) {
            Some(e) => e,
            None => return out,
        },
        None => return out,
    };
    let per: u32 = if buy_count == 0 {
        1
    } else {
        buy_count
    };
    let stacks: u32 = quantity / per;
    let mut i: usize = 0;
    while i < 5
        invariant
            i <= 5,
            out@ + currency_costs_from(e, i as int, stacks) == currency_costs_from(e, 0, stacks),
        decreases 5 - i,
    {
        let ghost before = out@;
        if e.currency_id[i] != 0 {
            out.push((e.currency_id[i] as u32, e.currency_count[i].wrapping_mul(stacks)));
            proof {
                let head = seq![(e.currency_id[i as int] as u32, e.currency_count[i as int].wrapping_mul(stacks))];
                assert(before + (head + currency_costs_from(e, i + 1, stacks)) =~= out@ + currency_costs_from(e, i + 1, stacks));
            }
        }
        i = i + 1;
    }
    proof {
        assert(out@ + Seq::<(u32, u32)>::empty() =~= out@);
    }
    out
}

proof fn lemma_items_pass_from<F: Fn(u32, u32) -> bool>(
    e: ItemExtendedCostEntry,
    i: int,
    stacks: u32,
    has_item: F,
)
    requires
        0 <= i <= 5,
        item_cost_block_from(e, i, stacks, has_item) is None,
    ensures
        forall|k: int|
            0 <= k < item_costs_from(e, i, stacks).len() ==> answer(
                has_item,
                #[trigger] item_costs_from(e, i, stacks)[k].0,
                item_costs_from(e, i, stacks)[k].1,
            ),
    decreases 5 - i,
{
    if i < 5 {
        lemma_items_pass_from(e, i + 1, stacks, has_item);
        if e.item_id[i] > 0 {
            let head = seq![(e.item_id[i] as u32, (e.item_count[i] as u32).wrapping_mul(stacks))];
            let rest = item_costs_from(e, i + 1, stacks);
            assert(item_costs_from(e, i, stacks) == head + rest);
            assert(answer(has_item, e.item_id[i] as u32, (e.item_count[i] as u32).wrapping_mul(stacks)));
            assert forall|k: int| 0 <= k < (head + rest).len() implies answer(
                has_item,
                #[trigger] (head + rest)[k].0,
                (head + rest)[k].1,
            ) by {
                if k > 0 {
                    assert((head + rest)[k] == rest[k - 1]);
                } else {
                    assert((head + rest)[k] == head[0]);
                }
            }
        } else {
            assert(item_costs_from(e, i, stacks) == item_costs_from(e, i + 1, stacks));
        }
    }
}

proof fn lemma_currencies_pass_from<F: Fn(u32, u32) -> bool>(
    e: ItemExtendedCostEntry,
    i: int,
    stacks: u32,
    known: Option<&CurrencyTypesStore>,
    has_currency: F,
)
    requires
        0 <= i <= 5,
        currency_cost_block_from(e, i, stacks, known, has_currency) is None,
    ensures
        forall|k: int|
            0 <= k < currency_costs_from(e, i, stacks).len() ==> currency_known(
                known,
                #[trigger] currency_costs_from(e, i, stacks)[k].0,
            ) && answer(
                has_currency,
                currency_costs_from(e, i, stacks)[k].0,
                currency_costs_from(e, i, stacks)[k].1,
            ),
    decreases 5 - i,
{
    if i < 5 {
        lemma_currencies_pass_from(e, i + 1, stacks, known, has_currency);
        if e.currency_id[i] != 0 {
            let head = seq![(e.currency_id[i] as u32, e.currency_count[i].wrapping_mul(stacks))];
            let rest = currency_costs_from(e, i + 1, stacks);
            assert(currency_costs_from(e, i, stacks) == head + rest);
            assert(currency_known(known, e.currency_id[i] as u32));
            assert(answer(has_currency, e.currency_id[i] as u32, e.currency_count[i].wrapping_mul(stacks)));
            assert forall|k: int| 0 <= k < (head + rest).len() implies currency_known(
                known,
                #[trigger] (head + rest)[k].0,
            ) && answer(has_currency, (head + rest)[k].0, (head + rest)[k].1) by {
                if k > 0 {
                    assert((head + rest)[k] == rest[k - 1]);
                } else {
                    assert((head + rest)[k] == head[0]);
                }
            }
        } else {
            assert(currency_costs_from(e, i, stacks) == currency_costs_from(e, i + 1, stacks));
        }
    }
}

/// A purchase without an extended cost is never stopped by one, and one whose
/// quantity is not a whole number of vendor stacks is refused with the
/// quantity error before anything the player holds is looked at.
pub proof fn lemma_extended_cost_preflight<F1: Fn(u32, u32) -> bool, F2: Fn(u32, u32) -> bool>(
    entry: Option<ItemExtendedCostEntry>,
    known: Option<&CurrencyTypesStore>,
    has_item: F1,
    has_currency: F2,
    allow_currency_only_success: bool,
    extended_cost: u32,
    buy_count: u32,
    quantity: u32,
)
    ensures
        extended_cost == 0 ==> extended_cost_block(
            entry,
            known,
            has_item,
            has_currency,
            allow_currency_only_success,
            extended_cost,
            buy_count,
            quantity,
        ) is None,
        extended_cost != 0 && quantity % (if buy_count == 0 {
            1
        } else {
            buy_count
        }) != 0 ==> extended_cost_block(
            entry,
            known,
            has_item,
            has_currency,
            allow_currency_only_success,
            extended_cost,
            buy_count,
            quantity,
        ) == Some(VendorExtendedCostBlock::Equip(InventoryResult::CantBuyQuantity)),
{
}

/// A purchase that passes the extended-cost checks can pay every item and
/// currency cost that the cost lists: the player holds each item amount and
/// each currency amount, and each currency is known.
pub proof fn lemma_passed_cost_is_payable<F1: Fn(u32, u32) -> bool, F2: Fn(u32, u32) -> bool>(
    store: Option<&ItemExtendedCostStore>,
    known: Option<&CurrencyTypesStore>,
    has_item: F1,
    has_currency: F2,
    allow_currency_only_success: bool,
    extended_cost: u32,
    buy_count: u32,
    quantity: u32,
)
    requires
        extended_cost_block(
            lookup_in(store, extended_cost),
            known,
            has_item,
            has_currency,
            allow_currency_only_success,
            extended_cost,
            buy_count,
            quantity,
        ) is None,
        lookup_in(store, extended_cost) is Some,
        extended_cost != 0,
    ensures
        ({
            let e = lookup_in(store, extended_cost)->0;
            let stacks = stacks_of(buy_count, quantity);
            &&& forall|k: int|
                0 <= k < item_costs_from(e, 0, stacks).len() ==> answer(
                    has_item,
                    #[trigger] item_costs_from(e, 0, stacks)[k].0,
                    item_costs_from(e, 0, stacks)[k].1,
                )
            &&& forall|k: int|
                0 <= k < currency_costs_from(e, 0, stacks).len() ==> currency_known(
                    known,
                    #[trigger] currency_costs_from(e, 0, stacks)[k].0,
                ) && answer(
                    has_currency,
                    currency_costs_from(e, 0, stacks)[k].0,
                    currency_costs_from(e, 0, stacks)[k].1,
                )
        }),
{
    let e = lookup_in(store, extended_cost)->0;
    let stacks = stacks_of(buy_count, quantity);
    lemma_items_pass_from(e, 0, stacks, has_item);
    lemma_currencies_pass_from(e, 0, stacks, known, has_currency);
}

} // verus!
