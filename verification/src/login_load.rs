use vstd::prelude::*;
use std::collections::{HashMap, HashSet};
use crate::creation::{inventory_type_of_slot, slot_to_inventory_type};
use crate::items::LoadedItemRefundDecision;
use crate::slots::{BUYBACK_SLOT_END, BUYBACK_SLOT_START, EQUIPMENT_SLOT_END, bag_slot, is_represented_bag_slot};
use crate::vendor::CurrencyTypesStore;

verus! {

/// One past the last top-level slot an item row may be loaded into.
pub const LOADED_ITEM_SLOT_LIMIT: u8 = 141;

/// What loading a top-level item row puts in place.
#[derive(Clone, Copy, Debug, PartialEq, Eq, Structural)]
pub struct LoadedItemRow {
    /// The item flags the item is loaded with (cleared refund flags included).
    pub stored_flags: u32,
    /// The item's inventory type: the template's, else the one an equipment slot implies.
    pub inventory_type: Option<u8>,
    /// Whether the item goes to the buyback list rather than the inventory.
    pub to_buyback: bool,
    /// Whether the item is shown on the character model.
    pub visible: bool,
    /// The item's maximum durability: the template's, unless the row's durability is higher.
    pub max_durability: u32,
}

/// How a top-level item row is loaded at login: rows without an item or past
/// the top-level slots are skipped.
pub open spec fn loaded_item_row(
    slot: u8,
    item_entry: u32,
    item_flags: u32,
    refund: LoadedItemRefundDecision,
    template_inventory_type: Option<u8>,
    template_max_durability: u32,
    durability: u32,
) -> Option<LoadedItemRow> {
    if item_entry > 0 && slot < LOADED_ITEM_SLOT_LIMIT {
        Some(
            LoadedItemRow {
                stored_flags: match refund {
                    LoadedItemRefundDecision::Clear { new_flags } => new_flags,
                    _ => item_flags,
                },
                inventory_type: match template_inventory_type {
                    Some(t) => Some(t),
                    None => inventory_type_of_slot(slot),
                },
                to_buyback: BUYBACK_SLOT_START <= slot && slot < BUYBACK_SLOT_END,
                visible: slot < EQUIPMENT_SLOT_END,
                max_durability: if template_max_durability >= durability {
                    template_max_durability
                } else {
                    durability
                },
            },
        )
    } else {
        None
    }
}

/// A loaded item's maximum durability is the larger of its template's
/// maximum and the durability its row was saved with: never below either.
pub proof fn lemma_loaded_max_durability(
    slot: u8,
    item_entry: u32,
    item_flags: u32,
    refund: LoadedItemRefundDecision,
    template_inventory_type: Option<u8>,
    template_max_durability: u32,
    durability: u32,
)
    ensures
        loaded_item_row(slot, item_entry, item_flags, refund, template_inventory_type,
            template_max_durability, durability) matches Some(row) ==> {
            &&& row.max_durability >= template_max_durability
            &&& row.max_durability >= durability
            &&& (row.max_durability == template_max_durability || row.max_durability == durability)
        },
{
}

pub fn load_item_row(
    slot: u8,
    item_entry: u32,
    item_flags: u32,
    refund: LoadedItemRefundDecision,
    template_inventory_type: Option<u8>,
    template_max_durability: u32,
    durability: u32,
) -> (r: Option<LoadedItemRow>)
    ensures
        r == loaded_item_row(
            slot,
            item_entry,
            item_flags,
            refund,
            template_inventory_type,
            template_max_durability,
            durability,
        ),
        r is Some <==> item_entry > 0 && slot < 141,
        r matches Some(row) ==> {
            &&& row.max_durability >= template_max_durability
            &&& row.max_durability >= durability
            &&& (row.max_durability == template_max_durability || row.max_durability == durability)
            &&& row.visible <==> slot < 19
            &&& row.to_buyback <==> 94 <= slot < 106
            &&& template_inventory_type is Some ==> row.inventory_type == template_inventory_type
            &&& (refund is Clear ==> row.stored_flags == refund->new_flags)
            &&& (!(refund is Clear) ==> row.stored_flags == item_flags)
        },
{
    if item_entry == 0 || slot >= LOADED_ITEM_SLOT_LIMIT {
        return None;
    }
    let stored_flags = match refund {
        LoadedItemRefundDecision::Clear { new_flags } => new_flags,
        _ => item_flags,
    };
    let inventory_type = match template_inventory_type {
        Some(t) => Some(t),
        None => slot_to_inventory_type(slot),
    };
    Some(
        LoadedItemRow {
            stored_flags,
            inventory_type,
            to_buyback: BUYBACK_SLOT_START <= slot && slot < BUYBACK_SLOT_END,
            visible: slot < EQUIPMENT_SLOT_END,
            max_durability: if template_max_durability >= durability {
                template_max_durability
            } else {
                durability
            },
        },
    )
}

/// Whether a bag content row is loaded: it holds an item, names a bag slot,
/// and that bag slot holds a bag.
pub fn bag_content_row_loaded(item_entry: u32, bag_slot_id: u8, bag_present: bool) -> (b: bool)
    ensures
        b == (item_entry > 0 && bag_slot(bag_slot_id) && bag_present),
{
    item_entry > 0 && is_represented_bag_slot(bag_slot_id) && bag_present
}

/// The spells a character knows from its spell rows (spell, active), in order:
/// the active rows with a spell id.
pub open spec fn spells_from_rows(rows: Seq<(u32, u8)>) -> Seq<i32>
    decreases rows.len(),
{
    if rows.len() == 0 {
        Seq::empty()
    } else if rows.last().0 > 0 && rows.last().1 != 0 {
        spells_from_rows(rows.drop_last()).push(rows.last().0 as i32)
    } else {
        spells_from_rows(rows.drop_last())
    }
}

/// The known spells are exactly the spells of the rows that are active and
/// name a spell: every such row's spell is known, and every known spell came
/// from such a row.
pub proof fn lemma_known_spells_members(rows: Seq<(u32, u8)>)
    ensures
        forall|k: int| 0 <= k < rows.len() && (#[trigger] rows[k]).0 > 0 && rows[k].1 != 0
            ==> spells_from_rows(rows).contains(rows[k].0 as i32),
        forall|i: int| 0 <= i < spells_from_rows(rows).len() ==> exists|k: int|
            0 <= k < rows.len() && (#[trigger] rows[k]).0 > 0 && rows[k].1 != 0 && rows[k].0 as i32
                == #[trigger] spells_from_rows(rows)[i],
    decreases rows.len(),
{
    if rows.len() > 0 {
        let init = rows.drop_last();
        lemma_known_spells_members(init);
        let prev = spells_from_rows(init);
        let cur = spells_from_rows(rows);
        assert forall|k: int| 0 <= k < rows.len() && (#[trigger] rows[k]).0 > 0 && rows[k].1 != 0
            implies cur.contains(rows[k].0 as i32) by {
            if k < rows.len() - 1 {
                assert(init[k] == rows[k]);
                let w = choose|w: int| 0 <= w < prev.len() && prev[w] == rows[k].0 as i32;
                assert(cur[w] == prev[w]);
            } else {
                assert(cur[cur.len() - 1] == rows[k].0 as i32);
            }
        }
        assert forall|i: int| 0 <= i < cur.len() implies exists|k: int|
            0 <= k < rows.len() && (#[trigger] rows[k]).0 > 0 && rows[k].1 != 0 && rows[k].0 as i32
                == #[trigger] cur[i] by {
            if i < prev.len() {
                assert(cur[i] == prev[i]);
                let k = choose|k: int|
                    0 <= k < init.len() && (#[trigger] init[k]).0 > 0 && init[k].1 != 0
                        && init[k].0 as i32 == prev[i];
                assert(rows[k] == init[k]);
            } else {
                assert(rows[rows.len() - 1].0 as i32 == cur[i]);
            }
        }
    }
}

pub fn known_spells_from_rows(rows: &Vec<(u32, u8)>) -> (r: Vec<i32>)
    ensures
        r@ == spells_from_rows(rows@),
{
    let mut out: Vec<i32> = Vec::new();
    let mut i: usize = 0;
    while i < rows.len()
        invariant
            i <= rows.len(),
            out@ == spells_from_rows(rows@.take(i as int)),
        decreases rows.len() - i,
    {
        proof {
            assert(rows@.take(i + 1).drop_last() =~= rows@.take(i as int));
        }
        let (spell_id, active) = rows[i];
        if spell_id > 0 && active != 0 {
            out.push(spell_id as i32);
        }
        i = i + 1;
    }
    proof {
        assert(rows@.take(i as int) =~= rows@);
    }
    out
}

/// The skill values that a character's skill rows give: each row with a
/// skill id above 0 sets that skill's value, a later row for the same skill
/// replacing an earlier one.
pub open spec fn skills_from_rows(rows: Seq<(u16, u16)>) -> Map<u16, u16>
    decreases rows.len(),
{
    if rows.len() == 0 {
        Map::empty()
    } else if rows.last().0 > 0 {
        skills_from_rows(rows.drop_last()).insert(rows.last().0, rows.last().1)
    } else {
        skills_from_rows(rows.drop_last())
    }
}

/// The known skill ids and the value of each, from the character's skill rows
/// of (skill id, value).
pub fn load_skills(rows: &Vec<(u16, u16)>) -> (r: (HashSet<u16>, HashMap<u16, u16>))
    ensures
        r.1@ == skills_from_rows(rows@),
        r.0@ == skills_from_rows(rows@).dom(),
{
    broadcast use vstd::std_specs::hash::group_hash_axioms;

    let mut known: HashSet<u16> = HashSet::new();
    let mut values: HashMap<u16, u16> = HashMap::new();
    let mut i: usize = 0;
    while i < rows.len()
        invariant
            i <= rows.len(),
            values@ == skills_from_rows(rows@.take(i as int)),
            known@ == skills_from_rows(rows@.take(i as int)).dom(),
        decreases rows.len() - i,
    {
        proof {
            assert(rows@.take(i + 1).drop_last() =~= rows@.take(i as int));
        }
        let (skill_id, value) = rows[i];
        if skill_id > 0 {
            known.insert(skill_id);
            values.insert(skill_id, value);
            proof {
                assert(known@ =~= skills_from_rows(rows@.take(i + 1)).dom());
            }
        }
        i = i + 1;
    }
    proof {
        assert(rows@.take(i as int) =~= rows@);
    }
    (known, values)
}

/// `known` with each spell of `extra` that it lacks appended, in order.
pub open spec fn merged_spells(known: Seq<i32>, extra: Seq<i32>) -> Seq<i32>
    decreases extra.len(),
{
    if extra.len() == 0 {
        known
    } else {
        let m = merged_spells(known, extra.drop_last());
        if m.contains(extra.last()) {
            m
        } else {
            m.push(extra.last())
        }
    }
}

/// Adds the spells a character learns automatically to those it knows,
/// each at most once.
pub fn merge_known_spells(known: &mut Vec<i32>, extra: &Vec<i32>)
    ensures
        final(known)@ == merged_spells(old(known)@, extra@),
{
    let ghost start = known@;
    let mut i: usize = 0;
    while i < extra.len()
        invariant
            i <= extra.len(),
            known@ == merged_spells(start, extra@.take(i as int)),
        decreases extra.len() - i,
    {
        proof {
            assert(extra@.take(i + 1).drop_last() =~= extra@.take(i as int));
        }
        let s = extra[i];
        let mut found = false;
        let mut j: usize = 0;
        while j < known.len()
            invariant
                j <= known.len(),
                found == (exists|k: int| 0 <= k < j && known@[k] == s),
            decreases known.len() - j,
        {
            if known[j] == s {
                found = true;
            }
            j = j + 1;
        }
        if !found {
            known.push(s);
        }
        i = i + 1;
    }
    proof {
        assert(extra@.take(i as int) =~= extra@);
    }
}

/// Merging never loses a spell, and every spell of the result was known or
/// learned.
pub proof fn lemma_merged_spells_members(known: Seq<i32>, extra: Seq<i32>, s: i32)
    ensures
        merged_spells(known, extra).contains(s) <==> (known.contains(s) || extra.contains(s)),
    decreases extra.len(),
{
    if extra.len() > 0 {
        lemma_merged_spells_members(known, extra.drop_last(), s);
        let m = merged_spells(known, extra.drop_last());
        vstd::seq_lib::lemma_seq_contains_after_push(m, extra.last(), s);
        if extra.drop_last().contains(s) {
            let k = choose|k: int| 0 <= k < extra.drop_last().len() && extra.drop_last()[k] == s;
            assert(extra[k] == s);
        }
        if extra.contains(s) && s != extra.last() {
            let k = choose|k: int| 0 <= k < extra.len() && extra[k] == s;
            assert(k < extra.len() - 1);
            assert(extra.drop_last()[k] == s);
        }
        if s == extra.last() {
            assert(extra[extra.len() - 1] == s);
        }
    }
}

/// The account mounts kept are exactly the rows that name a spell the mount
/// store knows (any spell above 0 when no store is loaded).
pub proof fn lemma_mounts_members(rows: Seq<(i32, u8)>, known: Option<Seq<u32>>)
    ensures
        forall|k: int| 0 <= k < rows.len() && (#[trigger] rows[k]).0 > 0 && (known is None
            || known->0.contains(rows[k].0 as u32)) ==> mounts_from_rows(rows, known).contains(
            rows[k],
        ),
        forall|i: int| 0 <= i < mounts_from_rows(rows, known).len() ==> exists|k: int|
            0 <= k < rows.len() && (#[trigger] rows[k]).0 > 0 && (known is None || known->0.contains(
                rows[k].0 as u32,
            )) && rows[k] == #[trigger] mounts_from_rows(rows, known)[i],
    decreases rows.len(),
{
    if rows.len() > 0 {
        let init = rows.drop_last();
        lemma_mounts_members(init, known);
        let prev = mounts_from_rows(init, known);
        let cur = mounts_from_rows(rows, known);
        assert forall|k: int| 0 <= k < rows.len() && (#[trigger] rows[k]).0 > 0 && (known is None
            || known->0.contains(rows[k].0 as u32)) implies cur.contains(rows[k]) by {
            if k < rows.len() - 1 {
                assert(init[k] == rows[k]);
                let w = choose|w: int| 0 <= w < prev.len() && prev[w] == rows[k];
                assert(cur[w] == prev[w]);
            } else {
                assert(cur[cur.len() - 1] == rows[k]);
            }
        }
        assert forall|i: int| 0 <= i < cur.len() implies exists|k: int|
            0 <= k < rows.len() && (#[trigger] rows[k]).0 > 0 && (known is None || known->0.contains(
                rows[k].0 as u32,
            )) && rows[k] == #[trigger] cur[i] by {
            if i < prev.len() {
                assert(cur[i] == prev[i]);
                let k = choose|k: int|
                    0 <= k < init.len() && (#[trigger] init[k]).0 > 0 && (known is None
                        || known->0.contains(init[k].0 as u32)) && init[k] == prev[i];
                assert(rows[k] == init[k]);
            } else {
                assert(rows[rows.len() - 1] == cur[i]);
            }
        }
    }
}

/// The rows of an account collection whose key is not negative, with the key
/// as an unsigned number, in order.
pub open spec fn nonnegative_keyed<T>(rows: Seq<(i32, T)>) -> Seq<(u32, T)>
    decreases rows.len(),
{
    if rows.len() == 0 {
        Seq::empty()
    } else if rows.last().0 >= 0 {
        nonnegative_keyed(rows.drop_last()).push((rows.last().0 as u32, rows.last().1))
    } else {
        nonnegative_keyed(rows.drop_last())
    }
}

/// The kept rows are exactly those whose key is not negative, with the same
/// key and value.
pub proof fn lemma_nonnegative_keyed_members<T>(rows: Seq<(i32, T)>)
    ensures
        forall|k: int| 0 <= k < rows.len() && (#[trigger] rows[k]).0 >= 0 ==> nonnegative_keyed(
            rows,
        ).contains((rows[k].0 as u32, rows[k].1)),
        forall|i: int| 0 <= i < nonnegative_keyed(rows).len() ==> (#[trigger] nonnegative_keyed(
            rows,
        )[i]).0 <= i32::MAX && rows.contains(
            (nonnegative_keyed(rows)[i].0 as i32, nonnegative_keyed(rows)[i].1),
        ),
    decreases rows.len(),
{
    if rows.len() > 0 {
        let init = rows.drop_last();
        lemma_nonnegative_keyed_members(init);
        let prev = nonnegative_keyed(init);
        let cur = nonnegative_keyed(rows);
        assert forall|k: int| 0 <= k < rows.len() && (#[trigger] rows[k]).0 >= 0 implies cur.contains(
            (rows[k].0 as u32, rows[k].1),
        ) by {
            if k < rows.len() - 1 {
                assert(init[k] == rows[k]);
                let w = choose|w: int| 0 <= w < prev.len() && prev[w] == (init[k].0 as u32, init[k].1);
                assert(cur[w] == prev[w]);
            } else {
                assert(cur[cur.len() - 1] == (rows[k].0 as u32, rows[k].1));
            }
        }
        assert forall|i: int| 0 <= i < cur.len() implies (#[trigger] cur[i]).0 <= i32::MAX
            && rows.contains((cur[i].0 as i32, cur[i].1)) by {
            if i < prev.len() {
                assert(cur[i] == prev[i]);
                let p = (prev[i].0 as i32, prev[i].1);
                let k = choose|k: int| 0 <= k < init.len() && init[k] == p;
                assert(rows[k] == init[k]);
            } else {
                let last = rows.len() - 1;
                assert(cur[i] == (rows[last].0 as u32, rows[last].1));
                assert(rows[last] == (cur[i].0 as i32, cur[i].1));
            }
        }
    }
}

/// Keeps the rows of an account collection (toys, heirlooms, appearance and
/// illusion blocks) whose key is not negative.
pub fn keep_nonnegative_keys<T: Copy>(rows: &Vec<(i32, T)>) -> (r: Vec<(u32, T)>)
    ensures
        r@ == nonnegative_keyed(rows@),
{
    let mut out: Vec<(u32, T)> = Vec::new();
    let mut i: usize = 0;
    while i < rows.len()
        invariant
            i <= rows.len(),
            out@ == nonnegative_keyed(rows@.take(i as int)),
        decreases rows.len() - i,
    {
        proof {
            assert(rows@.take(i + 1).drop_last() =~= rows@.take(i as int));
        }
        let (key, value) = rows[i];
        if key >= 0 {
            out.push((key as u32, value));
        }
        i = i + 1;
    }
    proof {
        assert(rows@.take(i as int) =~= rows@);
    }
    out
}

/// The account mounts kept from the mount rows (spell, flags): those with a
/// spell id that the mount store knows as a mount's source spell (any, when
/// no mount store is loaded), in order.
pub open spec fn mounts_from_rows(rows: Seq<(i32, u8)>, known: Option<Seq<u32>>) -> Seq<(i32, u8)>
    decreases rows.len(),
{
    if rows.len() == 0 {
        Seq::empty()
    } else {
        let (spell_id, _) = rows.last();
        let kept = spell_id > 0 && match known {
            Some(k) => k.contains(spell_id as u32),
            None => true,
        };
        if kept {
            mounts_from_rows(rows.drop_last(), known).push(rows.last())
        } else {
            mounts_from_rows(rows.drop_last(), known)
        }
    }
}

pub fn account_mounts_from_rows(rows: &Vec<(i32, u8)>, known_mount_spells: Option<&Vec<u32>>) -> (r:
    Vec<(i32, u8)>)
    ensures
        r@ == mounts_from_rows(
            rows@,
            match known_mount_spells {
                Some(k) => Some(k@),
                None => None,
            },
        ),
{
    let ghost known = match known_mount_spells {
        Some(k) => Some(k@),
        None => None::<Seq<u32>>,
    };
    let mut out: Vec<(i32, u8)> = Vec::new();
    let mut i: usize = 0;
    while i < rows.len()
        invariant
            i <= rows.len(),
            known == match known_mount_spells {
                Some(k) => Some(k@),
                None => None::<Seq<u32>>,
            },
            out@ == mounts_from_rows(rows@.take(i as int), known),
        decreases rows.len() - i,
    {
        proof {
            assert(rows@.take(i + 1).drop_last() =~= rows@.take(i as int));
        }
        let (spell_id, flags) = rows[i];
        let mut kept = spell_id > 0;
        if kept {
            match known_mount_spells {
                Some(k) => {
                    let target: u32 = spell_id as u32;
                    let mut found = false;
                    let mut j: usize = 0;
                    while j < k.len()
                        invariant
                            j <= k.len(),
                            found == (exists|m: int| 0 <= m < j && k@[m] == target),
                        decreases k.len() - j,
                    {
                        if k[j] == target {
                            found = true;
                        }
                        j = j + 1;
                    }
                    kept = found;
                },
                None => {},
            }
        }
        if kept {
            out.push((spell_id, flags));
        }
        i = i + 1;
    }
    proof {
        assert(rows@.take(i as int) =~= rows@);
    }
    out
}

/// A currency row of a character.
#[derive(Clone, Copy, Debug, PartialEq, Eq, Structural)]
pub struct CurrencyRow {
    pub currency_id: u32,
    pub quantity: u32,
    pub weekly_quantity: u32,
    pub tracked_quantity: u32,
    pub increased_cap_quantity: u32,
    pub earned_quantity: u32,
    pub flags: u32,
}

/// Whether a currency row with id `id` is among `rows`.
pub open spec fn has_currency(rows: Seq<CurrencyRow>, id: u32) -> bool {
    exists|k: int| 0 <= k < rows.len() && rows[k].currency_id == id
}

/// The currencies loaded from a character's rows: rows of unknown currencies
/// are skipped, and of several rows for one currency the first is kept.
pub open spec fn loaded_currencies(rows: Seq<CurrencyRow>, known: Seq<u32>) -> Seq<CurrencyRow>
    decreases rows.len(),
{
    if rows.len() == 0 {
        Seq::empty()
    } else {
        let m = loaded_currencies(rows.drop_last(), known);
        if known.contains(rows.last().currency_id) && !has_currency(m, rows.last().currency_id) {
            m.push(rows.last())
        } else {
            m
        }
    }
}

pub fn load_currencies(rows: &Vec<CurrencyRow>, store: &CurrencyTypesStore) -> (r: Vec<CurrencyRow>)
    ensures
        r@ == loaded_currencies(rows@, store.ids@),
{
    let mut out: Vec<CurrencyRow> = Vec::new();
    let mut i: usize = 0;
    while i < rows.len()
        invariant
            i <= rows.len(),
            out@ == loaded_currencies(rows@.take(i as int), store.ids@),
        decreases rows.len() - i,
    {
        proof {
            assert(rows@.take(i + 1).drop_last() =~= rows@.take(i as int));
        }
        let row = rows[i];
        if store.has_record(row.currency_id) {
            let mut present = false;
            let mut j: usize = 0;
            while j < out.len()
                invariant
                    j <= out.len(),
                    present == (exists|k: int| 0 <= k < j && out@[k].currency_id == row.currency_id),
                decreases out.len() - j,
            {
                if out[j].currency_id == row.currency_id {
                    present = true;
                }
                j = j + 1;
            }
            if !present {
                out.push(row);
            }
        }
        i = i + 1;
    }
    proof {
        assert(rows@.take(i as int) =~= rows@);
    }
    out
}

/// Each currency is loaded at most once.
pub proof fn lemma_loaded_currencies_distinct(rows: Seq<CurrencyRow>, known: Seq<u32>)
    ensures
        forall|a: int, b: int|
            0 <= a < b < loaded_currencies(rows, known).len() ==> #[trigger] loaded_currencies(
                rows,
                known,
            )[a].currency_id != #[trigger] loaded_currencies(rows, known)[b].currency_id,
    decreases rows.len(),
{
    if rows.len() > 0 {
        lemma_loaded_currencies_distinct(rows.drop_last(), known);
        let m = loaded_currencies(rows.drop_last(), known);
        let r = loaded_currencies(rows, known);
        if known.contains(rows.last().currency_id) && !has_currency(m, rows.last().currency_id) {
            assert forall|a: int, b: int| 0 <= a < b < r.len() implies #[trigger] r[a].currency_id
                != #[trigger] r[b].currency_id by {
                if b == r.len() - 1 {
                    assert(r[a] == m[a]);
                    if r[a].currency_id == r[b].currency_id {
                        assert(has_currency(m, rows.last().currency_id));
                    }
                } else {
                    assert(r[a] == m[a]);
                    assert(r[b] == m[b]);
                }
            }
        }
    }
}

} // verus!
