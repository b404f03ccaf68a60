use vstd::prelude::*;

verus! {

/// Number of bonus values an item gives: five stats, attack power, ranged
/// attack power, health, mana, spell power, armor and 25 combat ratings.
pub const GEAR_BONUS_VALUES: usize = 36;

/// The stat bonuses of one equipped item.
#[derive(Clone, Copy, Debug, PartialEq, Eq)]
pub struct GearBonus {
    /// Strength, agility, stamina, intellect, spirit.
    pub stats: [i32; 5],
    pub attack_power: i32,
    pub ranged_attack_power: i32,
    pub health: i32,
    pub mana: i32,
    pub spell_power: i32,
    pub armor: i32,
    pub combat_ratings: [i32; 25],
}

/// Bonus value `k` of an item (see `GEAR_BONUS_VALUES` for the order).
pub open spec fn bonus(g: GearBonus, k: int) -> i32 {
    if 0 <= k < 5 {
        g.stats[k]
    } else if k == 5 {
        g.attack_power
    } else if k == 6 {
        g.ranged_attack_power
    } else if k == 7 {
        g.health
    } else if k == 8 {
        g.mana
    } else if k == 9 {
        g.spell_power
    } else if k == 10 {
        g.armor
    } else if 11 <= k < 36 {
        g.combat_ratings[k - 11]
    } else {
        0
    }
}

/// Each bonus value is read from its own field: the five stats in order,
/// then attack power, ranged attack power, health, mana, spell power, armor
/// and the combat ratings in order.
pub proof fn lemma_bonus_fields(g: GearBonus, r: int)
    requires
        0 <= r < 25,
    ensures
        bonus(g, 0) == g.stats[0] && bonus(g, 1) == g.stats[1] && bonus(g, 2) == g.stats[2]
            && bonus(g, 3) == g.stats[3] && bonus(g, 4) == g.stats[4],
        bonus(g, 5) == g.attack_power,
        bonus(g, 6) == g.ranged_attack_power,
        bonus(g, 7) == g.health,
        bonus(g, 8) == g.mana,
        bonus(g, 9) == g.spell_power,
        bonus(g, 10) == g.armor,
        bonus(g, 11 + r) == g.combat_ratings[r],
        bonus(g, 36) == 0,
{
}

/// The sum of bonus value `k` over the first `n` items.
pub open spec fn bonus_sum(items: Seq<GearBonus>, k: int, n: int) -> int
    decreases n,
{
    if n <= 0 {
        0
    } else {
        bonus_sum(items, k, n - 1) + bonus(items[n - 1], k)
    }
}

/// Summing gear is additive: the bonuses of two sets of items worn together
/// are the sums of each set's, one item alone gives its own bonuses, and no
/// items give none.
pub proof fn lemma_bonus_sum_additive(a: Seq<GearBonus>, b: Seq<GearBonus>, k: int, g: GearBonus)
    ensures
        bonus_sum(a + b, k, (a + b).len() as int) == bonus_sum(a, k, a.len() as int) + bonus_sum(
            b,
            k,
            b.len() as int,
        ),
        bonus_sum(seq![g], k, 1) == bonus(g, k),
        bonus_sum(Seq::<GearBonus>::empty(), k, 0) == 0,
    decreases b.len(),
{
    assert(bonus_sum(seq![g], k, 0) == 0);
    if b.len() == 0 {
        assert(a + b =~= a);
    } else {
        let b0 = b.drop_last();
        lemma_bonus_sum_additive(a, b0, k, g);
        assert((a + b).drop_last() =~= a + b0);
        lemma_bonus_sum_prefix(a + b, k, (a + b).len() - 1);
        lemma_bonus_sum_prefix(b, k, b.len() - 1);
        assert((a + b)[(a + b).len() - 1] == b[b.len() - 1]);
    }
}

/// The sum over the first `n` items depends only on those items.
proof fn lemma_bonus_sum_prefix(items: Seq<GearBonus>, k: int, n: int)
    requires
        0 <= n <= items.len(),
    ensures
        bonus_sum(items, k, n) == bonus_sum(items.take(n), k, n),
    decreases n,
{
    if n > 0 {
        lemma_bonus_sum_prefix(items, k, n - 1);
        lemma_bonus_sum_prefix(items.take(n), k, n - 1);
        assert(items.take(n).take(n - 1) =~= items.take(n - 1));
    }
}

/// Every running sum of every bonus value fits in 32 bits.
pub open spec fn gear_sums_fit(items: Seq<GearBonus>) -> bool {
    forall|k: int, n: int|
        0 <= k < 36 && 0 <= n <= items.len() ==> i32::MIN <= #[trigger] bonus_sum(items, k, n)
            <= i32::MAX
}

fn bonus_exec(g: &GearBonus, k: usize) -> (v: i32)
    requires
        k < 36,
    ensures
        v == bonus(*g, k as int),
{
    if k < 5 {
        g.stats[k]
    } else if k == 5 {
        g.attack_power
    } else if k == 6 {
        g.ranged_attack_power
    } else if k == 7 {
        g.health
    } else if k == 8 {
        g.mana
    } else if k == 9 {
        g.spell_power
    } else if k == 10 {
        g.armor
    } else {
        g.combat_ratings[k - 11]
    }
}

fn sum_bonus(items: &Vec<GearBonus>, k: usize) -> (s: i32)
    requires
        k < 36,
        gear_sums_fit(items@),
    ensures
        s == bonus_sum(items@, k as int, items@.len() as int),
{
    let mut total: i32 = 0;
    let mut i: usize = 0;
    while i < items.len()
        invariant
            i <= items.len(),
            k < 36,
            gear_sums_fit(items@),
            total == bonus_sum(items@, k as int, i as int),
        decreases items.len() - i,
    {
        let v = bonus_exec(&items[i], k);
        proof {
            assert(i32::MIN <= bonus_sum(items@, k as int, i + 1) <= i32::MAX);
        }
        total = total + v;
        i = i + 1;
    }
    total
}

/// The summed bonuses of the equipped items.
pub fn sum_gear_bonuses(items: &Vec<GearBonus>) -> (t: GearBonus)
    requires
        gear_sums_fit(items@),
    ensures
        forall|k: int| 0 <= k < 36 ==> #[trigger] bonus(t, k) == bonus_sum(items@, k, items@.len() as int),
{
    let mut stats = [0i32; 5];
    let mut i: usize = 0;
    while i < 5
        invariant
            i <= 5,
            gear_sums_fit(items@),
            forall|j: int| 0 <= j < i ==> #[trigger] stats@[j] == bonus_sum(items@, j, items@.len() as int),
        decreases 5 - i,
    {
        stats[i] = sum_bonus(items, i);
        i = i + 1;
    }
    let mut combat_ratings = [0i32; 25];
    let mut j: usize = 0;
    while j < 25
        invariant
            j <= 25,
            gear_sums_fit(items@),
            forall|m: int| 0 <= m < j ==> #[trigger] combat_ratings@[m] == bonus_sum(items@, m + 11, items@.len() as int),
        decreases 25 - j,
    {
        combat_ratings[j] = sum_bonus(items, j + 11);
        j = j + 1;
    }
    GearBonus {
        stats,
        attack_power: sum_bonus(items, 5),
        ranged_attack_power: sum_bonus(items, 6),
        health: sum_bonus(items, 7),
        mana: sum_bonus(items, 8),
        spell_power: sum_bonus(items, 9),
        armor: sum_bonus(items, 10),
        combat_ratings,
    }
}

/// The base stats of a race and class at a level.
#[derive(Clone, Copy, Debug, PartialEq, Eq)]
pub struct LevelStats {
    pub strength: u16,
    pub agility: u16,
    pub stamina: u16,
    pub intellect: u16,
    pub spirit: u16,
    pub base_health: u32,
    pub base_mana: u32,
}

/// A player's whole-number stats: base plus gear.
#[derive(Clone, Copy, Debug, PartialEq, Eq)]
pub struct CoreStats {
    /// Strength, agility, stamina, intellect, spirit.
    pub stats: [i32; 5],
    pub max_health: i64,
    pub max_mana: i64,
    pub armor: i32,
    pub attack_power: i32,
    pub ranged_attack_power: i32,
    /// The first power bar: rage, energy or runic power for classes that use
    /// them, else mana.
    pub power0: i32,
}

pub open spec fn max0(x: int) -> int {
    if x < 0 {
        0
    } else {
        x
    }
}

pub open spec fn min20(x: int) -> int {
    if x < 20 {
        x
    } else {
        20
    }
}

pub open spec fn base_stat(ls: LevelStats, k: int) -> int {
    if k == 0 {
        ls.strength as int
    } else if k == 1 {
        ls.agility as int
    } else if k == 2 {
        ls.stamina as int
    } else if k == 3 {
        ls.intellect as int
    } else {
        ls.spirit as int
    }
}

/// Total stat `k`: base plus gear.
pub open spec fn total_stat(ls: LevelStats, gear: GearBonus, k: int) -> int {
    base_stat(ls, k) + gear.stats[k]
}

/// Melee attack power before gear: twice strength minus 20 for warriors,
/// paladins, death knights, shamans and druids; strength plus agility minus 20
/// for hunters and rogues; strength minus 10 for the others; never negative.
pub open spec fn melee_ap_base(class: u8, str_: int, agi: int) -> int {
    if class == 1 || class == 2 || class == 6 || class == 7 || class == 11 {
        max0(str_ * 2 - 20)
    } else if class == 3 || class == 4 {
        max0(str_ + agi - 20)
    } else {
        max0(str_ - 10)
    }
}

/// Ranged attack power before gear: twice agility minus 20 for hunters,
/// agility minus 10 for warriors and rogues, none for the others.
pub open spec fn ranged_ap_base(class: u8, agi: int) -> int {
    if class == 3 {
        max0(agi * 2 - 20)
    } else if class == 1 || class == 4 {
        max0(agi - 10)
    } else {
        0
    }
}

pub open spec fn max_health_of(ls: LevelStats, gear: GearBonus) -> int {
    let sta = total_stat(ls, gear, 2);
    ls.base_health + min20(sta) + max0(sta - 20) * 10 + gear.health
}

pub open spec fn max_mana_of(ls: LevelStats, gear: GearBonus) -> int {
    let int_ = total_stat(ls, gear, 3);
    ls.base_mana + min20(int_) + max0(int_ - 20) * 15 + gear.mana
}

/// All whole-number stat values fit their 32-bit types.
pub open spec fn core_stats_fit(ls: LevelStats, gear: GearBonus, class: u8) -> bool {
    let s = total_stat(ls, gear, 0);
    let a = total_stat(ls, gear, 1);
    &&& forall|k: int| 0 <= k < 5 ==> i32::MIN <= #[trigger] total_stat(ls, gear, k) <= i32::MAX
    &&& i32::MIN <= a * 2 <= i32::MAX
    &&& i32::MIN <= a * 2 + gear.armor <= i32::MAX
    &&& (class == 1 || class == 2 || class == 6 || class == 7 || class == 11) ==> i32::MIN
        <= s * 2 - 20 && s * 2 <= i32::MAX
    &&& (class == 3 || class == 4) ==> i32::MIN <= s + a - 20 && s + a <= i32::MAX
    &&& !(class == 1 || class == 2 || class == 6 || class == 7 || class == 11 || class == 3
        || class == 4) ==> i32::MIN <= s - 10
    &&& class == 3 ==> i32::MIN <= a * 2 - 20
    &&& (class == 1 || class == 4) ==> i32::MIN <= a - 10
    &&& i32::MIN <= melee_ap_base(class, s, a) + gear.attack_power <= i32::MAX
    &&& i32::MIN <= ranged_ap_base(class, a) + gear.ranged_attack_power <= i32::MAX
}

pub open spec fn power0_of(class: u8, max_mana: int) -> i32 {
    if class == 1 {
        1000
    } else if class == 4 {
        100
    } else if class == 6 {
        1000
    } else {
        max_mana as i32
    }
}

/// The classes whose melee attack power comes from twice their strength:
/// warriors, paladins, death knights, shamans and druids.
pub open spec fn strength_attack_class(class: u8) -> bool {
    set![1u8, 2, 6, 7, 11].contains(class)
}

/// Melee attack power before gear: twice strength less 20 for the strength
/// classes, strength plus agility less 20 for hunters and rogues, strength
/// less 10 for the rest; never below zero, and never lower with more strength.
pub proof fn lemma_melee_attack_power(class: u8, str_: int, agi: int, more_str: int)
    requires
        str_ <= more_str,
    ensures
        strength_attack_class(class) ==> melee_ap_base(class, str_, agi) == (if 2 * str_ - 20 > 0 {
            2 * str_ - 20
        } else {
            0
        }),
        (class == 3 || class == 4) ==> melee_ap_base(class, str_, agi) == (if str_ + agi - 20 > 0 {
            str_ + agi - 20
        } else {
            0
        }),
        !strength_attack_class(class) && class != 3 && class != 4 ==> melee_ap_base(class, str_, agi)
            == (if str_ - 10 > 0 {
            str_ - 10
        } else {
            0
        }),
        melee_ap_base(class, str_, agi) >= 0,
        melee_ap_base(class, str_, agi) <= melee_ap_base(class, more_str, agi),
{
}

/// A player's whole-number stats from the base stats and summed gear bonuses:
/// health gets 1 per stamina point up to 20 and 10 per point above; mana 1 per
/// intellect point up to 20 and 15 per point above; armor 2 per agility point.
pub fn player_core_stats(ls: LevelStats, gear: GearBonus, class: u8) -> (c: CoreStats)
    requires
        core_stats_fit(ls, gear, class),
    ensures
        forall|k: int| 0 <= k < 5 ==> #[trigger] c.stats@[k] == total_stat(ls, gear, k),
        c.max_health == max_health_of(ls, gear),
        c.max_mana == max_mana_of(ls, gear),
        c.armor == total_stat(ls, gear, 1) * 2 + gear.armor,
        c.attack_power == melee_ap_base(class, total_stat(ls, gear, 0), total_stat(ls, gear, 1))
            + gear.attack_power,
        c.ranged_attack_power == ranged_ap_base(class, total_stat(ls, gear, 1))
            + gear.ranged_attack_power,
        c.power0 == power0_of(class, max_mana_of(ls, gear)),
        c.stats[0] == (ls.strength as int + gear.stats[0]),
        c.stats[1] == (ls.agility as int + gear.stats[1]),
        c.stats[2] == (ls.stamina as int + gear.stats[2]),
        c.stats[3] == (ls.intellect as int + gear.stats[3]),
        c.stats[4] == ls.spirit as int + gear.stats[4],
        c.max_health == ls.base_health + (if (ls.stamina as int + gear.stats[2]) < 20 { (ls.stamina as int + gear.stats[2]) } else { 20 }) + (if (ls.stamina as int + gear.stats[2]) - 20 > 0 { (ls.stamina as int + gear.stats[2]) - 20 } else { 0 }) * 10 + gear.health,
        c.max_mana == ls.base_mana + (if (ls.intellect as int + gear.stats[3]) < 20 { (ls.intellect as int + gear.stats[3]) } else { 20 }) + (if (ls.intellect as int + gear.stats[3]) - 20 > 0 { (ls.intellect as int + gear.stats[3]) - 20 } else { 0 }) * 15 + gear.mana,
        c.armor == (ls.agility as int + gear.stats[1]) * 2 + gear.armor,
        strength_attack_class(class) ==> c.attack_power == (if 2 * (ls.strength as int + gear.stats[0]) - 20 > 0 { 2 * (ls.strength as int + gear.stats[0]) - 20 } else { 0 }) + gear.attack_power,
        (class == 3 || class == 4) ==> c.attack_power == (if (ls.strength as int + gear.stats[0]) + (ls.agility as int + gear.stats[1]) - 20 > 0 { (ls.strength as int + gear.stats[0]) + (ls.agility as int + gear.stats[1]) - 20 } else { 0 }) + gear.attack_power,
        !strength_attack_class(class) && class != 3 && class != 4 ==> c.attack_power == (if (ls.strength as int + gear.stats[0]) - 10 > 0 { (ls.strength as int + gear.stats[0]) - 10 } else { 0 })
            + gear.attack_power,
        class == 3 ==> c.ranged_attack_power == (if 2 * (ls.agility as int + gear.stats[1]) - 20 > 0 { 2 * (ls.agility as int + gear.stats[1]) - 20 } else { 0 }) + gear.ranged_attack_power,
        (class == 1 || class == 4) ==> c.ranged_attack_power == (if (ls.agility as int + gear.stats[1]) - 10 > 0 { (ls.agility as int + gear.stats[1]) - 10 } else { 0 }) + gear.ranged_attack_power,
        class != 1 && class != 3 && class != 4 ==> c.ranged_attack_power == gear.ranged_attack_power,
        (class == 1 || class == 6) ==> c.power0 == 1000,
        class == 4 ==> c.power0 == 100,
        class != 1 && class != 4 && class != 6 ==> c.power0 == c.max_mana as i32,
{
    proof {
        assert(i32::MIN <= total_stat(ls, gear, 0) <= i32::MAX);
        assert(i32::MIN <= total_stat(ls, gear, 1) <= i32::MAX);
        assert(i32::MIN <= total_stat(ls, gear, 2) <= i32::MAX);
        assert(i32::MIN <= total_stat(ls, gear, 3) <= i32::MAX);
        assert(i32::MIN <= total_stat(ls, gear, 4) <= i32::MAX);
    }
    let total_str = ls.strength as i32 + gear.stats[0];
    let total_agi = ls.agility as i32 + gear.stats[1];
    let total_sta = ls.stamina as i32 + gear.stats[2];
    let total_int = ls.intellect as i32 + gear.stats[3];
    let total_spi = ls.spirit as i32 + gear.stats[4];

    let sta64 = total_sta as i64;
    let sta_low: i64 = if sta64 < 20 {
        sta64
    } else {
        20
    };
    let sta_high: i64 = if sta64 - 20 > 0 {
        sta64 - 20
    } else {
        0
    };
    let max_health = ls.base_health as i64 + (sta_low + sta_high * 10 + gear.health as i64);

    let int64 = total_int as i64;
    let int_low: i64 = if int64 < 20 {
        int64
    } else {
        20
    };
    let int_high: i64 = if int64 - 20 > 0 {
        int64 - 20
    } else {
        0
    };
    let max_mana = ls.base_mana as i64 + (int_low + int_high * 15 + gear.mana as i64);

    let total_armor = total_agi * 2 + gear.armor;

    let melee_base: i32 = if class == 1 || class == 2 || class == 6 {
        total_str * 2 - 20
    } else if class == 3 || class == 4 {
        total_str + total_agi - 20
    } else if class == 7 || class == 11 {
        total_str * 2 - 20
    } else {
        if total_str - 10 > 0 {
            total_str - 10
        } else {
            0
        }
    };
    let melee_ap = (if melee_base > 0 {
        melee_base
    } else {
        0
    }) + gear.attack_power;

    let ranged_base: i32 = if class == 3 {
        total_agi * 2 - 20
    } else if class == 1 || class == 4 {
        total_agi - 10
    } else {
        0
    };
    let ranged_ap = (if ranged_base > 0 {
        ranged_base
    } else {
        0
    }) + gear.ranged_attack_power;

    let power0: i32 = if class == 1 {
        1000
    } else if class == 4 {
        100
    } else if class == 6 {
        1000
    } else {
        #[verifier::truncate]
        (max_mana as i32)
    };
    let stats = [total_str, total_agi, total_sta, total_int, total_spi];
    CoreStats {
        stats,
        max_health,
        max_mana,
        armor: total_armor,
        attack_power: melee_ap,
        ranged_attack_power: ranged_ap,
        power0,
    }
}

/// Each extra point of stamina never lowers maximum health.
pub proof fn lemma_health_monotone_in_stamina(ls: LevelStats, g1: GearBonus, g2: GearBonus)
    requires
        g1.stats[2] <= g2.stats[2],
        g1.health == g2.health,
    ensures
        max_health_of(ls, g1) <= max_health_of(ls, g2),
{
}

} // verus!
