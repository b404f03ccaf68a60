use wow_character::guid::ObjectGuid;
use wow_character::session_flow::{
    distinct_guids, guids_absent_from, hotfix_locale_allowed, hotfix_record_status,
    item_spell_charges_db_string, quest_giver_source, quest_giver_tracked_count_ok,
    realm_query_answer, trade_skill_rank, QuestGiverAccess, QuestGiverSource,
};
use wow_character::stats::{player_core_stats, sum_gear_bonuses, GearBonus, LevelStats};
use wow_character::vendor_list::{
    vendor_list_item_hidden, vendor_list_quantity, vendor_row_kind, vendor_row_muid,
    vendor_slot_match, VendorExpansion, VendorRowKind, VendorSlotMatch,
};
use wow_character::codes::Team;

fn g(n: u64) -> ObjectGuid {
    ObjectGuid::new(7, n)
}

#[test]
fn tracked_query_guids_are_capped_and_distinct() {
    assert!(quest_giver_tracked_count_ok(1000));
    assert!(!quest_giver_tracked_count_ok(1001));
    assert_eq!(distinct_guids(&vec![g(1), g(2), g(1), g(3), g(2)]), vec![g(1), g(2), g(3)]);
    assert_eq!(distinct_guids(&vec![]), vec![]);
}

#[test]
fn visibility_changes_are_set_differences() {
    let old = vec![g(1), g(2), g(3)];
    let new = vec![g(2), g(4), g(3), g(5)];
    assert_eq!(guids_absent_from(&new, &old), vec![g(4), g(5)]);
    assert_eq!(guids_absent_from(&old, &new), vec![g(1)]);
}

#[test]
fn hotfix_status_rules() {
    assert!(hotfix_locale_allowed(0b110, 0b010));
    assert!(!hotfix_locale_allowed(0b100, 0b010));
    assert_eq!(hotfix_record_status(1, true, true), 1);
    assert_eq!(hotfix_record_status(1, false, true), 2);
    assert_eq!(hotfix_record_status(1, false, false), 3);
    assert_eq!(hotfix_record_status(2, false, false), 2);
}

#[test]
fn spell_charges_are_written_in_decimal() {
    assert_eq!(item_spell_charges_db_string(&[]), "");
    assert_eq!(item_spell_charges_db_string(&[0, -1, 25, 0, 0]), "0 -1 25 0 0 ");
    assert_eq!(item_spell_charges_db_string(&[i32::MIN]), "-2147483648 ");
}

#[test]
fn vendor_expansion_reads_each_vendor_once() {
    let mut exp = VendorExpansion::new(10);
    assert_eq!(exp.next_entry(), Some(10));
    exp.add_reference(-20);
    exp.add_reference(-10);
    exp.add_reference(-20);
    assert_eq!(exp.next_entry(), Some(20));
    assert_eq!(exp.next_entry(), None);
    exp.add_reference(-30);
    assert_eq!(exp.next_entry(), Some(30));
    assert_eq!(exp.next_entry(), None);
}

#[test]
fn vendor_rows_are_classified() {
    assert_eq!(vendor_row_muid(0), 1);
    assert_eq!(vendor_row_muid(i32::MAX), i32::MAX);
    assert_eq!(vendor_row_kind(5, 2, true, true), VendorRowKind::HiddenCurrency);
    assert_eq!(vendor_row_kind(5, 2, false, false), VendorRowKind::Currency);
    assert_eq!(vendor_row_kind(5, 1, true, false), VendorRowKind::UnknownItem);
    assert_eq!(vendor_row_kind(5, 1, true, true), VendorRowKind::Item);
    assert_eq!(vendor_row_kind(-5, 1, true, true), VendorRowKind::Reference);
    assert_eq!(vendor_row_kind(0, 1, true, true), VendorRowKind::Empty);
    assert!(vendor_list_item_hidden(3, 0, false, None, None, 1, None, Team::Alliance, false, None));
    assert!(!vendor_list_item_hidden(3, 1, false, None, None, 1, None, Team::Alliance, false, None));
    assert!(vendor_list_item_hidden(3, 1, false, None, None, 1, None, Team::Alliance, true, None));
    assert!(!vendor_list_item_hidden(3, 1, false, None, None, 1, None, Team::Alliance, true, Some(true)));
    assert!(vendor_list_item_hidden(0, 1, false, None, None, 1, Some(1), Team::Alliance, false, None));
    assert_eq!(vendor_list_quantity(0, 4), -1);
    assert_eq!(vendor_list_quantity(5, 4), 4);
    assert_eq!(vendor_slot_match(700, 1, true, false, 3, 3, 700), VendorSlotMatch::Found);
    assert_eq!(vendor_slot_match(700, 1, true, false, 3, 3, 701), VendorSlotMatch::WrongItem);
    assert_eq!(vendor_slot_match(700, 1, true, false, 2, 3, 700), VendorSlotMatch::Other);
    assert_eq!(vendor_slot_match(395, 2, false, true, 3, 3, 395), VendorSlotMatch::Found);
    assert_eq!(vendor_slot_match(700, 1, false, true, 3, 3, 700), VendorSlotMatch::Other);
}

fn bonus(str_: i32, sta: i32, health: i32) -> GearBonus {
    GearBonus {
        stats: [str_, 0, sta, 0, 0],
        attack_power: 10,
        ranged_attack_power: 0,
        health,
        mana: 0,
        spell_power: 3,
        armor: 50,
        combat_ratings: [1; 25],
    }
}

#[test]
fn gear_bonuses_add_up() {
    let total = sum_gear_bonuses(&vec![bonus(5, 2, 10), bonus(1, 3, 0)]);
    assert_eq!(total.stats, [6, 0, 5, 0, 0]);
    assert_eq!(total.attack_power, 20);
    assert_eq!(total.health, 10);
    assert_eq!(total.armor, 100);
    assert_eq!(total.spell_power, 6);
    assert_eq!(total.combat_ratings, [2; 25]);
    assert_eq!(sum_gear_bonuses(&vec![]).stats, [0; 5]);
}

#[test]
fn core_stats_follow_the_formulas() {
    let ls = LevelStats {
        strength: 23,
        agility: 20,
        stamina: 22,
        intellect: 25,
        spirit: 20,
        base_health: 60,
        base_mana: 100,
    };
    let gear = sum_gear_bonuses(&vec![bonus(2, 3, 10)]);
    let warrior = player_core_stats(ls, gear, 1);
    assert_eq!(warrior.stats, [25, 20, 25, 25, 20]);
    // 60 + 20 + 5 * 10 + 10
    assert_eq!(warrior.max_health, 140);
    // 100 + 20 + 5 * 15
    assert_eq!(warrior.max_mana, 195);
    assert_eq!(warrior.armor, 90);
    assert_eq!(warrior.attack_power, 25 * 2 - 20 + 10);
    assert_eq!(warrior.ranged_attack_power, 10);
    assert_eq!(warrior.power0, 1000);
    let mage = player_core_stats(ls, gear, 8);
    assert_eq!(mage.attack_power, 15 + 10);
    assert_eq!(mage.ranged_attack_power, 0);
    assert_eq!(mage.power0, 195);
    let rogue = player_core_stats(ls, gear, 4);
    assert_eq!(rogue.attack_power, 25 + 20 - 20 + 10);
    assert_eq!(rogue.power0, 100);
    let hunter = player_core_stats(ls, gear, 3);
    assert_eq!(hunter.ranged_attack_power, 20);
}

#[test]
fn quest_giver_sources_need_flag_or_type() {
    assert_eq!(
        quest_giver_source(QuestGiverAccess::Creature { entry: 5, npc_flags: 0x3 }),
        Some(QuestGiverSource::Creature(5))
    );
    assert_eq!(quest_giver_source(QuestGiverAccess::Creature { entry: 5, npc_flags: 0x1 }), None);
    assert_eq!(
        quest_giver_source(QuestGiverAccess::GameObject { entry: 9, go_type: Some(2) }),
        Some(QuestGiverSource::GameObject(9))
    );
    assert_eq!(quest_giver_source(QuestGiverAccess::GameObject { entry: 9, go_type: Some(3) }), None);
    assert_eq!(quest_giver_source(QuestGiverAccess::GameObject { entry: 9, go_type: None }), None);
    assert_eq!(quest_giver_source(QuestGiverAccess::Missing), None);
}

#[test]
fn realm_query_answer_marks_own_realm_local() {
    assert_eq!(realm_query_answer(true, 0x0100_0001, 0x0100_0001), (0, true));
    assert_eq!(realm_query_answer(true, 0x0100_0002, 0x0100_0001), (0, false));
    assert_eq!(realm_query_answer(false, 0x0100_0001, 0x0100_0001), (1, false));
}

#[test]
fn trade_skill_rank_is_five_per_level() {
    assert_eq!(trade_skill_rank(0), 0);
    assert_eq!(trade_skill_rank(80), 400);
    assert_eq!(trade_skill_rank(255), 1275);
}
