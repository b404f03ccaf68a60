use wow_character::creation::{
    character_list_flags, create_character_account_limit_check, create_character_name_check,
    create_character_name_is_valid, create_character_sex, default_display_id,
    default_health_mana, race_unlock_data, slot_to_inventory_type, start_zone, CreateCharCode,
};
use wow_character::equipment_cache::{parse_equipment_cache, VisualItemInfo};
use wow_character::login::{make_connect_to_key, played_time_totals, CONNECT_TO_KEY_BOUND};

#[test]
fn display_ids_are_valid() {
    for race in [1, 2, 3, 4, 5, 6, 7, 8, 10, 11] {
        for sex in [0u8, 1] {
            let id = default_display_id(race, sex);
            assert!(id > 0, "Race {race} sex {sex} has zero display ID");
        }
    }
}

#[test]
fn start_zones_are_valid() {
    for race in [1, 2, 3, 4, 5, 6, 7, 8, 10, 11] {
        let zone = start_zone(race);
        assert!(zone > 0, "Race {race} has invalid zone");
    }
}

#[test]
fn parse_equipment_cache_empty() {
    let eq = parse_equipment_cache("");
    for slot in &eq {
        assert_eq!(slot.display_id, 0);
        assert_eq!(slot.inv_type, 0);
    }
}

#[test]
fn parse_equipment_cache_real_data() {
    // Real data from DB: first slot has inv_type=0, next few slots have gear
    let cache = "0 0 0 0 0 0 0 0 0 0 0 0 0 0 0 4 2470 0 0 0 20 33257 0 1 0";
    let eq = parse_equipment_cache(cache);
    // Slot 0: all zeros
    assert_eq!(eq[0].display_id, 0);
    // Slot 3: inv_type=4, display_id=2470
    assert_eq!(eq[3].inv_type, 4);
    assert_eq!(eq[3].display_id, 2470);
    // Slot 4: inv_type=20, display_id=33257, subclass=1
    assert_eq!(eq[4].inv_type, 20);
    assert_eq!(eq[4].display_id, 33257);
    assert_eq!(eq[4].subclass, 1);
}

#[test]
fn player_flags_to_char_flags_resting() {
    // PlayerFlags::Resting = 0x20 → CharacterFlags::Resting = 0x02
    let player_flags: u32 = 0x20;
    let char_flags = character_list_flags(player_flags, 0).flags;
    assert_eq!(char_flags, 0x02);
}

#[test]
fn player_flags_to_char_flags_ghost() {
    // PlayerFlags::Ghost = 0x10 → CharacterFlags::Ghost = 0x2000
    let player_flags: u32 = 0x10;
    let at_login_flags: u16 = 0;
    let char_flags = character_list_flags(player_flags, at_login_flags).flags;
    assert_eq!(char_flags, 0x2000);
}

#[test]
fn player_flags_ghost_suppressed_by_resurrect() {
    // Ghost flag suppressed when AtLoginFlags::Resurrect (0x100) is set
    let player_flags: u32 = 0x10;
    let at_login_flags: u16 = 0x100;
    let char_flags = character_list_flags(player_flags, at_login_flags).flags;
    assert_eq!(char_flags, 0); // Ghost NOT set
}

#[test]
fn raw_player_flags_not_passed_directly() {
    // Raw playerFlags (e.g. AFK=0x02) don't leak into CharacterFlags
    let player_flags: u32 = 0x02; // PlayerFlags::AFK
    let char_flags = character_list_flags(player_flags, 0).flags;
    assert_eq!(char_flags, 0);
}

#[test]
fn list_flags_map_login_flags() {
    let f = character_list_flags(0x20 | 0x10, 0x01 | 0x20 | 0x40);
    assert_eq!(f.flags, 0x02 | 0x2000 | 0x4000);
    assert_eq!(f.flags2, 2);
    assert!(f.first_login);
    assert!(f.legit);
    assert_eq!(character_list_flags(0, 0x08 | 0x80).flags2, 1);
    assert_eq!(character_list_flags(0, 0x80).flags2, 4);
    assert!(!character_list_flags(0, 0).first_login);
}

#[test]
fn equipment_cache_reads_signed_and_bad_values() {
    let eq = parse_equipment_cache("  +7 4294967295 4294967296 256 -5\t1 2 x 3 -2147483648\n9");
    assert_eq!(eq[0].inv_type, 7);
    assert_eq!(eq[0].display_id, 4294967295);
    assert_eq!(eq[0].display_enchant_id, 0);
    assert_eq!(eq[0].subclass, 0);
    assert_eq!(eq[0].secondary_item_modified_appearance_id, -5);
    assert_eq!(eq[1].inv_type, 1);
    assert_eq!(eq[1].display_id, 2);
    assert_eq!(eq[1].display_enchant_id, 0);
    assert_eq!(eq[1].subclass, 3);
    assert_eq!(eq[1].secondary_item_modified_appearance_id, i32::MIN);
    assert_eq!(eq[2], VisualItemInfo::default());
    assert_eq!(eq[33], VisualItemInfo::default());
}

#[test]
fn equipment_cache_fills_at_most_34_slots() {
    let mut text = String::new();
    for i in 0..36u32 {
        text.push_str(&format!("1 {} 0 0 0 ", i + 100));
    }
    let eq = parse_equipment_cache(&text);
    assert_eq!(eq[0].display_id, 100);
    assert_eq!(eq[33].display_id, 133);
}

#[test]
fn creation_tables_match_expected_values() {
    assert_eq!(default_display_id(10, 0), 15476);
    assert_eq!(default_display_id(10, 1), 15475);
    assert_eq!(default_display_id(9, 0), 49);
    assert_eq!(start_zone(22), 12);
    assert_eq!(start_zone(11), 3524);
    assert_eq!(start_zone(99), 12);
    assert_eq!(default_health_mana(6), (130, 0));
    assert_eq!(default_health_mana(8), (42, 200));
    assert_eq!(default_health_mana(12), (50, 100));
    assert_eq!(slot_to_inventory_type(0), Some(1));
    assert_eq!(slot_to_inventory_type(11), Some(11));
    assert_eq!(slot_to_inventory_type(15), Some(21));
    assert_eq!(slot_to_inventory_type(18), Some(19));
    assert_eq!(slot_to_inventory_type(19), None);
}

#[test]
fn create_character_name_rules() {
    assert!(create_character_name_is_valid("Arthas"));
    assert!(create_character_name_is_valid("Ab"));
    assert!(!create_character_name_is_valid("A"));
    assert!(!create_character_name_is_valid("Abcdefghijklm"));
    assert!(create_character_name_is_valid("Abcdefghijkl"));
    assert!(!create_character_name_is_valid("Ar7has"));
    assert!(!create_character_name_is_valid("Ärthas"));
    assert_eq!(create_character_name_check("x"), Some(CreateCharCode::Error));
    assert_eq!(create_character_name_check("Jaina"), None);
    assert_eq!(create_character_account_limit_check(9), None);
    assert_eq!(create_character_account_limit_check(10), Some(CreateCharCode::AccountLimit));
    assert_eq!(create_character_sex(-1), 0);
    assert_eq!(create_character_sex(1), 1);
}

#[test]
fn race_unlocks_follow_account_expansion() {
    let classic = race_unlock_data(0);
    assert_eq!(classic.len(), 10);
    assert!(classic[0].has_expansion);
    assert_eq!(classic[8].race_id, 10);
    assert!(!classic[8].has_expansion);
    let tbc = race_unlock_data(1);
    assert!(tbc.iter().all(|r| r.has_expansion && !r.is_locked));
}

#[test]
fn connect_to_key_is_for_the_instance_connection() {
    let key = make_connect_to_key(77);
    assert_eq!(key.account_id, 77);
    assert_eq!(key.connection_type, 1);
    assert!(key.key < CONNECT_TO_KEY_BOUND);
}

#[test]
fn played_time_adds_session_and_saturates() {
    assert_eq!(played_time_totals(100, 10, 5), (105, 15));
    assert_eq!(played_time_totals(u32::MAX - 1, 0, 5), (u32::MAX, 5));
}
