use wow_character::items::LoadedItemRefundDecision;
use wow_character::login_load::{
    account_mounts_from_rows, bag_content_row_loaded, keep_nonnegative_keys, known_spells_from_rows, load_currencies, load_item_row, load_skills,
    merge_known_spells, CurrencyRow, LoadedItemRow,
};
use wow_character::vendor::CurrencyTypesStore;

#[test]
fn item_rows_without_item_or_past_top_level_are_skipped() {
    let none = LoadedItemRefundDecision::NotRefundable;
    assert_eq!(load_item_row(5, 0, 0, none, Some(5), 50, 40), None);
    assert_eq!(load_item_row(141, 100, 0, none, Some(5), 50, 40), None);
}

#[test]
fn worn_item_row_is_visible_and_takes_slot_type_without_template() {
    let none = LoadedItemRefundDecision::NotRefundable;
    assert_eq!(
        load_item_row(4, 100, 7, none, None, 50, 60),
        Some(LoadedItemRow {
            stored_flags: 7,
            inventory_type: Some(5),
            to_buyback: false,
            visible: true,
            max_durability: 60,
        })
    );
    assert_eq!(
        load_item_row(4, 100, 7, none, Some(20), 50, 40).unwrap().inventory_type,
        Some(20)
    );
}

#[test]
fn buyback_row_goes_to_buyback_with_cleared_refund_flags() {
    let row = load_item_row(
        94,
        100,
        0x1000,
        LoadedItemRefundDecision::Clear { new_flags: 0 },
        None,
        0,
        0,
    )
    .unwrap();
    assert!(row.to_buyback);
    assert!(!row.visible);
    assert_eq!(row.stored_flags, 0);
    assert_eq!(row.inventory_type, None);
    assert!(!load_item_row(106, 100, 0, LoadedItemRefundDecision::NotRefundable, None, 0, 0)
        .unwrap()
        .to_buyback);
}

#[test]
fn bag_content_needs_item_bag_slot_and_bag() {
    assert!(bag_content_row_loaded(5, 30, true));
    assert!(bag_content_row_loaded(5, 90, true));
    assert!(!bag_content_row_loaded(0, 30, true));
    assert!(!bag_content_row_loaded(5, 35, true));
    assert!(!bag_content_row_loaded(5, 30, false));
}

#[test]
fn only_active_spell_rows_are_known() {
    assert_eq!(
        known_spells_from_rows(&vec![(100, 1), (0, 1), (200, 0), (300, 2)]),
        vec![100, 300]
    );
}

#[test]
fn merging_spells_appends_each_missing_spell_once() {
    let mut known = vec![10, 20];
    merge_known_spells(&mut known, &vec![20, 30, 30, 40, 10]);
    assert_eq!(known, vec![10, 20, 30, 40]);
}

fn currency(id: u32, quantity: u32) -> CurrencyRow {
    CurrencyRow {
        currency_id: id,
        quantity,
        weekly_quantity: 0,
        tracked_quantity: 0,
        increased_cap_quantity: 0,
        earned_quantity: 0,
        flags: 0,
    }
}

#[test]
fn unknown_currencies_are_skipped_and_first_row_wins() {
    let store = CurrencyTypesStore::from_ids(vec![1, 2]);
    let rows = vec![currency(1, 5), currency(3, 9), currency(1, 7), currency(2, 8)];
    assert_eq!(load_currencies(&rows, &store), vec![currency(1, 5), currency(2, 8)]);
}

#[test]
fn collection_rows_with_negative_keys_are_dropped() {
    assert_eq!(
        keep_nonnegative_keys(&vec![(3, (true, false)), (-1, (true, true)), (0, (false, false))]),
        vec![(3u32, (true, false)), (0u32, (false, false))]
    );
    assert_eq!(keep_nonnegative_keys(&vec![(-5, 7u32), (9, 8u32)]), vec![(9u32, 8u32)]);
}

#[test]
fn mounts_need_positive_known_spell() {
    let rows = vec![(100, 1u8), (0, 0), (-4, 0), (200, 2), (300, 3)];
    assert_eq!(account_mounts_from_rows(&rows, None), vec![(100, 1), (200, 2), (300, 3)]);
    let known = vec![200u32, 300];
    assert_eq!(account_mounts_from_rows(&rows, Some(&known)), vec![(200, 2), (300, 3)]);
}

#[test]
fn skill_rows_keep_positive_ids_and_the_last_value() {
    let (known, values) = load_skills(&vec![(0, 9), (164, 1), (393, 75), (164, 150)]);
    let mut ids: Vec<u16> = known.into_iter().collect();
    ids.sort();
    assert_eq!(ids, vec![164, 393]);
    assert_eq!(values.len(), 2);
    assert_eq!(values.get(&164), Some(&150));
    assert_eq!(values.get(&393), Some(&75));
    assert_eq!(values.get(&0), None);
    let (none, empty) = load_skills(&vec![]);
    assert!(none.is_empty() && empty.is_empty());
}
