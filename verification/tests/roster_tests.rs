use wow_character::guid::ObjectGuid;
use wow_character::roster::{char_delete_answer, CharDeleteCode, LegitCharacters};

fn player(n: u64) -> ObjectGuid {
    ObjectGuid::new(0x0800_0000_0000_0000, n)
}

#[test]
fn deleted_character_is_no_longer_legit() {
    let mut legit = LegitCharacters::new(vec![player(1), player(2), player(1)]);
    assert!(legit.is_legit(player(1)));
    legit.remove(player(1));
    assert!(!legit.is_legit(player(1)));
    assert!(legit.is_legit(player(2)));
    assert_eq!(legit.guids, vec![player(2)]);
}

#[test]
fn char_delete_answer_follows_each_step() {
    assert_eq!(char_delete_answer(true, true, Some(true), true), CharDeleteCode::Success);
    assert_eq!(char_delete_answer(true, true, None, true), CharDeleteCode::Success);
    assert_eq!(char_delete_answer(false, true, Some(true), true), CharDeleteCode::Failed);
    assert_eq!(char_delete_answer(true, false, Some(true), true), CharDeleteCode::Failed);
    assert_eq!(char_delete_answer(true, true, Some(false), true), CharDeleteCode::Failed);
    assert_eq!(char_delete_answer(true, true, Some(true), false), CharDeleteCode::Failed);
}
