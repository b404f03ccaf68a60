use vstd::prelude::*;

verus! {

/// Maximum characters per account.
pub const MAX_CHARACTERS_PER_ACCOUNT: u32 = 10;

/// The display model of each playable race and sex; unknown pairs fall back
/// to the human male model.
pub open spec fn display_id_of(race: u8, sex: u8) -> u32 {
    match (race, sex) {
        (1, 0) => 49,
        (1, 1) => 50,
        (2, 0) => 51,
        (2, 1) => 52,
        (3, 0) => 53,
        (3, 1) => 54,
        (4, 0) => 55,
        (4, 1) => 56,
        (5, 0) => 57,
        (5, 1) => 58,
        (6, 0) => 59,
        (6, 1) => 60,
        (7, 0) => 1563,
        (7, 1) => 1564,
        (8, 0) => 1478,
        (8, 1) => 1479,
        (10, 0) => 15476,
        (10, 1) => 15475,
        (11, 0) => 16125,
        (11, 1) => 16126,
        _ => 49,
    }
}

/// The races with a model of their own for each sex.
pub open spec fn playable_model_race(race: u8) -> bool {
    set![1u8, 2, 3, 4, 5, 6, 7, 8, 10, 11].contains(race)
}

/// A race and sex with a model of their own.
pub open spec fn playable_race_sex(race: u8, sex: u8) -> bool {
    playable_model_race(race) && (sex == 0 || sex == 1)
}

/// Every playable race and sex has a model of its own: two different
/// (race, sex) pairs never share a display id, so in particular the male and
/// female models of a race differ; any other pair shows the human male model.
pub proof fn lemma_display_ids_distinct(r1: u8, s1: u8, r2: u8, s2: u8)
    requires
        playable_race_sex(r1, s1),
        playable_race_sex(r2, s2),
        r1 != r2 || s1 != s2,
    ensures
        display_id_of(r1, s1) != display_id_of(r2, s2),
{
}

/// The display id of a pair outside the playable ones is the human male model.
pub proof fn lemma_display_id_fallback(race: u8, sex: u8)
    requires
        !playable_race_sex(race, sex),
    ensures
        display_id_of(race, sex) == 49,
{
}

/// Default display ID for a race/sex combination.
pub fn default_display_id(race: u8, sex: u8) -> (id: u32)
    ensures
        id == display_id_of(race, sex),
        id > 0,
        race == 1 && sex == 0 ==> id == 49,
        race == 1 && sex == 1 ==> id == 50,
        race == 2 && sex == 0 ==> id == 51,
        race == 2 && sex == 1 ==> id == 52,
        race == 3 && sex == 0 ==> id == 53,
        race == 3 && sex == 1 ==> id == 54,
        race == 4 && sex == 0 ==> id == 55,
        race == 4 && sex == 1 ==> id == 56,
        race == 5 && sex == 0 ==> id == 57,
        race == 5 && sex == 1 ==> id == 58,
        race == 6 && sex == 0 ==> id == 59,
        race == 6 && sex == 1 ==> id == 60,
        race == 7 && sex == 0 ==> id == 1563,
        race == 7 && sex == 1 ==> id == 1564,
        race == 8 && sex == 0 ==> id == 1478,
        race == 8 && sex == 1 ==> id == 1479,
        race == 10 && sex == 0 ==> id == 15476,
        race == 10 && sex == 1 ==> id == 15475,
        race == 11 && sex == 0 ==> id == 16125,
        race == 11 && sex == 1 ==> id == 16126,
        !playable_race_sex(race, sex) ==> id == 49,
{
    match (race, sex) {
        (1, 0) => 49,
        (1, 1) => 50,
        (2, 0) => 51,
        (2, 1) => 52,
        (3, 0) => 53,
        (3, 1) => 54,
        (4, 0) => 55,
        (4, 1) => 56,
        (5, 0) => 57,
        (5, 1) => 58,
        (6, 0) => 59,
        (6, 1) => 60,
        (7, 0) => 1563,
        (7, 1) => 1564,
        (8, 0) => 1478,
        (8, 1) => 1479,
        (10, 0) => 15476,
        (10, 1) => 15475,
        (11, 0) => 16125,
        (11, 1) => 16126,
        _ => 49,
    }
}

/// The starting zone of each race; unknown races start in Elwynn Forest.
pub open spec fn start_zone_of(race: u8) -> i32 {
    if race == 1 || race == 22 {
        12
    } else if race == 2 || race == 8 {
        14
    } else if race == 3 || race == 7 {
        1
    } else if race == 4 {
        141
    } else if race == 5 {
        85
    } else if race == 6 {
        215
    } else if race == 10 {
        3430
    } else if race == 11 {
        3524
    } else {
        12
    }
}

/// Races that share a homeland start in the same zone (Humans and Worgen,
/// Orcs and Trolls, Dwarves and Gnomes); otherwise each of the home races
/// starts in a zone of its own.
pub proof fn lemma_start_zones(a: u8, b: u8)
    requires
        set![1u8, 2, 3, 4, 5, 6, 7, 8, 10, 11, 22].contains(a),
        set![1u8, 2, 3, 4, 5, 6, 7, 8, 10, 11, 22].contains(b),
    ensures
        start_zone_of(a) == start_zone_of(b) <==> (a == b || set![(1u8, 22u8), (22u8, 1u8), (2u8,
            8u8), (8u8, 2u8), (3u8, 7u8), (7u8, 3u8)].contains((a, b))),
{
}

/// Default zone ID for a starting position.
pub fn start_zone(race: u8) -> (zone: i32)
    ensures
        zone == start_zone_of(race),
        zone > 0,
        race == 1 ==> zone == 12,
        race == 22 ==> zone == 12,
        race == 2 ==> zone == 14,
        race == 8 ==> zone == 14,
        race == 3 ==> zone == 1,
        race == 7 ==> zone == 1,
        race == 4 ==> zone == 141,
        race == 5 ==> zone == 85,
        race == 6 ==> zone == 215,
        race == 10 ==> zone == 3430,
        race == 11 ==> zone == 3524,
        !set![1u8, 2, 3, 4, 5, 6, 7, 8, 10, 11, 22].contains(race) ==> zone == 12,
{
    match race {
        1 | 22 => 12,
        2 | 8 => 14,
        3 | 7 => 1,
        4 => 141,
        5 => 85,
        6 => 215,
        10 => 3430,
        11 => 3524,
        _ => 12,
    }
}

/// Level-one health and mana of each class.
pub open spec fn health_mana_of(class: u8) -> (u32, u32) {
    match class {
        1 => (50, 0),
        2 => (52, 79),
        3 => (46, 85),
        4 => (45, 0),
        5 => (52, 160),
        6 => (130, 0),
        7 => (47, 73),
        8 => (42, 200),
        9 => (43, 200),
        11 => (54, 60),
        _ => (50, 100),
    }
}

/// The classes that start with a mana bar: every class but warriors and
/// rogues (rage, energy) and death knights (runic power).
pub open spec fn mana_class(class: u8) -> bool {
    !set![1u8, 4, 6].contains(class)
}

/// A new character of a class that uses mana starts with some, one of a
/// class that does not starts with none, and every class starts alive.
pub proof fn lemma_starting_mana_follows_power_type(class: u8)
    ensures
        mana_class(class) ==> health_mana_of(class).1 > 0,
        !mana_class(class) ==> health_mana_of(class).1 == 0,
        health_mana_of(class).0 > 0,
{
}

/// Default starting health and mana for a level 1 character by class.
pub fn default_health_mana(class: u8) -> (hm: (u32, u32))
    ensures
        hm == health_mana_of(class),
        hm.0 > 0,
        class == 1 ==> hm == (50u32, 0u32),
        class == 2 ==> hm == (52u32, 79u32),
        class == 3 ==> hm == (46u32, 85u32),
        class == 4 ==> hm == (45u32, 0u32),
        class == 5 ==> hm == (52u32, 160u32),
        class == 6 ==> hm == (130u32, 0u32),
        class == 7 ==> hm == (47u32, 73u32),
        class == 8 ==> hm == (42u32, 200u32),
        class == 9 ==> hm == (43u32, 200u32),
        class == 11 ==> hm == (54u32, 60u32),
        !set![1u8, 2, 3, 4, 5, 6, 7, 8, 9, 11].contains(class) ==> hm == (50u32, 100u32),
        mana_class(class) ==> hm.1 > 0,
        !mana_class(class) ==> hm.1 == 0,
{
    match class {
        1 => (50, 0),
        2 => (52, 79),
        3 => (46, 85),
        4 => (45, 0),
        5 => (52, 160),
        6 => (130, 0),
        7 => (47, 73),
        8 => (42, 200),
        9 => (43, 200),
        11 => (54, 60),
        _ => (50, 100),
    }
}

/// The inventory type that each equipment slot holds.
pub open spec fn inventory_type_of_slot(slot: u8) -> Option<u8> {
    if slot <= 9 {
        Some((slot + 1) as u8)
    } else if slot == 10 || slot == 11 {
        Some(11)
    } else if slot == 12 || slot == 13 {
        Some(12)
    } else if slot == 14 {
        Some(16)
    } else if slot == 15 {
        Some(21)
    } else if slot == 16 {
        Some(22)
    } else if slot == 17 {
        Some(15)
    } else if slot == 18 {
        Some(19)
    } else {
        None
    }
}

/// The armor slots hold the inventory type one above their index; the two
/// ring slots hold rings and the two trinket slots trinkets, and no two other
/// equipment slots hold the same type.
pub proof fn lemma_slot_inventory_types(a: u8, b: u8)
    requires
        a < 19,
        b < 19,
        a != b,
    ensures
        a <= 9 ==> inventory_type_of_slot(a) == Some((a + 1) as u8),
        inventory_type_of_slot(a) == inventory_type_of_slot(b) <==> set![(10u8, 11u8), (11u8, 10u8),
            (12u8, 13u8), (13u8, 12u8)].contains((a, b)),
{
}

/// Reverse-map an equipment slot (0-18) to its inventory type.
pub fn slot_to_inventory_type(slot: u8) -> (t: Option<u8>)
    ensures
        t == inventory_type_of_slot(slot),
        t is Some <==> slot < 19,
        slot == 0 ==> t == Some(1u8),
        slot == 1 ==> t == Some(2u8),
        slot == 2 ==> t == Some(3u8),
        slot == 3 ==> t == Some(4u8),
        slot == 4 ==> t == Some(5u8),
        slot == 5 ==> t == Some(6u8),
        slot == 6 ==> t == Some(7u8),
        slot == 7 ==> t == Some(8u8),
        slot == 8 ==> t == Some(9u8),
        slot == 9 ==> t == Some(10u8),
        slot == 10 ==> t == Some(11u8),
        slot == 11 ==> t == Some(11u8),
        slot == 12 ==> t == Some(12u8),
        slot == 13 ==> t == Some(12u8),
        slot == 14 ==> t == Some(16u8),
        slot == 15 ==> t == Some(21u8),
        slot == 16 ==> t == Some(22u8),
        slot == 17 ==> t == Some(15u8),
        slot == 18 ==> t == Some(19u8),
{
    match slot {
        0 => Some(1),
        1 => Some(2),
        2 => Some(3),
        3 => Some(4),
        4 => Some(5),
        5 => Some(6),
        6 => Some(7),
        7 => Some(8),
        8 => Some(9),
        9 => Some(10),
        10 | 11 => Some(11),
        12 | 13 => Some(12),
        14 => Some(16),
        15 => Some(21),
        16 => Some(22),
        17 => Some(15),
        18 => Some(19),
        _ => None,
    }
}

/// The answer codes of a character creation request.
#[derive(Clone, Copy, Debug, PartialEq, Eq, Structural)]
pub enum CreateCharCode {
    Success,
    Error,
    NameInUse,
    AccountLimit,
}

pub open spec fn is_ascii_letter(c: char) -> bool {
    ('a' <= c && c <= 'z') || ('A' <= c && c <= 'Z')
}

/// A new character's name: 2 to 12 characters, all ASCII letters.
pub open spec fn valid_new_name(name: Seq<char>) -> bool {
    &&& 2 <= name.len() <= 12
    &&& forall|i: int| 0 <= i < name.len() ==> #[trigger] is_ascii_letter(name[i])
}

/// Whether a requested character name may be used: its length in bytes must be
/// 2 to 12 and every character an ASCII letter.
pub fn create_character_name_is_valid(name: &str) -> (b: bool)
    ensures
        b == valid_new_name(name@),
        name@.len() < 2 || name@.len() > 12 ==> !b,
        b ==> forall|i: int| 0 <= i < name@.len() ==> ('a' <= #[trigger] name@[i] <= 'z') || (
        'A' <= name@[i] <= 'Z'),
        2 <= name@.len() <= 12 && (forall|i: int| 0 <= i < name@.len() ==> ('a' <= #[trigger] name@[i]
            <= 'z') || ('A' <= name@[i] <= 'Z')) ==> b,
{
    broadcast use vstd::string::axiom_spec_iter, vstd::string::next_postcondition;

    let mut count: usize = 0;
    let mut all_letters = true;
    let mut iter = name.chars();
    let ghost seen: Seq<char> = Seq::empty();
    loop
        invariant
            seen + vstd::std_specs::iter::IteratorSpec::remaining(&iter) == name@,
            vstd::std_specs::iter::IteratorSpec::obeys_prophetic_iter_laws(&iter),
            vstd::std_specs::iter::IteratorSpec::decrease(&iter) is Some,
            count == seen.len() || (count == 13 && seen.len() >= 13),
            count <= 13,
            all_letters == (forall|i: int| 0 <= i < seen.len() ==> #[trigger] is_ascii_letter(seen[i])),
        ensures
            seen == name@,
            count == seen.len() || (count == 13 && seen.len() >= 13),
            all_letters == (forall|i: int| 0 <= i < seen.len() ==> #[trigger] is_ascii_letter(seen[i])),
        decreases vstd::std_specs::iter::IteratorSpec::decrease(&iter)->0,
    {
        let ghost before = vstd::std_specs::iter::IteratorSpec::remaining(&iter);
        match iter.next() {
            Some(c) => {
                let ghost old_seen = seen;
                proof {
                    assert(seen.push(c) + vstd::std_specs::iter::IteratorSpec::remaining(&iter)
                        =~= seen + before);
                    seen = seen.push(c);
                    assert(seen.last() == c);
                    assert(forall|i: int| 0 <= i < old_seen.len() ==> seen[i] == old_seen[i]);
                }
                if !(('a' <= c && c <= 'z') || ('A' <= c && c <= 'Z')) {
                    all_letters = false;
                    proof {
                        assert(!is_ascii_letter(seen[seen.len() - 1]));
                    }
                } else {
                    proof {
                        if all_letters {
                            assert forall|i: int| 0 <= i < seen.len() implies #[trigger] is_ascii_letter(seen[i]) by {
                                if i < old_seen.len() {
                                    assert(is_ascii_letter(old_seen[i]));
                                }
                            }
                        } else {
                            let k = choose|k: int| 0 <= k < old_seen.len() && !is_ascii_letter(old_seen[k]);
                            assert(!is_ascii_letter(seen[k]));
                        }
                    }
                }
                if count < 13 {
                    count = count + 1;
                }
            },
            None => {
                proof {
                    assert(seen + before =~= seen);
                }
                break;
            },
        }
    }
    let ok = 2 <= count && count <= 12 && all_letters;
    proof {
        assert forall|i: int| ok && 0 <= i < name@.len() implies ('a' <= #[trigger] name@[i] <= 'z')
            || ('A' <= name@[i] <= 'Z') by {
            assert(is_ascii_letter(name@[i]));
        }
        if 2 <= name@.len() <= 12 && (forall|i: int| 0 <= i < name@.len() ==> ('a'
            <= #[trigger] name@[i] <= 'z') || ('A' <= name@[i] <= 'Z')) {
            assert forall|i: int| 0 <= i < name@.len() implies #[trigger] is_ascii_letter(name@[i]) by {
                assert(('a' <= name@[i] <= 'z') || ('A' <= name@[i] <= 'Z'));
            }
        }
    }
    ok
}

/// Why a creation request is refused before the database is asked, if it is:
/// a name that is not 2 to 12 ASCII letters.
pub fn create_character_name_check(name: &str) -> (r: Option<CreateCharCode>)
    ensures
        r == (if valid_new_name(name@) {
            None
        } else {
            Some(CreateCharCode::Error)
        }),
{
    if create_character_name_is_valid(name) {
        None
    } else {
        Some(CreateCharCode::Error)
    }
}

/// An account that already has the maximum number of characters may not create another.
pub fn create_character_account_limit_check(existing_count: i64) -> (r: Option<CreateCharCode>)
    ensures
        r == (if existing_count >= MAX_CHARACTERS_PER_ACCOUNT {
            Some(CreateCharCode::AccountLimit)
        } else {
            None
        }),
        r is Some <==> existing_count >= 10,
{
    if existing_count >= MAX_CHARACTERS_PER_ACCOUNT as i64 {
        Some(CreateCharCode::AccountLimit)
    } else {
        None
    }
}

/// The stored sex of a new character: a negative request reads as 0.
pub fn create_character_sex(requested: i8) -> (s: u8)
    ensures
        s == (if requested < 0 {
            0
        } else {
            requested as u8
        }),
{
    if requested < 0 {
        0
    } else {
        requested as u8
    }
}

/// The flags of a character in the character list, derived from its stored
/// player flags and login flags.
#[derive(Clone, Copy, Debug, PartialEq, Eq, Structural)]
pub struct CharacterListFlags {
    pub flags: u32,
    pub flags2: u32,
    pub first_login: bool,
    pub legit: bool,
}

/// Player flag: resting.
pub const PLAYER_FLAGS_RESTING: u32 = 0x20;
/// Player flag: ghost.
pub const PLAYER_FLAGS_GHOST: u32 = 0x10;
/// Login flag: rename.
pub const AT_LOGIN_RENAME: u16 = 0x01;
/// Login flag: customize.
pub const AT_LOGIN_CUSTOMIZE: u16 = 0x08;
/// Login flag: first login.
pub const AT_LOGIN_FIRST: u16 = 0x20;
/// Login flag: change faction.
pub const AT_LOGIN_CHANGE_FACTION: u16 = 0x40;
/// Login flag: change race.
pub const AT_LOGIN_CHANGE_RACE: u16 = 0x80;
/// Login flag: resurrect.
pub const AT_LOGIN_RESURRECT: u16 = 0x100;
/// Character flag: resting.
pub const CHARACTER_FLAG_RESTING: u32 = 0x02;
/// Character flag: ghost.
pub const CHARACTER_FLAG_GHOST: u32 = 0x2000;
/// Character flag: rename pending.
pub const CHARACTER_FLAG_RENAME: u32 = 0x4000;
/// Character flags that lock a character (transfer lock, billing lock).
pub const CHARACTER_FLAGS_LOCKED: u32 = 0x0100_0004;

pub open spec fn list_flags_of(player_flags: u32, at_login_flags: u16) -> u32 {
    ((if player_flags & PLAYER_FLAGS_RESTING != 0 {
        CHARACTER_FLAG_RESTING
    } else {
        0
    }) + (if player_flags & PLAYER_FLAGS_GHOST != 0 && at_login_flags & AT_LOGIN_RESURRECT == 0 {
        CHARACTER_FLAG_GHOST
    } else {
        0
    }) + (if at_login_flags & AT_LOGIN_RENAME != 0 {
        CHARACTER_FLAG_RENAME
    } else {
        0
    })) as u32
}

pub open spec fn list_flags2_of(at_login_flags: u16) -> u32 {
    if at_login_flags & AT_LOGIN_CUSTOMIZE != 0 {
        1
    } else if at_login_flags & AT_LOGIN_CHANGE_FACTION != 0 {
        2
    } else if at_login_flags & AT_LOGIN_CHANGE_RACE != 0 {
        4
    } else {
        0
    }
}

/// Only the resting, ghost (unless a resurrect is pending) and rename bits
/// carry over into the list flags; the customize, faction and race changes
/// (first one set wins) become the customize flags.
pub fn character_list_flags(player_flags: u32, at_login_flags: u16) -> (r: CharacterListFlags)
    ensures
        r.flags == list_flags_of(player_flags, at_login_flags),
        r.flags2 == list_flags2_of(at_login_flags),
        r.first_login == (at_login_flags & AT_LOGIN_FIRST != 0),
        r.legit == (r.flags & CHARACTER_FLAGS_LOCKED == 0),
        r.legit,
        r.flags == (if player_flags & 0x20 != 0 {
            2u32
        } else {
            0
        }) + (if player_flags & 0x10 != 0 && at_login_flags & 0x100 == 0 {
            0x2000u32
        } else {
            0
        }) + (if at_login_flags & 0x01 != 0 {
            0x4000u32
        } else {
            0
        }),
        r.flags2 == (if at_login_flags & 0x08 != 0 {
            1u32
        } else if at_login_flags & 0x40 != 0 {
            2
        } else if at_login_flags & 0x80 != 0 {
            4
        } else {
            0
        }),
        r.first_login == (at_login_flags & 0x20 != 0),
{
    let resting: u32 = if player_flags & PLAYER_FLAGS_RESTING != 0 {
        CHARACTER_FLAG_RESTING
    } else {
        0
    };
    let ghost_flag: u32 = if player_flags & PLAYER_FLAGS_GHOST != 0 && at_login_flags
        & AT_LOGIN_RESURRECT == 0 {
        CHARACTER_FLAG_GHOST
    } else {
        0
    };
    let rename: u32 = if at_login_flags & AT_LOGIN_RENAME != 0 {
        CHARACTER_FLAG_RENAME
    } else {
        0
    };
    let char_flags: u32 = resting | ghost_flag | rename;
    proof {
        assert((resting == 0 || resting == 2) && (ghost_flag == 0 || ghost_flag == 0x2000) && (
        rename == 0 || rename == 0x4000) ==> resting | ghost_flag | rename == resting + ghost_flag
            + rename && (resting | ghost_flag | rename) & 0x0100_0004u32 == 0) by (bit_vector);
    }
    let flags2: u32 = if at_login_flags & AT_LOGIN_CUSTOMIZE != 0 {
        1
    } else if at_login_flags & AT_LOGIN_CHANGE_FACTION != 0 {
        2
    } else if at_login_flags & AT_LOGIN_CHANGE_RACE != 0 {
        4
    } else {
        0
    };
    CharacterListFlags {
        flags: char_flags,
        flags2,
        first_login: at_login_flags & AT_LOGIN_FIRST != 0,
        legit: char_flags & CHARACTER_FLAGS_LOCKED == 0,
    }
}

/// Whether an account of an expansion may create a race.
#[derive(Clone, Copy, Debug, PartialEq, Eq, Structural)]
pub struct RaceUnlock {
    pub race_id: u8,
    pub has_expansion: bool,
    pub has_achievement: bool,
    pub has_heritage_armor: bool,
    pub is_locked: bool,
}

/// The playable races with the expansion each needs.
pub open spec fn race_requirements() -> Seq<(u8, u8)> {
    seq![(1u8, 0u8), (2, 0), (3, 0), (4, 0), (5, 0), (6, 0), (7, 0), (8, 0), (10, 1), (11, 1)]
}

/// The race unlock list of an account: every playable race, unlocked where the
/// account's expansion reaches the race's expansion.
pub fn race_unlock_data(account_expansion: u8) -> (r: Vec<RaceUnlock>)
    ensures
        r@.len() == race_requirements().len(),
        forall|i: int|
            0 <= i < r@.len() ==> #[trigger] r@[i] == (RaceUnlock {
                race_id: race_requirements()[i].0,
                has_expansion: account_expansion >= race_requirements()[i].1,
                has_achievement: false,
                has_heritage_armor: false,
                is_locked: false,
            }),
        r@.len() == 10,
        forall|i: int| 0 <= i < 8 ==> #[trigger] r@[i].race_id == i + 1 && r@[i].has_expansion,
        r@[8].race_id == 10 && r@[9].race_id == 11,
        r@[8].has_expansion == (account_expansion >= 1),
        r@[9].has_expansion == (account_expansion >= 1),
        forall|i: int| 0 <= i < 10 ==> !(#[trigger] r@[i]).is_locked && !r@[i].has_achievement
            && !r@[i].has_heritage_armor,
{
    let reqs: [(u8, u8); 10] = [(1u8, 0u8), (2, 0), (3, 0), (4, 0), (5, 0), (6, 0), (7, 0), (8, 0), (10, 1), (11, 1)];
    proof {
        assert(reqs@ =~= race_requirements());
    }
    let mut out: Vec<RaceUnlock> = Vec::new();
    let mut i: usize = 0;
    while i < 10
        invariant
            i <= 10,
            reqs@ == race_requirements(),
            out@.len() == i,
            forall|j: int|
                0 <= j < i ==> #[trigger] out@[j] == (RaceUnlock {
                    race_id: race_requirements()[j].0,
                    has_expansion: account_expansion >= race_requirements()[j].1,
                    has_achievement: false,
                    has_heritage_armor: false,
                    is_locked: false,
                }),
        decreases 10 - i,
    {
        let (race_id, required) = reqs[i];
        out.push(
            RaceUnlock {
                race_id,
                has_expansion: account_expansion >= required,
                has_achievement: false,
                has_heritage_armor: false,
                is_locked: false,
            },
        );
        i = i + 1;
    }
    out
}

} // verus!
