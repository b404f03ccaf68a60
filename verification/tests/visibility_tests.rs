use wow_character::guid::ObjectGuid;
use wow_character::visibility::{
    creature_spawn_display_id, creature_spawn_health, creature_spawn_melee_damage,
    fishing_hole_max_opens,
    ClientVisibility, ObjectKind, VisibleObject,
};

fn g(n: u64) -> ObjectGuid {
    ObjectGuid::new(0x2000_0000_0000_0000, n)
}

fn seen(v: &ClientVisibility, kind: ObjectKind) -> Vec<ObjectGuid> {
    v.objects.iter().filter(|o| o.kind == kind).map(|o| o.guid).collect()
}

#[test]
fn first_refresh_creates_everything_in_range() {
    let mut v = ClientVisibility::new();
    let change = v.refresh(ObjectKind::Creature, &vec![g(1), g(2)]);
    assert_eq!(change.created, vec![g(1), g(2)]);
    assert!(change.removed.is_empty());
    assert_eq!(seen(&v, ObjectKind::Creature), vec![g(1), g(2)]);
    assert!(v.is_visible(g(1)));
    assert!(!v.is_visible(g(3)));
}

#[test]
fn refresh_reports_new_and_departed_objects() {
    let mut v = ClientVisibility::new();
    v.refresh(ObjectKind::Creature, &vec![g(1), g(2), g(3)]);
    let change = v.refresh(ObjectKind::Creature, &vec![g(2), g(4)]);
    assert_eq!(change.created, vec![g(4)]);
    assert_eq!(change.removed, vec![g(1), g(3)]);
    assert_eq!(seen(&v, ObjectKind::Creature), vec![g(2), g(4)]);
}

#[test]
fn refresh_leaves_other_kinds_alone() {
    let mut v = ClientVisibility::new();
    v.refresh(ObjectKind::GameObject, &vec![g(10), g(11)]);
    v.refresh(ObjectKind::DynamicObject, &vec![g(20)]);
    let change = v.refresh(ObjectKind::Creature, &vec![g(1)]);
    assert_eq!(change.created, vec![g(1)]);
    assert!(change.removed.is_empty());
    assert_eq!(seen(&v, ObjectKind::GameObject), vec![g(10), g(11)]);
    assert_eq!(seen(&v, ObjectKind::DynamicObject), vec![g(20)]);
    let change = v.refresh(ObjectKind::GameObject, &Vec::new());
    assert_eq!(change.removed, vec![g(10), g(11)]);
    assert!(seen(&v, ObjectKind::GameObject).is_empty());
    assert_eq!(seen(&v, ObjectKind::Creature), vec![g(1)]);
    assert_eq!(seen(&v, ObjectKind::DynamicObject), vec![g(20)]);
}

#[test]
fn refreshing_again_with_same_range_settles() {
    let mut v = ClientVisibility::new();
    v.refresh(ObjectKind::Creature, &vec![g(5), g(6), g(5)]);
    let change = v.refresh(ObjectKind::Creature, &vec![g(5), g(6), g(5)]);
    assert!(change.created.is_empty());
    assert!(change.removed.is_empty());
    assert_eq!(seen(&v, ObjectKind::Creature), vec![g(5), g(6)]);
}

#[test]
fn object_already_seen_as_other_kind_is_not_created_again() {
    let mut v = ClientVisibility::new();
    v.objects.push(VisibleObject { guid: g(7), kind: ObjectKind::Other });
    let change = v.refresh(ObjectKind::Creature, &vec![g(7), g(8)]);
    assert_eq!(change.created, vec![g(8)]);
}

#[test]
fn spawn_display_prefers_spawn_model() {
    assert_eq!(creature_spawn_display_id(1234, 99), Some(1234));
    assert_eq!(creature_spawn_display_id(0, 99), Some(99));
    assert_eq!(creature_spawn_display_id(0, 0), None);
}

#[test]
fn spawn_health_defaults_to_one_hundred() {
    assert_eq!(creature_spawn_health(0), 100);
    assert_eq!(creature_spawn_health(42), 42);
    assert_eq!(creature_spawn_health(u32::MAX), u32::MAX as i64);
}

#[test]
fn spawn_melee_damage_follows_level() {
    assert_eq!(creature_spawn_melee_damage(0), (5, 7));
    assert_eq!(creature_spawn_melee_damage(1), (5, 7));
    assert_eq!(creature_spawn_melee_damage(10), (32, 48));
    assert_eq!(creature_spawn_melee_damage(255), (767, 1150));
}

#[test]
fn gameobject_without_display_is_not_spawned() {
    assert!(!wow_character::visibility::gameobject_spawn_displayed(0));
    assert!(wow_character::visibility::gameobject_spawn_displayed(1234));
}

#[test]
fn fishing_hole_opens_roll_between_the_template_bounds() {
    assert_eq!(fishing_hole_max_opens(5, 3), 5);
    assert_eq!(fishing_hole_max_opens(4, 4), 4);
    for _ in 0..50 {
        let n = fishing_hole_max_opens(2, 6);
        assert!((2..=6).contains(&n));
    }
    let wide = fishing_hole_max_opens(1, u32::MAX);
    assert!(wide >= 1);
}
