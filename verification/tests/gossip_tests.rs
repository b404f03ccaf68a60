use wow_character::gossip::{
    find_gossip_option, gossip_conditions_met, gossip_menu_applies, gossip_option_interaction,
    gossip_text_condition_entry, npc_direct_interaction, select_gossip_text_id,
    GossipConditionCheck, GossipOptionInfo, NpcInteraction,
};
use wow_character::query::{
    gossip_option_wants_localized_text, localized_or_base, wants_localized_text,
    PageTextWalk, PageWalkAction, QueryCache, MAX_PAGE_TEXT_PAGES,
};

#[test]
fn gossip_menu_needs_flag_and_entry() {
    assert!(gossip_menu_applies(0x1, 3));
    assert!(gossip_menu_applies(0x81, 3));
    assert!(!gossip_menu_applies(0x80, 3));
    assert!(!gossip_menu_applies(0x1, 0));
}

#[test]
fn direct_interaction_follows_flag_priority() {
    assert_eq!(npc_direct_interaction(0x80 | 0x20000), NpcInteraction::ListInventory);
    assert_eq!(npc_direct_interaction(0x10 | 0x200000), NpcInteraction::TrainerList);
    assert_eq!(npc_direct_interaction(0x200000 | 0x20000), NpcInteraction::AuctionHello);
    assert_eq!(npc_direct_interaction(0x20000 | 0x2000), NpcInteraction::Open(8));
    assert_eq!(npc_direct_interaction(0x2000), NpcInteraction::Open(6));
    assert_eq!(npc_direct_interaction(0x80000), NpcInteraction::Open(14));
    assert_eq!(npc_direct_interaction(0x400000), NpcInteraction::Open(22));
    assert_eq!(npc_direct_interaction(0x800000), NpcInteraction::Open(10));
    assert_eq!(npc_direct_interaction(0x1), NpcInteraction::EmptyGossip);
    assert_eq!(npc_direct_interaction(0), NpcInteraction::EmptyGossip);
}

#[test]
fn gossip_option_kinds_open_their_windows() {
    assert_eq!(gossip_option_interaction(1), NpcInteraction::ListInventory);
    assert_eq!(gossip_option_interaction(2), NpcInteraction::Open(6));
    assert_eq!(gossip_option_interaction(3), NpcInteraction::TrainerList);
    assert_eq!(gossip_option_interaction(5), NpcInteraction::Open(20));
    assert_eq!(gossip_option_interaction(6), NpcInteraction::Open(8));
    assert_eq!(gossip_option_interaction(8), NpcInteraction::Open(14));
    assert_eq!(gossip_option_interaction(9), NpcInteraction::Nothing);
    assert_eq!(gossip_option_interaction(10), NpcInteraction::AuctionHello);
    assert_eq!(gossip_option_interaction(12), NpcInteraction::Open(22));
    assert_eq!(gossip_option_interaction(0), NpcInteraction::Nothing);
}

#[test]
fn gossip_option_lookup_takes_first_match() {
    let options = vec![
        GossipOptionInfo { gossip_option_id: 4, option_npc: 1, action_menu_id: 0 },
        GossipOptionInfo { gossip_option_id: 7, option_npc: 3, action_menu_id: 1 },
        GossipOptionInfo { gossip_option_id: 7, option_npc: 6, action_menu_id: 2 },
    ];
    assert_eq!(find_gossip_option(&options, 7), Some(options[1]));
    assert_eq!(find_gossip_option(&options, 4), Some(options[0]));
    assert_eq!(find_gossip_option(&options, 5), None);
}

#[test]
fn gossip_text_is_last_met_row_or_default() {
    assert_eq!(select_gossip_text_id(&Vec::new()), 1);
    assert_eq!(select_gossip_text_id(&vec![(10, false), (11, false)]), 1);
    assert_eq!(select_gossip_text_id(&vec![(10, true), (11, false), (12, true), (13, false)]), 12);
}

#[test]
fn gossip_text_conditions_fall_back_to_menu_entry() {
    assert_eq!(gossip_text_condition_entry(5005, true), 5005);
    assert_eq!(gossip_text_condition_entry(5005, false), 0);
}

#[test]
fn gossip_conditions_fail_closed_without_objects() {
    assert!(gossip_conditions_met(GossipConditionCheck::NoConditions));
    assert!(!gossip_conditions_met(GossipConditionCheck::MissingPlayer));
    assert!(!gossip_conditions_met(GossipConditionCheck::MissingSource));
    assert!(gossip_conditions_met(GossipConditionCheck::Evaluated(true)));
    assert!(!gossip_conditions_met(GossipConditionCheck::Evaluated(false)));
}

#[test]
fn localized_text_rules() {
    assert!(!wants_localized_text(&String::new()));
    assert!(!wants_localized_text(&"enUS".to_string()));
    assert!(wants_localized_text(&"deDE".to_string()));
    assert!(gossip_option_wants_localized_text(7, &"frFR".to_string()));
    assert!(gossip_option_wants_localized_text(7, &String::new()));
    assert!(!gossip_option_wants_localized_text(0, &"frFR".to_string()));
    assert!(!gossip_option_wants_localized_text(7, &"enUS".to_string()));
    assert_eq!(localized_or_base("Name".to_string(), Some("Nom".to_string())), "Nom");
    assert_eq!(localized_or_base("Name".to_string(), Some(String::new())), "Name");
    assert_eq!(localized_or_base("Name".to_string(), None), "Name");
}

#[test]
fn creature_template_answered_once_per_session() {
    let mut cache = QueryCache::new();
    assert!(cache.first_query(299));
    assert!(!cache.first_query(299));
    assert!(cache.first_query(300));
    assert!(!cache.first_query(299));
}

#[test]
fn page_walk_follows_chain_until_zero() {
    let (mut walk, action) = PageTextWalk::start(10);
    assert_eq!(action, PageWalkAction::Fetch(10));
    assert_eq!(walk.on_page(11), PageWalkAction::Fetch(11));
    assert_eq!(walk.on_page(0), PageWalkAction::Finish);
    assert_eq!(walk.pages, 2);
    assert!(walk.allowed());
}

#[test]
fn page_walk_stops_on_cycle() {
    let (mut walk, _) = PageTextWalk::start(1);
    assert_eq!(walk.on_page(2), PageWalkAction::Fetch(2));
    assert_eq!(walk.on_page(1), PageWalkAction::Finish);
    assert_eq!(walk.requested, vec![1, 2]);
}

#[test]
fn page_walk_stops_at_page_limit() {
    let (mut walk, _) = PageTextWalk::start(1);
    let mut fetched = 1;
    loop {
        match walk.on_page(fetched + 1) {
            PageWalkAction::Fetch(p) => fetched = p,
            PageWalkAction::Finish => break,
        }
    }
    assert_eq!(walk.pages, MAX_PAGE_TEXT_PAGES);
    assert_eq!(walk.requested.len(), MAX_PAGE_TEXT_PAGES);
}

#[test]
fn page_walk_from_page_zero_is_denied() {
    let (walk, action) = PageTextWalk::start(0);
    assert_eq!(action, PageWalkAction::Finish);
    assert!(!walk.allowed());
}
