use vstd::prelude::*;

verus! {

/// NPC flag: the creature has a gossip menu.
pub const NPC_FLAG_GOSSIP: u32 = 0x1;
/// NPC flags of the trainer kinds.
pub const NPC_FLAGS_TRAINER: u32 = 0x10 | 0x20 | 0x40;
/// NPC flags of the vendor kinds.
pub const NPC_FLAGS_VENDOR: u32 = 0x80 | 0x100 | 0x200 | 0x400 | 0x800;
pub const NPC_FLAG_FLIGHT_MASTER: u32 = 0x2000;
pub const NPC_FLAG_BANKER: u32 = 0x20000;
pub const NPC_FLAG_TABARD_DESIGNER: u32 = 0x80000;
pub const NPC_FLAG_AUCTIONEER: u32 = 0x200000;
pub const NPC_FLAG_STABLE_MASTER: u32 = 0x400000;
pub const NPC_FLAG_GUILD_BANKER: u32 = 0x800000;

/// Interaction window kinds sent to the client to open an NPC's service.
pub const INTERACTION_FLIGHT_MASTER: u32 = 6;
pub const INTERACTION_BANKER: u32 = 8;
pub const INTERACTION_GUILD_BANKER: u32 = 10;
pub const INTERACTION_TABARD_DESIGNER: u32 = 14;
pub const INTERACTION_BINDER: u32 = 20;
pub const INTERACTION_STABLE_MASTER: u32 = 22;

/// What talking to an NPC opens.
#[derive(Clone, Copy, Debug, PartialEq, Eq, Structural)]
pub enum NpcInteraction {
    /// The vendor's item list.
    ListInventory,
    /// The trainer's spell list.
    TrainerList,
    /// The auction house window.
    AuctionHello,
    /// An interaction window of the given kind.
    Open(u32),
    /// An empty gossip window.
    EmptyGossip,
    /// Nothing.
    Nothing,
}

/// Whether greeting an NPC looks for its gossip menu first: it has the gossip
/// flag and a known template.
pub fn gossip_menu_applies(npc_flags: u32, entry: u32) -> (b: bool)
    ensures
        b == (npc_flags & NPC_FLAG_GOSSIP != 0 && entry != 0),
{
    npc_flags & NPC_FLAG_GOSSIP != 0 && entry != 0
}

/// What an NPC without a gossip menu opens, by the first of its service flags
/// in the order vendor, trainer, auctioneer, banker, flight master, tabard
/// designer, stable master, guild banker; an empty gossip window otherwise.
pub open spec fn direct_interaction(npc_flags: u32) -> NpcInteraction {
    if npc_flags & NPC_FLAGS_VENDOR != 0 {
        NpcInteraction::ListInventory
    } else if npc_flags & NPC_FLAGS_TRAINER != 0 {
        NpcInteraction::TrainerList
    } else if npc_flags & NPC_FLAG_AUCTIONEER != 0 {
        NpcInteraction::AuctionHello
    } else if npc_flags & NPC_FLAG_BANKER != 0 {
        NpcInteraction::Open(INTERACTION_BANKER)
    } else if npc_flags & NPC_FLAG_FLIGHT_MASTER != 0 {
        NpcInteraction::Open(INTERACTION_FLIGHT_MASTER)
    } else if npc_flags & NPC_FLAG_TABARD_DESIGNER != 0 {
        NpcInteraction::Open(INTERACTION_TABARD_DESIGNER)
    } else if npc_flags & NPC_FLAG_STABLE_MASTER != 0 {
        NpcInteraction::Open(INTERACTION_STABLE_MASTER)
    } else if npc_flags & NPC_FLAG_GUILD_BANKER != 0 {
        NpcInteraction::Open(INTERACTION_GUILD_BANKER)
    } else {
        NpcInteraction::EmptyGossip
    }
}

pub fn npc_direct_interaction(npc_flags: u32) -> (r: NpcInteraction)
    ensures
        r == direct_interaction(npc_flags),
        npc_flags & 0xF80 != 0 ==> r == NpcInteraction::ListInventory,
        npc_flags == 0x10 || npc_flags == 0x20 || npc_flags == 0x40 ==> r == NpcInteraction::TrainerList,
        npc_flags == 0x200000 ==> r == NpcInteraction::AuctionHello,
        npc_flags == 0x20000 ==> r == NpcInteraction::Open(8),
        npc_flags == 0x2000 ==> r == NpcInteraction::Open(6),
        npc_flags == 0x80000 ==> r == NpcInteraction::Open(14),
        npc_flags == 0x400000 ==> r == NpcInteraction::Open(22),
        npc_flags == 0x800000 ==> r == NpcInteraction::Open(10),
        npc_flags == 0 || npc_flags == 1 ==> r == NpcInteraction::EmptyGossip,
{
    proof {
        assert(0x80u32 | 0x100u32 | 0x200u32 | 0x400u32 | 0x800u32 == 0xF80u32
            && 0x10u32 | 0x20u32 | 0x40u32 == 0x70u32) by (bit_vector);
        let f = npc_flags;
        assert(f == 0x10 || f == 0x20 || f == 0x40 ==> f & 0xF80 == 0 && f & 0x70 != 0) by (bit_vector);
        assert(f == 0x200000 ==> f & 0xF80 == 0 && f & 0x70 == 0 && f & 0x200000 != 0) by (bit_vector);
        assert(f == 0x20000 ==> f & 0xF80 == 0 && f & 0x70 == 0 && f & 0x200000 == 0 && f & 0x20000
            != 0) by (bit_vector);
        assert(f == 0x2000 ==> f & 0xF80 == 0 && f & 0x70 == 0 && f & 0x200000 == 0 && f & 0x20000
            == 0 && f & 0x2000 != 0) by (bit_vector);
        assert(f == 0x80000 ==> f & 0xF80 == 0 && f & 0x70 == 0 && f & 0x200000 == 0 && f & 0x20000
            == 0 && f & 0x2000 == 0 && f & 0x80000 != 0) by (bit_vector);
        assert(f == 0x400000 ==> f & 0xF80 == 0 && f & 0x70 == 0 && f & 0x200000 == 0 && f & 0x20000
            == 0 && f & 0x2000 == 0 && f & 0x80000 == 0 && f & 0x400000 != 0) by (bit_vector);
        assert(f == 0x800000 ==> f & 0xF80 == 0 && f & 0x70 == 0 && f & 0x200000 == 0 && f & 0x20000
            == 0 && f & 0x2000 == 0 && f & 0x80000 == 0 && f & 0x400000 == 0 && f & 0x800000 != 0)
            by (bit_vector);
        assert(f == 0 || f == 1 ==> f & 0xF80 == 0 && f & 0x70 == 0 && f & 0x200000 == 0 && f
            & 0x20000 == 0 && f & 0x2000 == 0 && f & 0x80000 == 0 && f & 0x400000 == 0 && f
            & 0x800000 == 0) by (bit_vector);
    }
    if npc_flags & NPC_FLAGS_VENDOR != 0 {
        NpcInteraction::ListInventory
    } else if npc_flags & NPC_FLAGS_TRAINER != 0 {
        NpcInteraction::TrainerList
    } else if npc_flags & NPC_FLAG_AUCTIONEER != 0 {
        NpcInteraction::AuctionHello
    } else if npc_flags & NPC_FLAG_BANKER != 0 {
        NpcInteraction::Open(INTERACTION_BANKER)
    } else if npc_flags & NPC_FLAG_FLIGHT_MASTER != 0 {
        NpcInteraction::Open(INTERACTION_FLIGHT_MASTER)
    } else if npc_flags & NPC_FLAG_TABARD_DESIGNER != 0 {
        NpcInteraction::Open(INTERACTION_TABARD_DESIGNER)
    } else if npc_flags & NPC_FLAG_STABLE_MASTER != 0 {
        NpcInteraction::Open(INTERACTION_STABLE_MASTER)
    } else if npc_flags & NPC_FLAG_GUILD_BANKER != 0 {
        NpcInteraction::Open(INTERACTION_GUILD_BANKER)
    } else {
        NpcInteraction::EmptyGossip
    }
}

/// What choosing a gossip option opens, by the option's NPC kind: 1 vendor,
/// 2 flight master, 3 trainer, 5 innkeeper, 6 banker, 8 tabard vendor,
/// 10 auctioneer, 12 stable master; any other kind opens nothing.
pub fn gossip_option_interaction(option_npc: u8) -> (r: NpcInteraction)
    ensures
        r == (if option_npc == 1 {
            NpcInteraction::ListInventory
        } else if option_npc == 2 {
            NpcInteraction::Open(INTERACTION_FLIGHT_MASTER)
        } else if option_npc == 3 {
            NpcInteraction::TrainerList
        } else if option_npc == 5 {
            NpcInteraction::Open(INTERACTION_BINDER)
        } else if option_npc == 6 {
            NpcInteraction::Open(INTERACTION_BANKER)
        } else if option_npc == 8 {
            NpcInteraction::Open(INTERACTION_TABARD_DESIGNER)
        } else if option_npc == 10 {
            NpcInteraction::AuctionHello
        } else if option_npc == 12 {
            NpcInteraction::Open(INTERACTION_STABLE_MASTER)
        } else {
            NpcInteraction::Nothing
        }),
{
    match option_npc {
        1 => NpcInteraction::ListInventory,
        2 => NpcInteraction::Open(INTERACTION_FLIGHT_MASTER),
        3 => NpcInteraction::TrainerList,
        5 => NpcInteraction::Open(INTERACTION_BINDER),
        6 => NpcInteraction::Open(INTERACTION_BANKER),
        8 => NpcInteraction::Open(INTERACTION_TABARD_DESIGNER),
        10 => NpcInteraction::AuctionHello,
        12 => NpcInteraction::Open(INTERACTION_STABLE_MASTER),
        _ => NpcInteraction::Nothing,
    }
}

/// A gossip option shown to the player, kept for when it is chosen.
#[derive(Clone, Copy, Debug, PartialEq, Eq, Structural)]
pub struct GossipOptionInfo {
    pub gossip_option_id: i32,
    pub option_npc: u8,
    pub action_menu_id: u32,
}

/// The index of the first option of `s` with id `id`, if any.
pub open spec fn first_option_index(s: Seq<GossipOptionInfo>, id: i32) -> Option<int>
    decreases s.len(),
{
    if s.len() == 0 {
        None
    } else {
        match first_option_index(s.drop_last(), id) {
            Some(k) => Some(k),
            None => if s.last().gossip_option_id == id {
                Some(s.len() - 1)
            } else {
                None
            },
        }
    }
}

/// The first stored option with id `id`.
pub fn find_gossip_option(options: &Vec<GossipOptionInfo>, id: i32) -> (r: Option<GossipOptionInfo>)
    ensures
        r == (match first_option_index(options@, id) {
            Some(k) => Some(options@[k]),
            None => None::<GossipOptionInfo>,
        }),
{
    let mut i: usize = 0;
    while i < options.len()
        invariant
            i <= options.len(),
            first_option_index(options@.take(i as int), id) is None,
        decreases options.len() - i,
    {
        proof {
            assert(options@.take(i + 1).drop_last() =~= options@.take(i as int));
        }
        if options[i].gossip_option_id == id {
            proof {
                lemma_first_option_prefix(options@, id, i + 1);
            }
            return Some(options[i]);
        }
        i = i + 1;
    }
    proof {
        assert(options@.take(i as int) =~= options@);
    }
    None
}

proof fn lemma_first_option_prefix(s: Seq<GossipOptionInfo>, id: i32, n: int)
    requires
        0 <= n <= s.len(),
        first_option_index(s.take(n), id) is Some,
    ensures
        first_option_index(s, id) == first_option_index(s.take(n), id),
    decreases s.len() - n,
{
    if n < s.len() {
        assert(s.take(n + 1).drop_last() =~= s.take(n));
        lemma_first_option_prefix(s, id, n + 1);
    } else {
        assert(s.take(n) =~= s);
    }
}

/// The text id shown when no gossip text's conditions are met.
pub const DEFAULT_GOSSIP_TEXT_ID: u32 = 1;

/// The text id of a gossip menu: the last of its texts whose conditions are
/// met, or the default text when none is.
pub open spec fn gossip_text_id(rows: Seq<(u32, bool)>) -> u32
    decreases rows.len(),
{
    if rows.len() == 0 {
        DEFAULT_GOSSIP_TEXT_ID
    } else if rows.last().1 {
        rows.last().0
    } else {
        gossip_text_id(rows.drop_last())
    }
}

/// The text shown is that of the last row whose conditions are met: later
/// rows whose conditions fail never change it, and with no row met the
/// default text is shown.
pub proof fn lemma_gossip_text_is_last_met(rows: Seq<(u32, bool)>, k: int)
    ensures
        (forall|i: int| 0 <= i < rows.len() ==> !(#[trigger] rows[i]).1) ==> gossip_text_id(rows) == 1,
        0 <= k < rows.len() && rows[k].1 && (forall|j: int| k < j < rows.len() ==> !(
        #[trigger] rows[j]).1) ==> gossip_text_id(rows) == rows[k].0,
    decreases rows.len(),
{
    if rows.len() > 0 {
        let init = rows.drop_last();
        lemma_gossip_text_is_last_met(init, k);
        if forall|i: int| 0 <= i < rows.len() ==> !(#[trigger] rows[i]).1 {
            assert(!rows[rows.len() - 1].1);
            assert forall|i: int| 0 <= i < init.len() implies !(#[trigger] init[i]).1 by {
                assert(init[i] == rows[i]);
            }
        }
        if 0 <= k < rows.len() && rows[k].1 && (forall|j: int| k < j < rows.len() ==> !(
        #[trigger] rows[j]).1) {
            if k < rows.len() - 1 {
                assert(!rows[rows.len() - 1].1);
                assert(init[k] == rows[k]);
                assert forall|j: int| k < j < init.len() implies !(#[trigger] init[j]).1 by {
                    assert(init[j] == rows[j]);
                }
            }
        }
    }
}

/// Chooses a gossip menu's text among its rows (text id, whether the row's
/// conditions are met), in the order they were read.
pub fn select_gossip_text_id(rows: &Vec<(u32, bool)>) -> (r: u32)
    ensures
        r == gossip_text_id(rows@),
{
    let mut selected: u32 = DEFAULT_GOSSIP_TEXT_ID;
    let mut i: usize = 0;
    while i < rows.len()
        invariant
            i <= rows.len(),
            selected == gossip_text_id(rows@.take(i as int)),
        decreases rows.len() - i,
    {
        proof {
            assert(rows@.take(i + 1).drop_last() =~= rows@.take(i as int));
        }
        let (text_id, meets) = rows[i];
        if meets {
            selected = text_id;
        }
        i = i + 1;
    }
    proof {
        assert(rows@.take(i as int) =~= rows@);
    }
    selected
}

/// The condition entry a gossip text is checked under: its own when
/// conditions are attached to the text, else those of the whole menu (entry 0).
pub fn gossip_text_condition_entry(text_id: u32, text_has_conditions: bool) -> (r: i32)
    ensures
        r == (if text_has_conditions {
            text_id as i32
        } else {
            0
        }),
{
    if text_has_conditions {
        text_id as i32
    } else {
        0
    }
}

/// What is known when a gossip menu, text or option is checked against its conditions.
#[derive(Clone, Copy, Debug, PartialEq, Eq, Structural)]
pub enum GossipConditionCheck {
    /// No conditions are attached.
    NoConditions,
    /// The player could not be built as a condition target.
    MissingPlayer,
    /// The NPC could not be built as a condition source.
    MissingSource,
    /// The conditions were evaluated.
    Evaluated(bool),
}

/// Whether a gossip element is shown: with no conditions it is, a missing
/// player or NPC fails closed, and otherwise the evaluation decides.
pub fn gossip_conditions_met(check: GossipConditionCheck) -> (b: bool)
    ensures
        b == match check {
            GossipConditionCheck::NoConditions => true,
            GossipConditionCheck::MissingPlayer => false,
            GossipConditionCheck::MissingSource => false,
            GossipConditionCheck::Evaluated(met) => met,
        },
{
    match check {
        GossipConditionCheck::NoConditions => true,
        GossipConditionCheck::MissingPlayer => false,
        GossipConditionCheck::MissingSource => false,
        GossipConditionCheck::Evaluated(met) => met,
    }
}

} // verus!
