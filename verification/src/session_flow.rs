use vstd::prelude::*;
use vstd::string::StringExecFns;
use crate::guid::ObjectGuid;

verus! {

/// The most quest giver ids a tracked status query may carry.
pub const QUEST_GIVER_STATUS_TRACKED_QUERY_MAX_GUIDS: u32 = 1000;

/// Whether a tracked quest giver status query may carry `guid_count` ids.
pub fn quest_giver_tracked_count_ok(guid_count: u32) -> (b: bool)
    ensures
        b == (guid_count <= QUEST_GIVER_STATUS_TRACKED_QUERY_MAX_GUIDS),
{
    guid_count <= QUEST_GIVER_STATUS_TRACKED_QUERY_MAX_GUIDS
}

pub(crate) fn contains_guid(s: &Vec<ObjectGuid>, g: ObjectGuid) -> (b: bool)
    ensures
        b == s@.contains(g),
{
    let mut i: usize = 0;
    while i < s.len()
        invariant
            i <= s.len(),
            forall|j: int| 0 <= j < i ==> s@[j] != g,
        decreases s.len() - i,
    {
        if s[i].high == g.high && s[i].low == g.low {
            assert(s@[i as int] == g);
            return true;
        }
        i = i + 1;
    }
    false
}

/// The ids of a list, each once: the same set of ids, with no repeats.
pub fn distinct_guids(guids: &Vec<ObjectGuid>) -> (r: Vec<ObjectGuid>)
    ensures
        r@.no_duplicates(),
        forall|g: ObjectGuid| r@.contains(g) <==> guids@.contains(g),
{
    let mut out: Vec<ObjectGuid> = Vec::new();
    let mut i: usize = 0;
    while i < guids.len()
        invariant
            i <= guids.len(),
            out@.no_duplicates(),
            forall|g: ObjectGuid| out@.contains(g) <==> guids@.take(i as int).contains(g),
        decreases guids.len() - i,
    {
        let g = guids[i];
        proof {
            assert(guids@.take(i + 1) =~= guids@.take(i as int).push(g));
        }
        if !contains_guid(&out, g) {
            let ghost before = out@;
            out.push(g);
            proof {
                assert forall|h: ObjectGuid| out@.contains(h) <==> guids@.take(i + 1).contains(h) by {
                    vstd::seq_lib::lemma_seq_contains_after_push(before, g, h);
                    vstd::seq_lib::lemma_seq_contains_after_push(guids@.take(i as int), g, h);
                }
                assert forall|a: int, b: int| 0 <= a < out@.len() && 0 <= b < out@.len() && a != b
                    implies out@[a] != out@[b] by {
                    if a == out@.len() - 1 {
                        assert(!before.contains(out@[a]));
                        assert(before[b] == out@[b]);
                    } else if b == out@.len() - 1 {
                        assert(!before.contains(out@[b]));
                        assert(before[a] == out@[a]);
                    } else {
                        assert(before[a] == out@[a]);
                        assert(before[b] == out@[b]);
                    }
                }
            }
        } else {
            proof {
                assert forall|h: ObjectGuid| out@.contains(h) <==> guids@.take(i + 1).contains(h) by {
                    vstd::seq_lib::lemma_seq_contains_after_push(guids@.take(i as int), g, h);
                }
            }
        }
        i = i + 1;
    }
    proof {
        assert(guids@.take(i as int) =~= guids@);
    }
    out
}

/// The ids of `s` that `other` lacks, in order.
pub open spec fn absent_from(s: Seq<ObjectGuid>, other: Seq<ObjectGuid>) -> Seq<ObjectGuid>
    decreases s.len(),
{
    if s.len() == 0 {
        Seq::empty()
    } else if other.contains(s.last()) {
        absent_from(s.drop_last(), other)
    } else {
        absent_from(s.drop_last(), other).push(s.last())
    }
}

/// The ids of `s` that `other` lacks: objects that came into view when `s` is
/// the new view and `other` the old one, or that left it the other way round.
pub fn guids_absent_from(s: &Vec<ObjectGuid>, other: &Vec<ObjectGuid>) -> (r: Vec<ObjectGuid>)
    ensures
        r@ == absent_from(s@, other@),
{
    let mut out: Vec<ObjectGuid> = Vec::new();
    let mut i: usize = 0;
    while i < s.len()
        invariant
            i <= s.len(),
            out@ == absent_from(s@.take(i as int), other@),
        decreases s.len() - i,
    {
        proof {
            assert(s@.take(i + 1).drop_last() =~= s@.take(i as int));
        }
        let g = s[i];
        if !contains_guid(other, g) {
            out.push(g);
        }
        i = i + 1;
    }
    proof {
        assert(s@.take(i as int) =~= s@);
    }
    out
}

/// An id is in the result exactly when it is in `s` and not in `other`.
pub proof fn lemma_absent_from_members(s: Seq<ObjectGuid>, other: Seq<ObjectGuid>, g: ObjectGuid)
    ensures
        absent_from(s, other).contains(g) <==> (s.contains(g) && !other.contains(g)),
    decreases s.len(),
{
    if s.len() > 0 {
        lemma_absent_from_members(s.drop_last(), other, g);
        let rest = absent_from(s.drop_last(), other);
        if s.contains(g) && !s.drop_last().contains(g) {
            let k = choose|k: int| 0 <= k < s.len() && s[k] == g;
            if k < s.len() - 1 {
                assert(s.drop_last()[k] == g);
            }
        }
        if s.drop_last().contains(g) {
            let k = choose|k: int| 0 <= k < s.drop_last().len() && s.drop_last()[k] == g;
            assert(s[k] == g);
        }
        if !other.contains(s.last()) {
            let r2 = rest.push(s.last());
            if rest.contains(g) {
                let k = choose|k: int| 0 <= k < rest.len() && rest[k] == g;
                assert(r2[k] == g);
            }
            if r2.contains(g) && g != s.last() {
                let k = choose|k: int| 0 <= k < r2.len() && r2[k] == g;
                assert(rest[k] == g);
            }
            if g == s.last() {
                assert(r2[r2.len() - 1] == g);
                assert(s[s.len() - 1] == g);
            }
        } else {
            if g == s.last() {
                assert(s[s.len() - 1] == g);
            }
        }
    }
}

/// NPC flag: the creature gives quests.
pub const NPC_FLAG_QUEST_GIVER: u32 = 0x2;
/// Game object type of quest givers.
pub const GAMEOBJECT_TYPE_QUESTGIVER: u8 = 2;

/// What the world knows of an object whose quest status is asked for.
#[derive(Clone, Copy, Debug, PartialEq, Eq, Structural)]
pub enum QuestGiverAccess {
    /// A creature (of any creature kind) with its template and NPC flags.
    Creature { entry: u32, npc_flags: u32 },
    /// A game object with its template and, when its use state is known, its type.
    GameObject { entry: u32, go_type: Option<u8> },
    /// An object that cannot be reached, or of another kind.
    Missing,
}

/// Whose quest status an object shows.
#[derive(Clone, Copy, Debug, PartialEq, Eq, Structural)]
pub enum QuestGiverSource {
    Creature(u32),
    GameObject(u32),
}

/// The quest status source of an object, if it is a quest giver: a creature
/// with the quest giver flag, or a game object whose known type is a quest giver.
pub fn quest_giver_source(access: QuestGiverAccess) -> (r: Option<QuestGiverSource>)
    ensures
        r == match access {
            QuestGiverAccess::Creature { entry, npc_flags } => if npc_flags & NPC_FLAG_QUEST_GIVER
                != 0 {
                Some(QuestGiverSource::Creature(entry))
            } else {
                None
            },
            QuestGiverAccess::GameObject { entry, go_type } => if go_type == Some(
                GAMEOBJECT_TYPE_QUESTGIVER,
            ) {
                Some(QuestGiverSource::GameObject(entry))
            } else {
                None
            },
            QuestGiverAccess::Missing => None,
        },
{
    match access {
        QuestGiverAccess::Creature { entry, npc_flags } => if npc_flags & NPC_FLAG_QUEST_GIVER != 0 {
            Some(QuestGiverSource::Creature(entry))
        } else {
            None
        },
        QuestGiverAccess::GameObject { entry, go_type } => match go_type {
            Some(t) => if t == GAMEOBJECT_TYPE_QUESTGIVER {
                Some(QuestGiverSource::GameObject(entry))
            } else {
                None
            },
            None => None,
        },
        QuestGiverAccess::Missing => None,
    }
}

/// Realm name lookup answer: found.
pub const REALM_LOOKUP_SUCCESS: u8 = 0;
/// Realm name lookup answer: no realm at that address.
pub const REALM_LOOKUP_FAILURE: u8 = 1;

/// The lookup state of a realm name query and whether the realm is the
/// player's own: a known realm succeeds, and is local when its address is the
/// session's; an unknown one fails and is not local.
pub fn realm_query_answer(found: bool, address: u32, own_address: u32) -> (r: (u8, bool))
    ensures
        r == (if found {
            (REALM_LOOKUP_SUCCESS, address == own_address)
        } else {
            (REALM_LOOKUP_FAILURE, false)
        }),
{
    if found {
        (REALM_LOOKUP_SUCCESS, address == own_address)
    } else {
        (REALM_LOOKUP_FAILURE, false)
    }
}

/// The rank (and maximum rank) shown for a trade skill: five per player level.
pub fn trade_skill_rank(level: u8) -> (r: i32)
    ensures
        r == level * 5,
{
    (level as i32) * 5
}

/// Hotfix record status: the record is valid.
pub const HOTFIX_STATUS_VALID: u8 = 1;
/// Hotfix record status: the record was removed.
pub const HOTFIX_STATUS_RECORD_REMOVED: u8 = 2;
/// Hotfix record status: the record is invalid (the client keeps its own copy).
pub const HOTFIX_STATUS_INVALID: u8 = 3;

/// A hotfix record is sent only to clients whose locale it is available in.
pub fn hotfix_locale_allowed(available_locales_mask: u32, locale_mask: u32) -> (b: bool)
    ensures
        b == (available_locales_mask & locale_mask != 0),
{
    available_locales_mask & locale_mask != 0
}

/// The status sent for a hotfix record: a valid record without data is removed
/// when its table is known, else invalid; other statuses are sent as they are.
pub fn hotfix_record_status(status: u8, blob_found: bool, has_table: bool) -> (r: u8)
    ensures
        r == (if status == HOTFIX_STATUS_VALID && !blob_found {
            if has_table {
                HOTFIX_STATUS_RECORD_REMOVED
            } else {
                HOTFIX_STATUS_INVALID
            }
        } else {
            status
        }),
{
    if status == HOTFIX_STATUS_VALID && !blob_found {
        if has_table {
            HOTFIX_STATUS_RECORD_REMOVED
        } else {
            HOTFIX_STATUS_INVALID
        }
    } else {
        status
    }
}

/// A piece of optional data sent after a hotfix record: a key and its bytes.
pub struct HotfixOptionalEntry {
    pub key: u32,
    pub data: Vec<u8>,
}

/// The little-endian bytes of a 32-bit value.
pub open spec fn le_bytes_u32(k: u32) -> Seq<u8> {
    seq![
        (k % 256) as u8,
        ((k / 256) % 256) as u8,
        ((k / 65536) % 256) as u8,
        (k / 16777216) as u8,
    ]
}

/// The bytes of a record's optional data: each entry's key in little-endian
/// order, followed by its data.
pub open spec fn optional_bytes(entries: Seq<HotfixOptionalEntry>) -> Seq<u8>
    decreases entries.len(),
{
    if entries.len() == 0 {
        Seq::empty()
    } else {
        optional_bytes(entries.drop_last()) + le_bytes_u32(entries.last().key)
            + entries.last().data@
    }
}

fn push_bytes(out: &mut Vec<u8>, bytes: &Vec<u8>)
    ensures
        final(out)@ == old(out)@ + bytes@,
{
    let ghost start = out@;
    let mut i: usize = 0;
    while i < bytes.len()
        invariant
            i <= bytes.len(),
            out@ == start + bytes@.take(i as int),
        decreases bytes.len() - i,
    {
        out.push(bytes[i]);
        proof {
            assert(start + bytes@.take(i + 1) =~= (start + bytes@.take(i as int)).push(
                bytes@[i as int],
            ));
        }
        i = i + 1;
    }
    proof {
        assert(bytes@.take(i as int) =~= bytes@);
    }
}

fn push_le_u32(out: &mut Vec<u8>, k: u32)
    ensures
        final(out)@ == old(out)@ + le_bytes_u32(k),
{
    let b0: u8 = (k & 0xff) as u8;
    let b1: u8 = ((k >> 8) & 0xff) as u8;
    let b2: u8 = ((k >> 16) & 0xff) as u8;
    let b3: u8 = (k >> 24) as u8;
    proof {
        assert((k & 0xff) == k % 256) by (bit_vector);
        assert(((k >> 8) & 0xff) == (k / 256) % 256) by (bit_vector);
        assert(((k >> 16) & 0xff) == (k / 65536) % 256) by (bit_vector);
        assert((k >> 24) == k / 16777216) by (bit_vector);
    }
    let ghost start = out@;
    out.push(b0);
    out.push(b1);
    out.push(b2);
    out.push(b3);
    proof {
        assert(out@ =~= start + le_bytes_u32(k));
    }
}

/// The bytes sent for a hotfix or database record that was found: its blob,
/// then its optional data.
pub fn record_payload(blob: &Vec<u8>, optional: &Vec<HotfixOptionalEntry>) -> (r: Vec<u8>)
    ensures
        r@ == blob@ + optional_bytes(optional@),
{
    let mut out: Vec<u8> = Vec::new();
    push_bytes(&mut out, blob);
    let mut i: usize = 0;
    while i < optional.len()
        invariant
            i <= optional.len(),
            out@ == blob@ + optional_bytes(optional@.take(i as int)),
        decreases optional.len() - i,
    {
        proof {
            assert(optional@.take(i + 1).drop_last() =~= optional@.take(i as int));
        }
        push_le_u32(&mut out, optional[i].key);
        push_bytes(&mut out, &optional[i].data);
        proof {
            assert(out@ =~= blob@ + optional_bytes(optional@.take(i + 1)));
        }
        i = i + 1;
    }
    proof {
        assert(optional@.take(i as int) =~= optional@);
    }
    out
}

/// A hotfix record of a push the client asked for, with what the blob cache
/// holds for it.
pub struct HotfixRecordInput {
    pub push_id: i32,
    pub unique_id: u32,
    pub table_hash: u32,
    pub record_id: i32,
    pub status: u8,
    pub available_locales_mask: u32,
    /// The record's blob, when the cache has one.
    pub blob: Option<Vec<u8>>,
    /// The record's optional data for the client's locale.
    pub optional: Vec<HotfixOptionalEntry>,
    /// Whether the cache knows the record's table.
    pub has_table: bool,
}

/// One record entry of a hotfix answer.
#[derive(Clone, Copy, Debug, PartialEq, Eq, Structural)]
pub struct HotfixConnectEntry {
    pub push_id: i32,
    pub unique_id: u32,
    pub table_hash: u32,
    pub record_id: i32,
    /// The number of content bytes the record takes.
    pub size: u32,
    pub status: u8,
}

/// The bytes a record adds to the answer's content: its payload when it is a
/// valid record whose blob was found, else nothing.
pub open spec fn record_content(r: HotfixRecordInput) -> Seq<u8> {
    if r.status == HOTFIX_STATUS_VALID && r.blob is Some {
        r.blob->0@ + optional_bytes(r.optional@)
    } else {
        Seq::empty()
    }
}

/// The entry of the answer for a record.
pub open spec fn record_entry(r: HotfixRecordInput) -> HotfixConnectEntry {
    HotfixConnectEntry {
        push_id: r.push_id,
        unique_id: r.unique_id,
        table_hash: r.table_hash,
        record_id: r.record_id,
        size: record_content(r).len() as u32,
        status: if r.status == HOTFIX_STATUS_VALID && r.blob is None {
            if r.has_table {
                HOTFIX_STATUS_RECORD_REMOVED
            } else {
                HOTFIX_STATUS_INVALID
            }
        } else {
            r.status
        },
    }
}

/// The answer to a hotfix request: for each record available in the client's
/// locale, in order, its entry, and the content of all found records, one
/// after the other.
pub open spec fn hotfix_answer(records: Seq<HotfixRecordInput>, locale_mask: u32) -> (
    Seq<HotfixConnectEntry>,
    Seq<u8>,
)
    decreases records.len(),
{
    if records.len() == 0 {
        (Seq::empty(), Seq::empty())
    } else {
        let (entries, content) = hotfix_answer(records.drop_last(), locale_mask);
        let r = records.last();
        if r.available_locales_mask & locale_mask == 0 {
            (entries, content)
        } else {
            (entries.push(record_entry(r)), content + record_content(r))
        }
    }
}

/// Builds the answer to a hotfix request from the records of the pushes asked for.
pub fn hotfix_connect_answer(records: &Vec<HotfixRecordInput>, locale_mask: u32) -> (r: (
    Vec<HotfixConnectEntry>,
    Vec<u8>,
))
    ensures
        (r.0@, r.1@) == hotfix_answer(records@, locale_mask),
{
    let mut entries: Vec<HotfixConnectEntry> = Vec::new();
    let mut content: Vec<u8> = Vec::new();
    let mut i: usize = 0;
    while i < records.len()
        invariant
            i <= records.len(),
            (entries@, content@) == hotfix_answer(records@.take(i as int), locale_mask),
        decreases records.len() - i,
    {
        proof {
            assert(records@.take(i + 1).drop_last() =~= records@.take(i as int));
        }
        let r = &records[i];
        if hotfix_locale_allowed(r.available_locales_mask, locale_mask) {
            let mut size: u32 = 0;
            let mut status: u8 = r.status;
            if r.status == HOTFIX_STATUS_VALID {
                match &r.blob {
                    Some(blob) => {
                        let payload = record_payload(blob, &r.optional);
                        size = payload.len() as u32;
                        push_bytes(&mut content, &payload);
                    },
                    None => {
                        status = hotfix_record_status(r.status, false, r.has_table);
                    },
                }
            }
            let ghost before = content@;
            entries.push(
                HotfixConnectEntry {
                    push_id: r.push_id,
                    unique_id: r.unique_id,
                    table_hash: r.table_hash,
                    record_id: r.record_id,
                    size,
                    status,
                },
            );
            proof {
                assert(entries@.last() == record_entry(records@[i as int]));
            }
        }
        proof {
            let (pe, pc) = hotfix_answer(records@.take(i as int), locale_mask);
            if records@[i as int].available_locales_mask & locale_mask != 0 {
                assert(content@ =~= pc + record_content(records@[i as int]));
            }
        }
        i = i + 1;
    }
    proof {
        assert(records@.take(i as int) =~= records@);
    }
    (entries, content)
}

pub open spec fn digit_char(d: int) -> char {
    ('0' as u32 + d) as char
}

/// The decimal digits of a natural number.
pub open spec fn nat_digits(n: nat) -> Seq<char>
    decreases n,
{
    if n < 10 {
        seq![digit_char(n as int)]
    } else {
        nat_digits(n / 10).push(digit_char((n % 10) as int))
    }
}

/// The decimal text of an integer, with a leading `-` when negative.
pub open spec fn decimal_text(x: int) -> Seq<char> {
    if x < 0 {
        seq!['-'] + nat_digits((-x) as nat)
    } else {
        nat_digits(x as nat)
    }
}

/// The one-character text of a decimal digit.
fn digit_str(d: u64) -> (s: &'static str)
    requires
        d < 10,
    ensures
        s@ == seq![digit_char(d as int)],
{
    proof {
        reveal_strlit("0");
        reveal_strlit("1");
        reveal_strlit("2");
        reveal_strlit("3");
        reveal_strlit("4");
        reveal_strlit("5");
        reveal_strlit("6");
        reveal_strlit("7");
        reveal_strlit("8");
        reveal_strlit("9");
    }
    if d == 0 {
        "0"
    } else if d == 1 {
        "1"
    } else if d == 2 {
        "2"
    } else if d == 3 {
        "3"
    } else if d == 4 {
        "4"
    } else if d == 5 {
        "5"
    } else if d == 6 {
        "6"
    } else if d == 7 {
        "7"
    } else if d == 8 {
        "8"
    } else {
        "9"
    }
}

/// Appends the decimal digits of `n`, most significant first.
fn append_digits(out: &mut String, n: u64)
    ensures
        final(out)@ == old(out)@ + nat_digits(n as nat),
    decreases n,
{
    if n < 10 {
        out.append(digit_str(n));
    } else {
        append_digits(out, n / 10);
        out.append(digit_str(n % 10));
        proof {
            assert(nat_digits(n as nat) == nat_digits((n / 10) as nat).push(
                digit_char((n % 10) as int),
            ));
        }
    }
}

/// The decimal text of `x`, with a leading minus sign when negative.
fn i32_decimal(x: i32) -> (s: String)
    ensures
        s@ == decimal_text(x as int),
{
    let mut out = String::new();
    if x < 0 {
        proof {
            reveal_strlit("-");
        }
        out.append("-");
        let magnitude: u64 = (0i64 - (x as i64)) as u64;
        append_digits(&mut out, magnitude);
    } else {
        append_digits(&mut out, x as u64);
    }
    out
}

/// The text of an item's spell charges as stored: each charge in decimal,
/// followed by a space.
pub open spec fn charges_text(charges: Seq<i32>) -> Seq<char>
    decreases charges.len(),
{
    if charges.len() == 0 {
        Seq::empty()
    } else {
        charges_text(charges.drop_last()) + decimal_text(charges.last() as int) + seq![' ']
    }
}

pub fn item_spell_charges_db_string(charges: &[i32]) -> (s: String)
    ensures
        s@ == charges_text(charges@),
{
    let mut out = String::new();
    let mut i: usize = 0;
    while i < charges.len()
        invariant
            i <= charges@.len(),
            out@ == charges_text(charges@.take(i as int)),
        decreases charges@.len() - i,
    {
        proof {
            assert(charges@.take(i + 1).drop_last() =~= charges@.take(i as int));
        }
        let text = i32_decimal(charges[i]);
        out.append(text.as_str());
        out.append(" ");
        proof {
            reveal_strlit(" ");
            assert(out@ =~= charges_text(charges@.take(i + 1)));
        }
        i = i + 1;
    }
    proof {
        assert(charges@.take(i as int) =~= charges@);
    }
    out
}

} // verus!
