use vstd::prelude::*;
use crate::session_flow::{digit_char, nat_digits};

verus! {

/// Number of visual equipment slots a character list entry shows.
pub const EQUIPMENT_CACHE_SLOTS: usize = 34;
/// Number of values each slot takes in the equipment cache text.
pub const EQUIPMENT_CACHE_FIELDS_PER_SLOT: usize = 5;

/// How one equipped item looks on the character list.
#[derive(Clone, Copy, Debug, PartialEq, Eq, Structural)]
pub struct VisualItemInfo {
    pub display_id: u32,
    pub display_enchant_id: u32,
    pub secondary_item_modified_appearance_id: i32,
    pub inv_type: u8,
    pub subclass: u8,
}

pub open spec fn empty_visual_item() -> VisualItemInfo {
    VisualItemInfo {
        display_id: 0,
        display_enchant_id: 0,
        secondary_item_modified_appearance_id: 0,
        inv_type: 0,
        subclass: 0,
    }
}

impl Default for VisualItemInfo {
    fn default() -> (v: VisualItemInfo)
        ensures
            v == empty_visual_item(),
    {
        VisualItemInfo {
            display_id: 0,
            display_enchant_id: 0,
            secondary_item_modified_appearance_id: 0,
            inv_type: 0,
            subclass: 0,
        }
    }
}

/// The characters with the Unicode White_Space property.
pub open spec fn is_white_space(c: char) -> bool {
    let u = c as u32;
    ||| (9 <= u && u <= 13)
    ||| u == 32
    ||| u == 0x85
    ||| u == 0xA0
    ||| u == 0x1680
    ||| (0x2000 <= u && u <= 0x200A)
    ||| u == 0x2028
    ||| u == 0x2029
    ||| u == 0x202F
    ||| u == 0x205F
    ||| u == 0x3000
}

pub fn char_is_white_space(c: char) -> (b: bool)
    ensures
        b == is_white_space(c),
{
    let u = c as u32;
    (9 <= u && u <= 13) || u == 32 || u == 0x85 || u == 0xA0 || u == 0x1680 || (0x2000 <= u && u
        <= 0x200A) || u == 0x2028 || u == 0x2029 || u == 0x202F || u == 0x205F || u == 0x3000
}

/// Reading a text from the left: the words finished so far and the word being read.
pub open spec fn split_state(s: Seq<char>) -> (Seq<Seq<char>>, Seq<char>)
    decreases s.len(),
{
    if s.len() == 0 {
        (Seq::empty(), Seq::empty())
    } else {
        let (done, cur) = split_state(s.drop_last());
        let c = s.last();
        if is_white_space(c) {
            if cur.len() > 0 {
                (done.push(cur), Seq::empty())
            } else {
                (done, Seq::empty())
            }
        } else {
            (done, cur.push(c))
        }
    }
}

/// The words of a text: its maximal runs of characters that are not white space.
pub open spec fn words(s: Seq<char>) -> Seq<Seq<char>> {
    let (done, cur) = split_state(s);
    if cur.len() > 0 {
        done.push(cur)
    } else {
        done
    }
}

pub open spec fn all_digits(d: Seq<char>) -> bool {
    forall|i: int| 0 <= i < d.len() ==> '0' <= #[trigger] d[i] && d[i] <= '9'
}

/// The number that a string of decimal digits writes.
pub open spec fn digits_value(d: Seq<char>) -> int
    decreases d.len(),
{
    if d.len() == 0 {
        0
    } else {
        digits_value(d.drop_last()) * 10 + (d.last() as int - '0' as int)
    }
}

/// A decimal number with an optional `+` sign, at most `max`.
pub open spec fn parse_unsigned(t: Seq<char>, max: int) -> Option<int> {
    let body = if t.len() > 1 && t[0] == '+' {
        t.drop_first()
    } else {
        t
    };
    if body.len() > 0 && all_digits(body) && digits_value(body) <= max {
        Some(digits_value(body))
    } else {
        None
    }
}

/// A decimal number with an optional sign that fits in an `i32`.
pub open spec fn parse_i32(t: Seq<char>) -> Option<int> {
    if t.len() > 1 && t[0] == '-' {
        let body = t.drop_first();
        if all_digits(body) && digits_value(body) <= 0x8000_0000 {
            Some(-digits_value(body))
        } else {
            None
        }
    } else {
        parse_unsigned(t, 0x7FFF_FFFF)
    }
}

pub open spec fn u8_or_zero(t: Seq<char>) -> u8 {
    match parse_unsigned(t, 255) {
        Some(v) => v as u8,
        None => 0,
    }
}

pub open spec fn u32_or_zero(t: Seq<char>) -> u32 {
    match parse_unsigned(t, 0xFFFF_FFFF) {
        Some(v) => v as u32,
        None => 0,
    }
}

pub open spec fn i32_or_zero(t: Seq<char>) -> i32 {
    match parse_i32(t) {
        Some(v) => v as i32,
        None => 0,
    }
}

/// Reading back the decimal text of a number gives the number: the text is
/// all digits, not empty, and its value is the number written.
pub proof fn lemma_decimal_text_reads_back(n: nat)
    ensures
        nat_digits(n).len() > 0,
        all_digits(nat_digits(n)),
        digits_value(nat_digits(n)) == n,
    decreases n,
{
    let d = (n % 10) as int;
    assert(digit_char(d) as int == '0' as int + d);
    if n < 10 {
        assert(nat_digits(n).drop_last() =~= Seq::<char>::empty());
        assert(nat_digits(n).last() == digit_char(d));
        assert(digits_value(nat_digits(n)) == digits_value(Seq::<char>::empty()) * 10 + (
        digit_char(d) as int - '0' as int));
    }
    if n >= 10 {
        lemma_decimal_text_reads_back(n / 10);
        let pre = nat_digits(n / 10);
        assert(nat_digits(n).drop_last() =~= pre);
        assert(nat_digits(n).last() == digit_char(d));
        assert((n / 10) * 10 + n % 10 == n) by (nonlinear_arith);
        assert(digits_value(nat_digits(n)) == digits_value(pre) * 10 + (digit_char(d) as int
            - '0' as int));
        assert forall|i: int| 0 <= i < nat_digits(n).len() implies '0' <= #[trigger] nat_digits(n)[i]
            && nat_digits(n)[i] <= '9' by {
            if i < pre.len() {
                assert(nat_digits(n)[i] == pre[i]);
            }
        }
    }
}

/// A slot written as five decimal numbers reads back as those numbers, each
/// in its own field: inventory type, display id, enchant display id,
/// subclass and secondary appearance id, in that order.
pub proof fn lemma_slot_reads_its_five_numbers(
    inv_type: u8,
    display_id: u32,
    display_enchant_id: u32,
    subclass: u8,
    secondary: i32,
)
    requires
        secondary >= 0,
    ensures
        slot_info(
            seq![
                nat_digits(inv_type as nat),
                nat_digits(display_id as nat),
                nat_digits(display_enchant_id as nat),
                nat_digits(subclass as nat),
                nat_digits(secondary as nat),
            ],
            0,
        ) == (VisualItemInfo {
            inv_type,
            display_id,
            display_enchant_id,
            subclass,
            secondary_item_modified_appearance_id: secondary,
        }),
{
    lemma_decimal_text_reads_back(inv_type as nat);
    lemma_decimal_text_reads_back(display_id as nat);
    lemma_decimal_text_reads_back(display_enchant_id as nat);
    lemma_decimal_text_reads_back(subclass as nat);
    lemma_decimal_text_reads_back(secondary as nat);
    let w = seq![
        nat_digits(inv_type as nat),
        nat_digits(display_id as nat),
        nat_digits(display_enchant_id as nat),
        nat_digits(subclass as nat),
        nat_digits(secondary as nat),
    ];
    assert(w[0] == nat_digits(inv_type as nat));
    assert(w[1] == nat_digits(display_id as nat));
    assert(w[2] == nat_digits(display_enchant_id as nat));
    assert(w[3] == nat_digits(subclass as nat));
    assert(w[4] == nat_digits(secondary as nat));
    assert(nat_digits(secondary as nat)[0] != '-');
}

/// The look of slot `slot`, read from its five words; a word that is not a
/// number of the field's type reads as 0.
pub open spec fn slot_info(w: Seq<Seq<char>>, slot: int) -> VisualItemInfo {
    let base = slot * 5;
    VisualItemInfo {
        inv_type: u8_or_zero(w[base]),
        display_id: u32_or_zero(w[base + 1]),
        display_enchant_id: u32_or_zero(w[base + 2]),
        subclass: u8_or_zero(w[base + 3]),
        secondary_item_modified_appearance_id: i32_or_zero(w[base + 4]),
    }
}

/// Slot `slot` is read from the five words starting at word `5 * slot`,
/// when the text has all five; otherwise it is empty.
pub proof fn lemma_cached_slot_reads_its_own_words(cache: Seq<char>, slot: int)
    requires
        0 <= slot,
    ensures
        words(cache).len() >= 5 * slot + 5 ==> cached_slot(cache, slot) == slot_info(
            words(cache).subrange(5 * slot, 5 * slot + 5),
            0,
        ),
        words(cache).len() < 5 * slot + 5 ==> cached_slot(cache, slot) == empty_visual_item(),
{
    let w = words(cache);
    if w.len() >= 5 * slot + 5 {
        let sub = w.subrange(5 * slot, 5 * slot + 5);
        assert(sub[0] == w[5 * slot]);
        assert(sub[1] == w[5 * slot + 1]);
        assert(sub[2] == w[5 * slot + 2]);
        assert(sub[3] == w[5 * slot + 3]);
        assert(sub[4] == w[5 * slot + 4]);
    }
}

/// What the equipment cache text says of slot `slot`: its five words where the
/// text has them all, else an empty look.
pub open spec fn cached_slot(cache: Seq<char>, slot: int) -> VisualItemInfo {
    let w = words(cache);
    if (slot + 1) * 5 <= w.len() {
        slot_info(w, slot)
    } else {
        empty_visual_item()
    }
}

proof fn lemma_digits_value_prefix(d: Seq<char>, k: int)
    requires
        0 <= k <= d.len(),
        all_digits(d),
    ensures
        0 <= digits_value(d.take(k)) <= digits_value(d),
    decreases d.len(),
{
    if d.len() > 0 {
        if k == d.len() {
            assert(d.take(k) =~= d);
            lemma_digits_value_prefix(d.drop_last(), 0);
        } else {
            assert(d.take(k) =~= d.drop_last().take(k));
            lemma_digits_value_prefix(d.drop_last(), k);
        }
        assert(d.drop_last().take(d.drop_last().len() as int) =~= d.drop_last());
    } else {
        assert(d.take(k) =~= d);
    }
}

/// Reads the decimal digits `t[start..]` as a number at most `max`.
fn parse_digits(t: &Vec<char>, start: usize, max: u64) -> (r: Option<u64>)
    requires
        start <= t.len(),
        max <= 0x1_0000_0000,
    ensures
        r == (if t@.len() > start && all_digits(t@.skip(start as int)) && digits_value(
            t@.skip(start as int),
        ) <= max {
            Some(digits_value(t@.skip(start as int)) as u64)
        } else {
            None::<u64>
        }),
        r matches Some(v) ==> v <= max && v as int == digits_value(t@.skip(start as int)),
{
    let ghost body = t@.skip(start as int);
    if start >= t.len() {
        return None;
    }
    let mut value: u64 = 0;
    let mut i: usize = start;
    while i < t.len()
        invariant
            start <= i <= t.len(),
            max <= 0x1_0000_0000,
            body == t@.skip(start as int),
            all_digits(body.take(i - start)),
            value == digits_value(body.take(i - start)),
            value <= max,
        decreases t.len() - i,
    {
        let c = t[i];
        if !('0' <= c && c <= '9') {
            proof {
                assert(body[i - start] == c);
            }
            return None;
        }
        let d = (c as u32 - '0' as u32) as u64;
        proof {
            assert(body.take(i - start + 1).drop_last() =~= body.take(i - start));
            assert(body.take(i - start + 1).last() == c);
        }
        value = value * 10 + d;
        if value > max {
            proof {
                assert(all_digits(body.take(i - start + 1)));
                if all_digits(body) {
                    lemma_digits_value_prefix(body, i - start + 1);
                }
            }
            return None;
        }
        i = i + 1;
    }
    proof {
        assert(body.take(i - start) =~= body);
    }
    Some(value)
}

fn parse_unsigned_exec(t: &Vec<char>, max: u64) -> (r: Option<u64>)
    requires
        max <= 0xFFFF_FFFF,
    ensures
        r == (match parse_unsigned(t@, max as int) {
            Some(v) => Some(v as u64),
            None => None::<u64>,
        }),
        r matches Some(v) ==> v <= max,
        parse_unsigned(t@, max as int) matches Some(v) ==> 0 <= v <= max,
{
    let start: usize = if t.len() > 1 && t[0] == '+' {
        1
    } else {
        0
    };
    proof {
        assert(t@.skip(0) =~= t@);
        assert(t@.skip(1) =~= t@.drop_first());
    }
    parse_digits(t, start, max)
}

fn field_u8(t: &Vec<char>) -> (r: u8)
    ensures
        r == u8_or_zero(t@),
{
    match parse_unsigned_exec(t, 255) {
        Some(v) => v as u8,
        None => 0,
    }
}

fn field_u32(t: &Vec<char>) -> (r: u32)
    ensures
        r == u32_or_zero(t@),
{
    match parse_unsigned_exec(t, 0xFFFF_FFFF) {
        Some(v) => v as u32,
        None => 0,
    }
}

fn field_i32(t: &Vec<char>) -> (r: i32)
    ensures
        r == i32_or_zero(t@),
{
    if t.len() > 1 && t[0] == '-' {
        proof {
            assert(t@.skip(1) =~= t@.drop_first());
        }
        match parse_digits(t, 1, 0x8000_0000) {
            Some(v) => {
                if v == 0x8000_0000 {
                    i32::MIN
                } else {
                    -(v as i32)
                }
            },
            None => 0,
        }
    } else {
        match parse_unsigned_exec(t, 0x7FFF_FFFF) {
            Some(v) => v as i32,
            None => 0,
        }
    }
}

/// The characters of a string, in order.
fn chars_of(s: &str) -> (r: Vec<char>)
    ensures
        r@ == s@,
{
    broadcast use vstd::string::axiom_spec_iter, vstd::string::next_postcondition;

    let mut out: Vec<char> = Vec::new();
    let mut iter = s.chars();
    loop
        invariant
            out@ + vstd::std_specs::iter::IteratorSpec::remaining(&iter) == s@,
            vstd::std_specs::iter::IteratorSpec::obeys_prophetic_iter_laws(&iter),
            vstd::std_specs::iter::IteratorSpec::decrease(&iter) is Some,
        ensures
            out@ == s@,
        decreases vstd::std_specs::iter::IteratorSpec::decrease(&iter)->0,
    {
        let ghost before = vstd::std_specs::iter::IteratorSpec::remaining(&iter);
        match iter.next() {
            Some(c) => {
                proof {
                    assert(out@.push(c) + vstd::std_specs::iter::IteratorSpec::remaining(&iter) =~= out@ + before);
                }
                out.push(c);
            },
            None => {
                proof {
                    assert(out@ + before =~= out@);
                }
                break;
            },
        }
    }
    out
}

/// Splits text into its white-space separated words.
pub fn split_words(text: &Vec<char>) -> (r: Vec<Vec<char>>)
    ensures
        r@.len() == words(text@).len(),
        forall|i: int| 0 <= i < r@.len() ==> #[trigger] r@[i]@ == words(text@)[i],
{
    let mut done: Vec<Vec<char>> = Vec::new();
    let mut cur: Vec<char> = Vec::new();
    let mut i: usize = 0;
    while i < text.len()
        invariant
            i <= text.len(),
            split_state(text@.take(i as int)).1 == cur@,
            split_state(text@.take(i as int)).0.len() == done@.len(),
            forall|j: int|
                0 <= j < done@.len() ==> #[trigger] done@[j]@ == split_state(
                    text@.take(i as int),
                ).0[j],
        decreases text.len() - i,
    {
        let c = text[i];
        proof {
            assert(text@.take(i + 1).drop_last() =~= text@.take(i as int));
            assert(text@.take(i + 1).last() == c);
        }
        if char_is_white_space(c) {
            if cur.len() > 0 {
                let finished = cur;
                done.push(finished);
                cur = Vec::new();
            } else {
                cur = Vec::new();
            }
        } else {
            cur.push(c);
        }
        i = i + 1;
    }
    proof {
        assert(text@.take(i as int) =~= text@);
    }
    if cur.len() > 0 {
        done.push(cur);
    }
    done
}

/// Reads the equipment cache text of a character: five space-separated values
/// per slot (inventory type, display id, enchant display id, subclass,
/// secondary appearance id), for up to 34 slots; slots the text does not fully
/// cover stay empty.
pub fn parse_equipment_cache(cache: &str) -> (r: [VisualItemInfo; 34])
    ensures
        forall|slot: int| 0 <= slot < 34 ==> #[trigger] r@[slot] == cached_slot(cache@, slot),
{
    let empty = VisualItemInfo::default();
    let mut equipment: [VisualItemInfo; 34] = [empty; 34];
    if cache.is_empty() {
        proof {
            assert(cache@ =~= Seq::<char>::empty());
            assert(words(cache@).len() == 0);
        }
        return equipment;
    }
    let text = chars_of(cache);
    let parts = split_words(&text);
    let mut slot: usize = 0;
    while slot < 34
        invariant
            slot <= 34,
            text@ == cache@,
            parts@.len() == words(cache@).len(),
            forall|i: int| 0 <= i < parts@.len() ==> #[trigger] parts@[i]@ == words(cache@)[i],
            forall|s: int| 0 <= s < slot ==> #[trigger] equipment@[s] == cached_slot(cache@, s),
            forall|s: int| slot <= s < 34 ==> #[trigger] equipment@[s] == empty_visual_item(),
        ensures
            forall|s: int| 0 <= s < 34 ==> #[trigger] equipment@[s] == cached_slot(cache@, s),
        decreases 34 - slot,
    {
        let base = slot * 5;
        if base + 5 > parts.len() {
            proof {
                assert forall|s: int| slot <= s < 34 implies #[trigger] equipment@[s] == cached_slot(
                    cache@,
                    s,
                ) by {
                    assert((s + 1) * 5 > words(cache@).len()) by (nonlinear_arith)
                        requires
                            s >= slot,
                            slot * 5 + 5 > words(cache@).len(),
                    ;
                }
            }
            break;
        }
        let info = VisualItemInfo {
            inv_type: field_u8(&parts[base]),
            display_id: field_u32(&parts[base + 1]),
            display_enchant_id: field_u32(&parts[base + 2]),
            subclass: field_u8(&parts[base + 3]),
            secondary_item_modified_appearance_id: field_i32(&parts[base + 4]),
        };
        equipment[slot] = info;
        slot = slot + 1;
    }
    equipment
}

} // verus!
