use vstd::prelude::*;
use crate::guid::ObjectGuid;
use crate::session_flow::contains_guid;

verus! {

/// The characters of the account that the session may act on: those listed
/// at character enumeration that are not locked.
pub struct LegitCharacters {
    pub guids: Vec<ObjectGuid>,
}

impl LegitCharacters {
    pub fn new(guids: Vec<ObjectGuid>) -> (r: LegitCharacters)
        ensures
            r.guids@ == guids@,
    {
        LegitCharacters { guids }
    }

    pub fn is_legit(&self, guid: ObjectGuid) -> (b: bool)
        ensures
            b == self.guids@.contains(guid),
    {
        contains_guid(&self.guids, guid)
    }

    /// Forgets a character (it was deleted).
    pub fn remove(&mut self, guid: ObjectGuid)
        ensures
            forall|g: ObjectGuid| #[trigger]
                final(self).guids@.contains(g) <==> (old(self).guids@.contains(g) && g != guid),
    {
        let mut kept: Vec<ObjectGuid> = Vec::new();
        let mut i: usize = 0;
        while i < self.guids.len()
            invariant
                i <= self.guids.len(),
                forall|g: ObjectGuid| #[trigger]
                    kept@.contains(g) <==> (self.guids@.take(i as int).contains(g) && g != guid),
            decreases self.guids.len() - i,
        {
            let g = self.guids[i];
            let ghost before = kept@;
            proof {
                assert(self.guids@.take(i + 1) =~= self.guids@.take(i as int).push(g));
            }
            if g.high != guid.high || g.low != guid.low {
                kept.push(g);
                proof {
                    assert forall|h: ObjectGuid| #[trigger]
                        kept@.contains(h) <==> (self.guids@.take(i + 1).contains(h) && h != guid) by {
                        vstd::seq_lib::lemma_seq_contains_after_push(before, g, h);
                        vstd::seq_lib::lemma_seq_contains_after_push(self.guids@.take(i as int), g, h);
                    }
                }
            } else {
                proof {
                    assert forall|h: ObjectGuid| #[trigger]
                        kept@.contains(h) <==> (self.guids@.take(i + 1).contains(h) && h != guid) by {
                        vstd::seq_lib::lemma_seq_contains_after_push(self.guids@.take(i as int), g, h);
                    }
                }
            }
            i = i + 1;
        }
        proof {
            assert(self.guids@.take(i as int) =~= self.guids@);
        }
        self.guids = kept;
    }
}

/// The answer to a character deletion.
#[derive(Clone, Copy, Debug, PartialEq, Eq, Structural)]
pub enum CharDeleteCode {
    Success,
    Failed,
}

/// The answer to deleting a character, from what each step found: a session
/// without a character database, or a character that is not the account's,
/// fails at once; an ownership query that ran and found no row fails (one that
/// could not run does not stop the deletion); the deletion itself then decides.
pub fn char_delete_answer(
    has_db: bool,
    legit: bool,
    owner_row_found: Option<bool>,
    deleted: bool,
) -> (r: CharDeleteCode)
    ensures
        r == (if has_db && legit && owner_row_found != Some(false) && deleted {
            CharDeleteCode::Success
        } else {
            CharDeleteCode::Failed
        }),
{
    if !has_db || !legit {
        return CharDeleteCode::Failed;
    }
    match owner_row_found {
        Some(false) => CharDeleteCode::Failed,
        _ => if deleted {
            CharDeleteCode::Success
        } else {
            CharDeleteCode::Failed
        },
    }
}

} // verus!
