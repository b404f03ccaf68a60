use vstd::prelude::*;

verus! {

/// The locale whose texts are the base texts.
pub open spec fn base_locale() -> Seq<char> {
    seq!['e', 'n', 'U', 'S']
}

fn is_base_locale(locale: &String) -> (b: bool)
    ensures
        b == (locale@ == base_locale()),
{
    let base = "enUS".to_owned();
    proof {
        reveal_strlit("enUS");
        assert(base@ =~= base_locale());
    }
    *locale == base
}

/// Whether template and page texts are looked up in the client's locale: for
/// any locale that is set and is not the base one.
pub fn wants_localized_text(locale: &String) -> (b: bool)
    ensures
        b == (locale@.len() > 0 && locale@ != base_locale()),
{
    !locale.as_str().is_empty() && !is_base_locale(locale)
}

/// Whether a gossip option's text is looked up in the client's locale: the
/// option names a broadcast text and the locale is not the base one.
pub fn gossip_option_wants_localized_text(broadcast_text_id: u32, locale: &String) -> (b: bool)
    ensures
        b == (broadcast_text_id != 0 && locale@ != base_locale()),
{
    broadcast_text_id != 0 && !is_base_locale(locale)
}

/// A localized text replaces the base text when one was found and it is not empty.
pub fn localized_or_base(base: String, localized: Option<String>) -> (r: String)
    ensures
        r@ == match localized {
            Some(l) => if l@.len() > 0 {
                l@
            } else {
                base@
            },
            None => base@,
        },
{
    match localized {
        Some(l) => if !l.as_str().is_empty() {
            l
        } else {
            base
        },
        None => base,
    }
}

/// The templates a client has already been answered about in this session.
pub struct QueryCache {
    pub answered: Vec<u32>,
}

impl QueryCache {
    pub fn new() -> (c: QueryCache)
        ensures
            c.answered@ == Seq::<u32>::empty(),
    {
        QueryCache { answered: Vec::new() }
    }

    /// Whether template `id` is to be answered now: only the first time it is
    /// asked for, which records it.
    pub fn first_query(&mut self, id: u32) -> (b: bool)
        ensures
            b == !old(self).answered@.contains(id),
            forall|x: u32| #[trigger]
                final(self).answered@.contains(x) <==> (old(self).answered@.contains(x) || x == id),
    {
        let mut i: usize = 0;
        while i < self.answered.len()
            invariant
                i <= self.answered.len(),
                forall|k: int| 0 <= k < i ==> self.answered@[k] != id,
            decreases self.answered.len() - i,
        {
            if self.answered[i] == id {
                proof {
                    assert(self.answered@[i as int] == id);
                }
                return false;
            }
            i = i + 1;
        }
        let ghost before = self.answered@;
        self.answered.push(id);
        proof {
            assert forall|x: u32| #[trigger]
                self.answered@.contains(x) <==> (before.contains(x) || x == id) by {
                vstd::seq_lib::lemma_seq_contains_after_push(before, id, x);
            }
        }
        true
    }
}

/// A template is answered at most once per session: after it was answered,
/// asking for it again is not answered.
pub proof fn lemma_answered_once(before: Seq<u32>, after: Seq<u32>, id: u32)
    requires
        forall|x: u32| #[trigger] after.contains(x) <==> (before.contains(x) || x == id),
    ensures
        after.contains(id),
        forall|x: u32| before.contains(x) ==> #[trigger] after.contains(x),
{
}

/// The most pages one page text query returns.
pub const MAX_PAGE_TEXT_PAGES: usize = 100;

/// What a page text walk does next.
#[derive(Clone, Copy, Debug, PartialEq, Eq, Structural)]
pub enum PageWalkAction {
    /// Read the page with this id.
    Fetch(u32),
    /// Stop and answer with the pages read.
    Finish,
}

/// The walk along a chain of page texts: which pages were asked for, and how
/// many were read.
pub struct PageTextWalk {
    pub requested: Vec<u32>,
    pub pages: usize,
}

impl PageTextWalk {
    /// Each page is asked for at most once, and at most the page limit are asked for.
    pub open spec fn wf(&self) -> bool {
        &&& self.requested@.no_duplicates()
        &&& self.pages <= self.requested@.len() <= MAX_PAGE_TEXT_PAGES
        &&& !self.requested@.contains(0)
    }

    /// A page is being read: asked for and not yet delivered.
    pub open spec fn awaiting_page(&self) -> bool {
        self.requested@.len() == self.pages + 1
    }

    /// Starts a walk at page `page_text_id`: page 0 means there is nothing to read.
    pub fn start(page_text_id: u32) -> (r: (PageTextWalk, PageWalkAction))
        ensures
            r.0.wf(),
            r.0.pages == 0,
            page_text_id != 0 ==> r.1 == PageWalkAction::Fetch(page_text_id) && r.0.requested@
                == seq![page_text_id],
            page_text_id == 0 ==> r.1 == PageWalkAction::Finish && r.0.requested@ == Seq::<
                u32,
            >::empty(),
    {
        let mut requested: Vec<u32> = Vec::new();
        if page_text_id != 0 {
            requested.push(page_text_id);
            proof {
                assert(requested@ =~= seq![page_text_id]);
            }
            (PageTextWalk { requested, pages: 0 }, PageWalkAction::Fetch(page_text_id))
        } else {
            (PageTextWalk { requested, pages: 0 }, PageWalkAction::Finish)
        }
    }

    /// The page being read arrived and links to `next_page_id`: the walk reads
    /// the next page unless it is 0, was asked for already, or the page limit is reached.
    pub fn on_page(&mut self, next_page_id: u32) -> (action: PageWalkAction)
        requires
            old(self).wf(),
            old(self).awaiting_page(),
        ensures
            final(self).wf(),
            final(self).pages == old(self).pages + 1,
            action == (if next_page_id != 0 && !old(self).requested@.contains(next_page_id)
                && final(self).pages < MAX_PAGE_TEXT_PAGES {
                PageWalkAction::Fetch(next_page_id)
            } else {
                PageWalkAction::Finish
            }),
            action is Fetch ==> final(self).requested@ == old(self).requested@.push(next_page_id),
            action is Finish ==> final(self).requested@ == old(self).requested@,
            action is Fetch <==> final(self).awaiting_page(),
    {
        self.pages = self.pages + 1;
        if next_page_id == 0 || self.pages >= MAX_PAGE_TEXT_PAGES {
            return PageWalkAction::Finish;
        }
        let mut i: usize = 0;
        while i < self.requested.len()
            invariant
                i <= self.requested.len(),
                self.requested@ == old(self).requested@,
                self.pages == old(self).pages + 1,
                self.pages < MAX_PAGE_TEXT_PAGES,
                old(self).wf(),
                old(self).awaiting_page(),
                forall|k: int| 0 <= k < i ==> self.requested@[k] != next_page_id,
            decreases self.requested.len() - i,
        {
            if self.requested[i] == next_page_id {
                proof {
                    assert(self.requested@[i as int] == next_page_id);
                }
                return PageWalkAction::Finish;
            }
            i = i + 1;
        }
        let ghost before = self.requested@;
        self.requested.push(next_page_id);
        proof {
            assert(!before.contains(next_page_id));
            assert forall|a: int, b: int|
                0 <= a < self.requested@.len() && 0 <= b < self.requested@.len() && a != b implies
                self.requested@[a] != self.requested@[b] by {
                if a == before.len() {
                    assert(before.contains(before[b]));
                } else if b == before.len() {
                    assert(before.contains(before[a]));
                }
            }
            assert forall|x: u32| #[trigger] self.requested@.contains(x) implies x != 0 by {
                vstd::seq_lib::lemma_seq_contains_after_push(before, next_page_id, x);
            }
        }
        PageWalkAction::Fetch(next_page_id)
    }

    /// The answer allows the query when at least one page was read.
    pub fn allowed(&self) -> (b: bool)
        ensures
            b == (self.pages > 0),
    {
        self.pages > 0
    }
}

} // verus!
