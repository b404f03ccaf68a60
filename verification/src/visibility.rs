use vstd::prelude::*;
use crate::guid::ObjectGuid;
use crate::login::{random_u32_between, thread_rng_handle};
use crate::session_flow::{absent_from, contains_guid, distinct_guids, guids_absent_from};

verus! {

/// The kinds of world object whose visibility a client is kept up to date on.
#[derive(Clone, Copy, Debug, PartialEq, Eq, Structural)]
pub enum ObjectKind {
    Creature,
    GameObject,
    DynamicObject,
    Other,
}

/// An object the client has been told about.
#[derive(Clone, Copy, Debug, PartialEq, Eq, Structural)]
pub struct VisibleObject {
    pub guid: ObjectGuid,
    pub kind: ObjectKind,
}

/// The ids of a sequence of visible objects.
pub open spec fn guids_of(s: Seq<VisibleObject>) -> Seq<ObjectGuid> {
    s.map_values(|o: VisibleObject| o.guid)
}

/// The ids of the objects of `kind` in `s` that `in_range` lacks, in order:
/// the objects that left the client's range.
pub open spec fn left_range(s: Seq<VisibleObject>, kind: ObjectKind, in_range: Seq<ObjectGuid>) -> Seq<
    ObjectGuid,
>
    decreases s.len(),
{
    if s.len() == 0 {
        Seq::empty()
    } else if s.last().kind == kind && !in_range.contains(s.last().guid) {
        left_range(s.drop_last(), kind, in_range).push(s.last().guid)
    } else {
        left_range(s.drop_last(), kind, in_range)
    }
}

/// `new` is the client's view `old` after its objects of `kind` were replaced
/// by the ids in `in_range`: each object once, the other kinds untouched.
pub open spec fn refreshed(
    old: Seq<VisibleObject>,
    kind: ObjectKind,
    in_range: Seq<ObjectGuid>,
    new: Seq<VisibleObject>,
) -> bool {
    &&& new.no_duplicates()
    &&& forall|o: VisibleObject| #[trigger]
        new.contains(o) <==> ((old.contains(o) && o.kind != kind) || (o.kind == kind
            && in_range.contains(o.guid)))
}

/// What one refresh of a kind tells the client.
pub struct VisibilityChange {
    /// In-range objects the client did not see yet: each gets a create block.
    pub created: Vec<ObjectGuid>,
    /// Objects of the kind that left range: each goes out of range.
    pub removed: Vec<ObjectGuid>,
}

/// The set of objects a client has been sent, each once.
pub struct ClientVisibility {
    pub objects: Vec<VisibleObject>,
}

impl ClientVisibility {
    pub open spec fn wf(&self) -> bool {
        self.objects@.no_duplicates()
    }

    /// A client that has been sent nothing.
    pub fn new() -> (v: ClientVisibility)
        ensures
            v.wf(),
            v.objects@ == Seq::<VisibleObject>::empty(),
    {
        ClientVisibility { objects: Vec::new() }
    }

    fn guid_list(&self) -> (r: Vec<ObjectGuid>)
        ensures
            r@ == guids_of(self.objects@),
    {
        let mut out: Vec<ObjectGuid> = Vec::new();
        let mut i: usize = 0;
        while i < self.objects.len()
            invariant
                i <= self.objects.len(),
                out@ == guids_of(self.objects@.take(i as int)),
            decreases self.objects.len() - i,
        {
            proof {
                assert(guids_of(self.objects@.take(i + 1)) =~= guids_of(
                    self.objects@.take(i as int),
                ).push(self.objects@[i as int].guid));
            }
            out.push(self.objects[i].guid);
            i = i + 1;
        }
        proof {
            assert(self.objects@.take(i as int) =~= self.objects@);
        }
        out
    }

    /// Whether the client has been sent the object `guid`, of whatever kind.
    pub fn is_visible(&self, guid: ObjectGuid) -> (b: bool)
        ensures
            b == guids_of(self.objects@).contains(guid),
    {
        let ids = self.guid_list();
        contains_guid(&ids, guid)
    }

    /// Replaces the objects of `kind` the client sees by those in range: says
    /// which in-range objects are new to the client and which of its objects of
    /// that kind left range.
    pub fn refresh(&mut self, kind: ObjectKind, in_range: &Vec<ObjectGuid>) -> (r: VisibilityChange)
        requires
            old(self).wf(),
        ensures
            final(self).wf(),
            r.created@ == absent_from(in_range@, guids_of(old(self).objects@)),
            r.removed@ == left_range(old(self).objects@, kind, in_range@),
            refreshed(old(self).objects@, kind, in_range@, final(self).objects@),
    {
        let ids = self.guid_list();
        let created = guids_absent_from(in_range, &ids);
        let ghost old_objects = self.objects@;
        let mut removed: Vec<ObjectGuid> = Vec::new();
        let mut kept: Vec<VisibleObject> = Vec::new();
        let mut i: usize = 0;
        while i < self.objects.len()
            invariant
                i <= self.objects.len(),
                self.objects@ == old_objects,
                old_objects.no_duplicates(),
                removed@ == left_range(old_objects.take(i as int), kind, in_range@),
                kept@.no_duplicates(),
                forall|o: VisibleObject| #[trigger]
                    kept@.contains(o) <==> (old_objects.take(i as int).contains(o) && o.kind
                        != kind),
            decreases self.objects.len() - i,
        {
            let o = self.objects[i];
            proof {
                assert(old_objects.take(i + 1).drop_last() =~= old_objects.take(i as int));
                assert(old_objects.take(i + 1) =~= old_objects.take(i as int).push(o));
                assert(!old_objects.take(i as int).contains(o)) by {
                    if old_objects.take(i as int).contains(o) {
                        let k = choose|k: int|
                            0 <= k < old_objects.take(i as int).len() && old_objects.take(
                                i as int,
                            )[k] == o;
                        assert(old_objects[k] == old_objects[i as int]);
                    }
                }
            }
            if o.kind == kind {
                if !contains_guid(in_range, o.guid) {
                    removed.push(o.guid);
                }
                proof {
                    assert forall|p: VisibleObject| #[trigger]
                        kept@.contains(p) <==> (old_objects.take(i + 1).contains(p) && p.kind
                            != kind) by {
                        vstd::seq_lib::lemma_seq_contains_after_push(
                            old_objects.take(i as int),
                            o,
                            p,
                        );
                    }
                }
            } else {
                let ghost before = kept@;
                kept.push(o);
                proof {
                    assert forall|p: VisibleObject| #[trigger]
                        kept@.contains(p) <==> (old_objects.take(i + 1).contains(p) && p.kind
                            != kind) by {
                        vstd::seq_lib::lemma_seq_contains_after_push(before, o, p);
                        vstd::seq_lib::lemma_seq_contains_after_push(
                            old_objects.take(i as int),
                            o,
                            p,
                        );
                    }
                    assert forall|a: int, b: int|
                        0 <= a < kept@.len() && 0 <= b < kept@.len() && a != b implies kept@[a]
                        != kept@[b] by {
                        if a == kept@.len() - 1 {
                            assert(before.contains(before[b]));
                        } else if b == kept@.len() - 1 {
                            assert(before.contains(before[a]));
                        }
                    }
                }
            }
            i = i + 1;
        }
        proof {
            assert(old_objects.take(i as int) =~= old_objects);
        }
        let fresh = distinct_guids(in_range);
        let ghost kept0 = kept@;
        let mut j: usize = 0;
        while j < fresh.len()
            invariant
                j <= fresh.len(),
                fresh@.no_duplicates(),
                forall|g: ObjectGuid| fresh@.contains(g) <==> in_range@.contains(g),
                forall|o: VisibleObject| #[trigger] kept0.contains(o) ==> o.kind != kind,
                kept@.no_duplicates(),
                forall|o: VisibleObject| #[trigger]
                    kept@.contains(o) <==> (kept0.contains(o) || (o.kind == kind && fresh@.take(
                        j as int,
                    ).contains(o.guid))),
            decreases fresh.len() - j,
        {
            let g = fresh[j];
            let v = VisibleObject { guid: g, kind };
            let ghost before = kept@;
            proof {
                assert(fresh@.take(j + 1) =~= fresh@.take(j as int).push(g));
                assert(!fresh@.take(j as int).contains(g)) by {
                    if fresh@.take(j as int).contains(g) {
                        let k = choose|k: int|
                            0 <= k < fresh@.take(j as int).len() && fresh@.take(j as int)[k] == g;
                        assert(fresh@[k] == fresh@[j as int]);
                    }
                }
                assert(!before.contains(v));
            }
            kept.push(v);
            proof {
                assert forall|o: VisibleObject| #[trigger]
                    kept@.contains(o) <==> (kept0.contains(o) || (o.kind == kind && fresh@.take(
                        j + 1,
                    ).contains(o.guid))) by {
                    vstd::seq_lib::lemma_seq_contains_after_push(before, v, o);
                    vstd::seq_lib::lemma_seq_contains_after_push(fresh@.take(j as int), g, o.guid);
                }
                assert forall|a: int, b: int|
                    0 <= a < kept@.len() && 0 <= b < kept@.len() && a != b implies kept@[a]
                    != kept@[b] by {
                    if a == kept@.len() - 1 {
                        assert(before.contains(before[b]));
                    } else if b == kept@.len() - 1 {
                        assert(before.contains(before[a]));
                    }
                }
            }
            j = j + 1;
        }
        proof {
            assert(fresh@.take(j as int) =~= fresh@);
        }
        self.objects = kept;
        VisibilityChange { created, removed }
    }
}

proof fn lemma_left_range_empty(s: Seq<VisibleObject>, kind: ObjectKind, in_range: Seq<ObjectGuid>)
    requires
        forall|o: VisibleObject| #[trigger] s.contains(o) && o.kind == kind ==> in_range.contains(o.guid),
    ensures
        left_range(s, kind, in_range) == Seq::<ObjectGuid>::empty(),
    decreases s.len(),
{
    if s.len() > 0 {
        assert(s.contains(s.last()));
        assert forall|o: VisibleObject| #[trigger]
            s.drop_last().contains(o) && o.kind == kind implies in_range.contains(o.guid) by {
            let k = choose|k: int| 0 <= k < s.drop_last().len() && s.drop_last()[k] == o;
            assert(s[k] == o);
            assert(s.contains(o));
        }
        lemma_left_range_empty(s.drop_last(), kind, in_range);
    }
}

/// Once a client's view of a kind has been refreshed with the objects in range,
/// refreshing it again with the same objects creates nothing and removes nothing.
pub proof fn lemma_refresh_settles(
    old: Seq<VisibleObject>,
    kind: ObjectKind,
    in_range: Seq<ObjectGuid>,
    new: Seq<VisibleObject>,
)
    requires
        refreshed(old, kind, in_range, new),
    ensures
        absent_from(in_range, guids_of(new)) == Seq::<ObjectGuid>::empty(),
        left_range(new, kind, in_range) == Seq::<ObjectGuid>::empty(),
{
    let created = absent_from(in_range, guids_of(new));
    if created.len() > 0 {
        let g = created[0];
        assert(created.contains(g));
        crate::session_flow::lemma_absent_from_members(in_range, guids_of(new), g);
        let v = VisibleObject { guid: g, kind };
        assert(new.contains(v));
        let k = choose|k: int| 0 <= k < new.len() && new[k] == v;
        assert(guids_of(new)[k] == g);
        assert(guids_of(new).contains(g));
    }
    assert(created =~= Seq::<ObjectGuid>::empty());
    lemma_left_range_empty(new, kind, in_range);
}

/// The health a creature spawn row without a positive current health starts with.
pub const DEFAULT_SPAWN_HEALTH: i64 = 100;

/// The display a creature spawn row is shown with: the spawn's own model when
/// it has one, else its template's; `None` when neither is set, and the row is
/// then not spawned.
pub fn creature_spawn_display_id(model_id: u32, template_display_id: u32) -> (r: Option<u32>)
    ensures
        r == (if model_id > 0 {
            Some(model_id)
        } else if template_display_id > 0 {
            Some(template_display_id)
        } else {
            None::<u32>
        }),
{
    if model_id > 0 {
        Some(model_id)
    } else if template_display_id > 0 {
        Some(template_display_id)
    } else {
        None
    }
}

/// Whether a game object spawn row is shown: only one with a display.
pub fn gameobject_spawn_displayed(display_id: u32) -> (b: bool)
    ensures
        b == (display_id != 0),
{
    display_id != 0
}

/// How many times a spawned fishing hole can be fished, from its template's
/// least and most opens: a random count between the two when they are in
/// order, else the least.
pub fn fishing_hole_max_opens(min_opens: u32, max_opens: u32) -> (r: u32)
    ensures
        min_opens <= max_opens ==> min_opens <= r <= max_opens,
        min_opens > max_opens ==> r == min_opens,
{
    if min_opens <= max_opens {
        let mut rng = thread_rng_handle();
        random_u32_between(&mut rng, min_opens, max_opens)
    } else {
        min_opens
    }
}

/// The health (current and maximum) a creature spawn row starts with.
pub fn creature_spawn_health(cur_health: u32) -> (r: i64)
    ensures
        r == (if cur_health > 0 {
            cur_health as i64
        } else {
            DEFAULT_SPAWN_HEALTH
        }),
{
    if cur_health > 0 {
        cur_health as i64
    } else {
        DEFAULT_SPAWN_HEALTH
    }
}

/// The melee damage range of a spawned creature of level `min_level`: the
/// least is five plus three for each level above the first, the most is half
/// as much again (rounded down).
pub fn creature_spawn_melee_damage(min_level: u8) -> (r: (u32, u32))
    ensures
        r.0 == (if min_level == 0 {
            0
        } else {
            min_level - 1
        }) * 3 + 5,
        r.1 == r.0 + r.0 / 2,
{
    let min_dmg: u32 = (min_level as u32).saturating_sub(1) * 3 + 5;
    (min_dmg, min_dmg + min_dmg / 2)
}

} // verus!
