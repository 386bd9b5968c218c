use crate::groups::{interacts, CollisionGroups};
use vstd::prelude::*;

verus! {

/// An entity's identity, as the bits of the host's entity handle.
#[derive(Clone, Copy, Debug, PartialEq, Eq, Structural)]
pub struct EntityId {
    pub bits: u64,
}

/// A collider handle of the physics engine: slot index and generation.
#[derive(Clone, Copy, Debug, PartialEq, Eq, Structural)]
pub struct ColliderId {
    pub index: u32,
    pub generation: u32,
}

/// One row of the per-frame collider table: a live collider and the entity owning it.
#[derive(Clone, Copy, Debug, PartialEq, Eq, Structural)]
pub struct ColliderEntry {
    pub collider: ColliderId,
    pub entity: EntityId,
}

/// The entity that owns collider `c` according to the table; a later row
/// overrides an earlier one for the same collider.
pub open spec fn resolve(table: Seq<ColliderEntry>, c: ColliderId) -> Option<EntityId>
    decreases table.len(),
{
    if table.len() == 0 {
        None
    } else if table.last().collider == c {
        Some(table.last().entity)
    } else {
        resolve(table.drop_last(), c)
    }
}

/// Partners that one raw event adds to the list of `owner`.
pub open spec fn pair_partners(
    table: Seq<ColliderEntry>,
    pair: (ColliderId, ColliderId),
    owner: EntityId,
) -> Seq<EntityId> {
    match (resolve(table, pair.0), resolve(table, pair.1)) {
        (Some(e1), Some(e2)) => (if e1 == owner {
            seq![e2]
        } else {
            Seq::<EntityId>::empty()
        }) + (if e2 == owner {
            seq![e1]
        } else {
            Seq::<EntityId>::empty()
        }),
        _ => Seq::<EntityId>::empty(),
    }
}

/// Partners that a stream of raw events adds to the list of `owner`, in order.
pub open spec fn gathered(
    table: Seq<ColliderEntry>,
    events: Seq<(ColliderId, ColliderId)>,
    owner: EntityId,
) -> Seq<EntityId>
    decreases events.len(),
{
    if events.len() == 0 {
        Seq::<EntityId>::empty()
    } else {
        gathered(table, events.drop_last(), owner) + pair_partners(table, events.last(), owner)
    }
}

/// Lists after harvesting: each list gains what the events give its owner.
pub open spec fn harvested(
    lists: Seq<(EntityId, Seq<EntityId>)>,
    table: Seq<ColliderEntry>,
    events: Seq<(ColliderId, ColliderId)>,
) -> Seq<(EntityId, Seq<EntityId>)> {
    Seq::new(lists.len(), |i: int| (lists[i].0, lists[i].1 + gathered(table, events, lists[i].0)))
}

/// Lists after clearing: same owners, no partners.
pub open spec fn cleared(lists: Seq<(EntityId, Seq<EntityId>)>) -> Seq<(EntityId, Seq<EntityId>)> {
    Seq::new(lists.len(), |i: int| (lists[i].0, Seq::<EntityId>::empty()))
}

/// Every list is empty.
pub open spec fn all_empty(lists: Seq<(EntityId, Seq<EntityId>)>) -> bool {
    forall|i: int| 0 <= i < lists.len() ==> (#[trigger] lists[i]).1.len() == 0
}

/// No entity owns two lists.
pub open spec fn owners_distinct(lists: Seq<(EntityId, Seq<EntityId>)>) -> bool {
    forall|i: int, j: int|
        0 <= i < lists.len() && 0 <= j < lists.len() && i != j ==> (#[trigger] lists[i]).0
            != (#[trigger] lists[j]).0
}

/// The partners listed for `e` (empty when `e` keeps no list).
pub open spec fn list_of(lists: Seq<(EntityId, Seq<EntityId>)>, e: EntityId) -> Seq<EntityId>
    decreases lists.len(),
{
    if lists.len() == 0 {
        Seq::<EntityId>::empty()
    } else if lists.last().0 == e {
        lists.last().1
    } else {
        list_of(lists.drop_last(), e)
    }
}

/// The list of partners one entity touched during the current frame.
pub struct EventList {
    owner: EntityId,
    partners: Vec<EntityId>,
}

/// Per-entity event lists (contacts or intersections), present only for the
/// entities that take part in collision bookkeeping.
pub struct EventLists {
    slots: Vec<EventList>,
}

impl View for EventLists {
    type V = Seq<(EntityId, Seq<EntityId>)>;

    closed spec fn view(&self) -> Seq<(EntityId, Seq<EntityId>)> {
        Seq::new(self.slots@.len(), |i: int| (self.slots@[i].owner, self.slots@[i].partners@))
    }
}

/// The collider on the other side of a contact pair that involves `me`.
pub fn other(me: ColliderId, contact: (ColliderId, ColliderId)) -> (r: ColliderId)
    requires
        me == contact.0 || me == contact.1,
    ensures
        r == (if me == contact.0 {
            contact.1
        } else {
            contact.0
        }),
{
    if me == contact.0 {
        contact.1
    } else {
        contact.0
    }
}

/// Looks a collider up in the frame's collider table.
pub fn resolve_collider(table: &Vec<ColliderEntry>, c: ColliderId) -> (r: Option<EntityId>)
    ensures
        r == resolve(table@, c),
{
    let mut found: Option<EntityId> = None;
    let mut i: usize = 0;
    while i < table.len()
        invariant
            i <= table@.len(),
            found == resolve(table@.subrange(0, i as int), c),
        decreases table@.len() - i,
    {
        assert(table@.subrange(0, i + 1).drop_last() =~= table@.subrange(0, i as int));
        if table[i].collider == c {
            found = Some(table[i].entity);
        }
        i = i + 1;
    }
    assert(table@.subrange(0, table@.len() as int) =~= table@);
    found
}

impl EventLists {
    /// No lists at all.
    pub fn new() -> (r: EventLists)
        ensures
            r@ == Seq::<(EntityId, Seq<EntityId>)>::empty(),
    {
        let r = EventLists { slots: Vec::new() };
        assert(r@ =~= Seq::<(EntityId, Seq<EntityId>)>::empty());
        r
    }

    /// Gives `owner` an empty list unless it already keeps one; returns whether one was added.
    pub fn track(&mut self, owner: EntityId) -> (added: bool)
        ensures
            added == !old(self)@.map_values(|s: (EntityId, Seq<EntityId>)| s.0).contains(owner),
            added ==> final(self)@ == old(self)@.push((owner, Seq::<EntityId>::empty())),
            !added ==> final(self)@ == old(self)@,
            owners_distinct(old(self)@) ==> owners_distinct(final(self)@),
    {
        let ghost owners = self@.map_values(|s: (EntityId, Seq<EntityId>)| s.0);
        let mut i: usize = 0;
        while i < self.slots.len()
            invariant
                i <= self.slots@.len(),
                self@ == old(self)@,
                owners == self@.map_values(|s: (EntityId, Seq<EntityId>)| s.0),
                forall|j: int| 0 <= j < i ==> owners[j] != owner,
            decreases self.slots@.len() - i,
        {
            if self.slots[i].owner == owner {
                assert(owners[i as int] == owner);
                return false;
            }
            i = i + 1;
        }
        assert(!owners.contains(owner));
        assert forall|j: int| 0 <= j < old(self)@.len() implies #[trigger] old(self)@[j].0
            != owner by {
            assert(owners[j] == old(self)@[j].0);
        }
        self.slots.push(EventList { owner, partners: Vec::new() });
        assert(self@ =~= old(self)@.push((owner, Seq::<EntityId>::empty())));
        true
    }

    /// Number of entities that keep a list.
    pub fn len(&self) -> (r: usize)
        ensures
            r == self@.len(),
    {
        self.slots.len()
    }

    /// Owner of the list in slot `i`.
    pub fn owner_at(&self, i: usize) -> (r: EntityId)
        requires
            i < self@.len(),
        ensures
            r == self@[i as int].0,
    {
        self.slots[i].owner
    }

    /// The partners listed for `e`, in the order they were recorded; empty when
    /// `e` keeps no list.
    pub fn partners_of(&self, e: EntityId) -> (r: Vec<EntityId>)
        ensures
            r@ == list_of(self@, e),
    {
        let mut found: Option<usize> = None;
        let mut i: usize = 0;
        while i < self.slots.len()
            invariant
                i <= self.slots@.len(),
                found.is_none() ==> list_of(self@.subrange(0, i as int), e) == Seq::<
                    EntityId,
                >::empty(),
                found.is_some() ==> found.unwrap() < i && list_of(self@.subrange(0, i as int), e)
                    == self@[found.unwrap() as int].1,
            decreases self.slots@.len() - i,
        {
            assert(self@.subrange(0, i + 1).drop_last() =~= self@.subrange(0, i as int));
            if self.slots[i].owner == e {
                found = Some(i);
            }
            i = i + 1;
        }
        assert(self@.subrange(0, self@.len() as int) =~= self@);
        match found {
            None => Vec::new(),
            Some(k) => {
                let src = &self.slots[k].partners;
                let mut out: Vec<EntityId> = Vec::new();
                let mut j: usize = 0;
                while j < src.len()
                    invariant
                        j <= src@.len(),
                        out@ == src@.subrange(0, j as int),
                    decreases src@.len() - j,
                {
                    out.push(src[j]);
                    j = j + 1;
                    assert(out@ =~= src@.subrange(0, j as int));
                }
                assert(src@.subrange(0, src@.len() as int) =~= src@);
                out
            },
        }
    }

    /// Appends the partners of each raw event pair to the lists of the two
    /// entities it resolves to. Pairs with a collider that no live entity owns
    /// are dropped.
    pub fn harvest(&mut self, table: &Vec<ColliderEntry>, events: &Vec<(ColliderId, ColliderId)>)
        ensures
            final(self)@ == harvested(old(self)@, table@, events@),
    {
        let mut k: usize = 0;
        assert(self@ =~= harvested(old(self)@, table@, events@.subrange(0, 0)));
        while k < events.len()
            invariant
                k <= events@.len(),
                self@ == harvested(old(self)@, table@, events@.subrange(0, k as int)),
            decreases events@.len() - k,
        {
            let pair = events[k];
            let r1 = resolve_collider(table, pair.0);
            let r2 = resolve_collider(table, pair.1);
            let ghost before = self@;
            match (r1, r2) {
                (Some(e1), Some(e2)) => {
                    self.append_for(e1, e2);
                    self.append_for(e2, e1);
                },
                _ => {},
            }
            proof {
                let prefix = events@.subrange(0, k as int);
                let next = events@.subrange(0, k + 1);
                assert(next.drop_last() =~= prefix);
                assert(next.last() == pair);
                let h = harvested(old(self)@, table@, next);
                assert forall|i: int| 0 <= i < self@.len() implies #[trigger] self@[i] == h[i] by {
                    assert(self@[i].1 =~= h[i].1);
                }
                assert(self@ =~= h);
            }
            k = k + 1;
        }
        assert(events@.subrange(0, events@.len() as int) =~= events@);
    }

    /// Empties every list, keeping the owners.
    pub fn clear(&mut self)
        ensures
            final(self)@ == cleared(old(self)@),
    {
        let mut j: usize = 0;
        while j < self.slots.len()
            invariant
                j <= self.slots@.len(),
                self@.len() == old(self)@.len(),
                forall|i: int|
                    0 <= i < j ==> (#[trigger] self@[i]) == (
                        old(self)@[i].0,
                        Seq::<EntityId>::empty(),
                    ),
                forall|i: int| j <= i < self@.len() ==> (#[trigger] self@[i]) == old(self)@[i],
            decreases self.slots@.len() - j,
        {
            let ghost prev = self@;
            let ghost prev_slots = self.slots@;
            self.slots[j].partners.clear();
            assert(self@[j as int].1 =~= Seq::<EntityId>::empty());
            assert(self@[j as int].0 == prev[j as int].0);
            assert forall|i: int| 0 <= i < self@.len() && i != j implies #[trigger] self@[i]
                == prev[i] by {
                assert(self.slots@[i] == prev_slots[i]);
            }
            j = j + 1;
        }
        assert(self@ =~= cleared(old(self)@));
    }

    /// Appends `partner` to every list owned by `owner`.
    fn append_for(&mut self, owner: EntityId, partner: EntityId)
        ensures
            final(self)@.len() == old(self)@.len(),
            forall|i: int|
                0 <= i < old(self)@.len() ==> (#[trigger] final(self)@[i]) == (
                old(self)@[i].0,
                old(self)@[i].1 + (if old(self)@[i].0 == owner {
                    seq![partner]
                } else {
                    Seq::<EntityId>::empty()
                }),
            ),
    {
        let mut j: usize = 0;
        while j < self.slots.len()
            invariant
                j <= self.slots@.len(),
                self@.len() == old(self)@.len(),
                forall|i: int|
                    0 <= i < j ==> (#[trigger] self@[i]) == (
                    old(self)@[i].0,
                    old(self)@[i].1 + (if old(self)@[i].0 == owner {
                        seq![partner]
                    } else {
                        Seq::<EntityId>::empty()
                    }),
                ),
                forall|i: int| j <= i < self@.len() ==> (#[trigger] self@[i]) == old(self)@[i],
            decreases self.slots@.len() - j,
        {
            let ghost prev = self@;
            let ghost prev_slots = self.slots@;
            if self.slots[j].owner == owner {
                self.slots[j].partners.push(partner);
            }
            assert(self@[j as int].1 =~= prev[j as int].1 + (if prev[j as int].0 == owner {
                seq![partner]
            } else {
                Seq::<EntityId>::empty()
            }));
            assert(self@[j as int].0 == prev[j as int].0);
            assert forall|i: int| 0 <= i < self@.len() && i != j implies #[trigger] self@[i]
                == prev[i] by {
                assert(self.slots@[i] == prev_slots[i]);
            }
            j = j + 1;
        }
    }
}

/// Harvests one frame's raw contact and intersection events into the contact
/// and intersection lists.
pub fn find_collisions(
    table: &Vec<ColliderEntry>,
    contact_events: &Vec<(ColliderId, ColliderId)>,
    intersection_events: &Vec<(ColliderId, ColliderId)>,
    contacts: &mut EventLists,
    intersections: &mut EventLists,
)
    ensures
        final(contacts)@ == harvested(old(contacts)@, table@, contact_events@),
        final(intersections)@ == harvested(old(intersections)@, table@, intersection_events@),
{
    contacts.harvest(table, contact_events);
    intersections.harvest(table, intersection_events);
}

/// Empties the contact and intersection lists at the end of a frame.
pub fn clear_collisions(contacts: &mut EventLists, intersections: &mut EventLists)
    ensures
        final(contacts)@ == cleared(old(contacts)@),
        final(intersections)@ == cleared(old(intersections)@),
{
    contacts.clear();
    intersections.clear();
}

proof fn lemma_concat_contains(x: Seq<EntityId>, y: Seq<EntityId>, v: EntityId)
    ensures
        (x + y).contains(v) <==> x.contains(v) || y.contains(v),
{
    if x.contains(v) {
        let i = choose|i: int| 0 <= i < x.len() && x[i] == v;
        assert((x + y)[i] == v);
    }
    if y.contains(v) {
        let i = choose|i: int| 0 <= i < y.len() && y[i] == v;
        assert((x + y)[x.len() + i] == v);
    }
    if (x + y).contains(v) {
        let i = choose|i: int| 0 <= i < (x + y).len() && (x + y)[i] == v;
        if i < x.len() {
            assert(x[i] == v);
        } else {
            assert(y[i - x.len()] == v);
        }
    }
}

proof fn lemma_single_contains(x: EntityId, v: EntityId)
    ensures
        seq![x].contains(v) <==> x == v,
        !Seq::<EntityId>::empty().contains(v),
{
    assert(seq![x][0] == x);
}

proof fn lemma_pair_partners_contains(
    table: Seq<ColliderEntry>,
    pair: (ColliderId, ColliderId),
    a: EntityId,
    b: EntityId,
)
    ensures
        pair_partners(table, pair, a).contains(b) <==> (resolve(table, pair.0) == Some(a)
            && resolve(table, pair.1) == Some(b)) || (resolve(table, pair.1) == Some(a)
            && resolve(table, pair.0) == Some(b)),
{
    match (resolve(table, pair.0), resolve(table, pair.1)) {
        (Some(e1), Some(e2)) => {
            let x = if e1 == a {
                seq![e2]
            } else {
                Seq::<EntityId>::empty()
            };
            let y = if e2 == a {
                seq![e1]
            } else {
                Seq::<EntityId>::empty()
            };
            lemma_concat_contains(x, y, b);
            lemma_single_contains(e1, b);
            lemma_single_contains(e2, b);
        },
        _ => {
            lemma_single_contains(a, b);
        },
    }
}

proof fn lemma_gathered_contains(
    table: Seq<ColliderEntry>,
    events: Seq<(ColliderId, ColliderId)>,
    a: EntityId,
    b: EntityId,
)
    ensures
        gathered(table, events, a).contains(b) <==> exists|k: int|
            0 <= k < events.len() && #[trigger] pair_partners(table, events[k], a).contains(b),
    decreases events.len(),
{
    if events.len() == 0 {
        lemma_single_contains(a, b);
    } else {
        let prefix = events.drop_last();
        lemma_gathered_contains(table, prefix, a, b);
        lemma_concat_contains(
            gathered(table, prefix, a),
            pair_partners(table, events.last(), a),
            b,
        );
        if gathered(table, events, a).contains(b) {
            if gathered(table, prefix, a).contains(b) {
                let k = choose|k: int|
                    0 <= k < prefix.len() && #[trigger] pair_partners(table, prefix[k], a).contains(
                        b,
                    );
                assert(events[k] == prefix[k]);
            } else {
                assert(pair_partners(table, events[events.len() - 1], a).contains(b));
            }
        }
        if exists|k: int|
            0 <= k < events.len() && #[trigger] pair_partners(table, events[k], a).contains(b) {
            let k = choose|k: int|
                0 <= k < events.len() && #[trigger] pair_partners(table, events[k], a).contains(b);
            if k < prefix.len() {
                assert(prefix[k] == events[k]);
            }
        }
    }
}

/// Partners are recorded in pairs: within one stream of raw events, `b` is
/// recorded for `a` exactly when `a` is recorded for `b`.
pub proof fn lemma_gathered_symmetric(
    table: Seq<ColliderEntry>,
    events: Seq<(ColliderId, ColliderId)>,
    a: EntityId,
    b: EntityId,
)
    ensures
        gathered(table, events, a).contains(b) <==> gathered(table, events, b).contains(a),
{
    lemma_gathered_contains(table, events, a, b);
    lemma_gathered_contains(table, events, b, a);
    if gathered(table, events, a).contains(b) {
        let k = choose|k: int|
            0 <= k < events.len() && #[trigger] pair_partners(table, events[k], a).contains(b);
        lemma_pair_partners_contains(table, events[k], a, b);
        lemma_pair_partners_contains(table, events[k], b, a);
    }
    if gathered(table, events, b).contains(a) {
        let k = choose|k: int|
            0 <= k < events.len() && #[trigger] pair_partners(table, events[k], b).contains(a);
        lemma_pair_partners_contains(table, events[k], a, b);
        lemma_pair_partners_contains(table, events[k], b, a);
    }
}

/// Symmetry of harvested lists: after a frame's harvest into lists that were
/// empty, the entity of list `j` appears in list `i` exactly when the entity
/// of list `i` appears in list `j`.
pub proof fn lemma_harvest_symmetric(
    lists: Seq<(EntityId, Seq<EntityId>)>,
    table: Seq<ColliderEntry>,
    events: Seq<(ColliderId, ColliderId)>,
    i: int,
    j: int,
)
    requires
        all_empty(lists),
        0 <= i < lists.len(),
        0 <= j < lists.len(),
    ensures
        ({
            let h = harvested(lists, table, events);
            h[i].1.contains(h[j].0) <==> h[j].1.contains(h[i].0)
        }),
{
    let h = harvested(lists, table, events);
    assert(lists[i].1.len() == 0);
    assert(lists[j].1.len() == 0);
    assert(h[i].1 =~= gathered(table, events, lists[i].0));
    assert(h[j].1 =~= gathered(table, events, lists[j].0));
    lemma_gathered_symmetric(table, events, lists[i].0, lists[j].0);
}

/// Lists after a run of whole frames, each frame harvesting its table and
/// raw events and then clearing every list.
pub open spec fn after_frames(
    lists: Seq<(EntityId, Seq<EntityId>)>,
    frames: Seq<(Seq<ColliderEntry>, Seq<(ColliderId, ColliderId)>)>,
) -> Seq<(EntityId, Seq<EntityId>)>
    decreases frames.len(),
{
    if frames.len() == 0 {
        lists
    } else {
        cleared(harvested(after_frames(lists, frames.drop_last()), frames.last().0, frames.last().1))
    }
}

proof fn lemma_after_frames_empty(
    lists: Seq<(EntityId, Seq<EntityId>)>,
    frames: Seq<(Seq<ColliderEntry>, Seq<(ColliderId, ColliderId)>)>,
)
    requires
        all_empty(lists),
    ensures
        all_empty(after_frames(lists, frames)),
        after_frames(lists, frames).len() == lists.len(),
        forall|i: int|
            0 <= i < lists.len() ==> (#[trigger] after_frames(lists, frames)[i]).0 == lists[i].0,
    decreases frames.len(),
{
    if frames.len() > 0 {
        lemma_after_frames_empty(lists, frames.drop_last());
    }
}

/// Lists live for one frame: starting from empty lists, what frame `k`
/// observes after its harvest is exactly what its own raw events give, and
/// once the frame ends every list is empty again.
pub proof fn lemma_lists_live_one_frame(
    lists: Seq<(EntityId, Seq<EntityId>)>,
    frames: Seq<(Seq<ColliderEntry>, Seq<(ColliderId, ColliderId)>)>,
    k: int,
)
    requires
        all_empty(lists),
        0 <= k < frames.len(),
    ensures
        ({
            let seen = harvested(after_frames(lists, frames.take(k)), frames[k].0, frames[k].1);
            &&& seen.len() == lists.len()
            &&& forall|i: int|
                0 <= i < lists.len() ==> (#[trigger] seen[i]).1 == gathered(
                    frames[k].0,
                    frames[k].1,
                    lists[i].0,
                )
        }),
        all_empty(after_frames(lists, frames.take(k + 1))),
        all_empty(after_frames(lists, frames)),
{
    let before = after_frames(lists, frames.take(k));
    lemma_after_frames_empty(lists, frames.take(k));
    lemma_after_frames_empty(lists, frames.take(k + 1));
    lemma_after_frames_empty(lists, frames);
    let seen = harvested(before, frames[k].0, frames[k].1);
    assert forall|i: int| 0 <= i < lists.len() implies (#[trigger] seen[i]).1 == gathered(
        frames[k].0,
        frames[k].1,
        lists[i].0,
    ) by {
        assert(before[i].1.len() == 0);
        assert(seen[i].1 =~= gathered(frames[k].0, frames[k].1, lists[i].0));
    }
}

/// Clearing twice leaves the same lists as clearing once.
pub proof fn lemma_clear_idempotent(lists: Seq<(EntityId, Seq<EntityId>)>)
    ensures
        cleared(cleared(lists)) == cleared(lists),
{
    assert(cleared(cleared(lists)) =~= cleared(lists));
}

/// Self-exclusion: when the physics engine reports only pairs whose groups
/// interact, an attack whose filter leaves out group bits `g` is never
/// recorded for an entity whose colliders are members of exactly `g`, such as
/// the attack's owner and the owner's whole class (see `attack_groups`).
pub proof fn lemma_attack_excludes_owner_group(
    table: Seq<ColliderEntry>,
    events: Seq<(ColliderId, ColliderId)>,
    groups_of: spec_fn(ColliderId) -> CollisionGroups,
    attack: EntityId,
    member: EntityId,
    g: u16,
)
    requires
        forall|k: int|
            0 <= k < events.len() ==> interacts(
                groups_of((#[trigger] events[k]).0),
                groups_of(events[k].1),
            ),
        forall|c: ColliderId|
            #[trigger] resolve(table, c) == Some(attack) ==> groups_of(c).filter & g == 0,
        forall|c: ColliderId|
            #[trigger] resolve(table, c) == Some(member) ==> groups_of(c).memberships == g,
    ensures
        !gathered(table, events, member).contains(attack),
{
    lemma_gathered_contains(table, events, member, attack);
    if gathered(table, events, member).contains(attack) {
        let k = choose|k: int|
            0 <= k < events.len() && #[trigger] pair_partners(table, events[k], member).contains(
                attack,
            );
        lemma_pair_partners_contains(table, events[k], member, attack);
        let g1 = groups_of(events[k].0);
        let g2 = groups_of(events[k].1);
        assert(interacts(g1, g2));
        let (m1, f1, m2, f2) = (g1.memberships, g1.filter, g2.memberships, g2.filter);
        assert(m1 & f2 == f2 & m1 && m2 & f1 == f1 & m2) by (bit_vector);
        if resolve(table, events[k].0) == Some(member) {
            assert(m1 == g && f2 & g == 0);
        } else {
            assert(m2 == g && f1 & g == 0);
        }
    }
}

} // verus!
