//! Process-wide state: the source of unique identifiers and the registry of
//! who is connected right now.
//!
//! Both are plain values. Whoever shares one between tasks keeps it behind
//! one lock and hands out `&mut` access, so that every operation below runs
//! alone, from its first read to its last write.

use vstd::prelude::*;
use snowflake::SnowflakeIdGenerator;
use crate::ids::{belongs_to, follow, last_id_of, next_id, node_field, room_after, standing, PART_SPAN};
use crate::idsource::{draw, start};
use crate::model::UserId;

verus! {

/// The secret that session tokens are signed with: set once when the process
/// starts and read-only from then on.
pub type JwtSecret = String;

/// The entries after `id` has been recorded once more.
pub open spec fn registered(entries: Seq<UserId>, id: UserId) -> Seq<UserId> {
    entries.push(id)
}

/// The test that every identity but `id` passes.
pub open spec fn other_than(id: UserId) -> spec_fn(UserId) -> bool {
    |other: UserId| other != id
}

/// The entries after every record of `id` has been dropped.
pub open spec fn released(entries: Seq<UserId>, id: UserId) -> Seq<UserId> {
    entries.filter(other_than(id))
}

/// Whether `id` has at least one record among the entries.
pub open spec fn is_present(entries: Seq<UserId>, id: UserId) -> bool {
    entries.contains(id)
}

/// Dropping the records of `id` leaves none of them and touches no other identity.
pub proof fn lemma_released(entries: Seq<UserId>, id: UserId)
    ensures
        !is_present(released(entries, id), id),
        forall|other: UserId| other != id ==>
            (is_present(released(entries, id), other) <==> is_present(entries, other)),
        released(entries, id).len() <= entries.len(),
{
    let keep = other_than(id);
    entries.lemma_filter_len(keep);
    if released(entries, id).contains(id) {
        let i = choose|i: int| 0 <= i < released(entries, id).len() && released(entries, id)[i] == id;
        entries.lemma_filter_pred(keep, i);
    }
    assert forall|other: UserId| other != id implies
        (is_present(released(entries, id), other) <==> is_present(entries, other)) by {
        if entries.contains(other) {
            let i = choose|i: int| 0 <= i < entries.len() && entries[i] == other;
            entries.lemma_filter_contains(keep, i);
        }
        if released(entries, id).contains(other) {
            entries.lemma_filter_contains_rev(keep, other);
        }
    }
}

/// Dropping the records of `id` from one more entry: the entry stays unless it is `id`.
pub proof fn lemma_released_push(entries: Seq<UserId>, last: UserId, id: UserId)
    ensures
        released(entries.push(last), id) == if last != id {
            released(entries, id).push(last)
        } else {
            released(entries, id)
        },
{
    reveal(Seq::filter);
    assert(entries.push(last).drop_last() =~= entries);
}

/// An identity that was recorded and then released is absent, however often
/// it had been recorded before.
pub proof fn lemma_insert_then_remove_is_absent(entries: Seq<UserId>, id: UserId)
    ensures
        !is_present(released(registered(entries, id), id), id),
        !is_present(released(registered(registered(entries, id), id), id), id),
{
    lemma_released(registered(entries, id), id);
    lemma_released(registered(registered(entries, id), id), id);
}

/// Recording an identity a second time changes nothing about who is present.
pub proof fn lemma_insert_twice_is_present_once(entries: Seq<UserId>, id: UserId, other: UserId)
    ensures
        is_present(registered(registered(entries, id), id), other) <==> is_present(
            registered(entries, id),
            other,
        ),
        is_present(registered(entries, id), other) <==> (other == id || is_present(entries, other)),
{
    let once = registered(entries, id);
    let twice = registered(once, id);
    assert(once[once.len() - 1] == id);
    if is_present(entries, other) {
        let i = choose|i: int| 0 <= i < entries.len() && entries[i] == other;
        assert(once[i] == other);
    }
    if is_present(once, other) {
        let i = choose|i: int| 0 <= i < once.len() && once[i] == other;
        assert(twice[i] == other);
        if i < entries.len() {
            assert(entries[i] == other);
        }
    }
    if is_present(twice, other) {
        let i = choose|i: int| 0 <= i < twice.len() && twice[i] == other;
        if i < once.len() {
            assert(once[i] == other);
        }
    }
}

/// Releasing twice is releasing once.
pub proof fn lemma_release_is_idempotent(entries: Seq<UserId>, id: UserId)
    ensures
        released(released(entries, id), id) == released(entries, id),
    decreases entries.len(),
{
    reveal(Seq::filter);
    if entries.len() > 0 {
        let front = entries.drop_last();
        let last = entries.last();
        assert(front.push(last) =~= entries);
        lemma_released_push(front, last, id);
        lemma_release_is_idempotent(front, id);
        if last != id {
            lemma_released_push(released(front, id), last, id);
        }
    }
}

/// The generator of unique identifiers of one node.
///
/// It asks a time-ordered source for each identifier and remembers the last
/// one it gave out. What the source proposes is given out only if it lies
/// above everything given out before; otherwise, as when the clock has moved
/// backward, the generator stays in the tick it had reached and counts on.
#[derive(Debug)]
pub struct Snowflakes {
    source: SnowflakeIdGenerator,
    node: i64,
    last: i64,
}

impl Snowflakes {
    /// What every generator made by `new` keeps to: its node number is in
    /// range and the last identifier it gave out is one of that node.
    pub closed spec fn well_formed(&self) -> bool {
        standing(self.last as int, self.node as int)
    }

    /// The node whose identifiers these are.
    pub closed spec fn node(&self) -> int {
        self.node as int
    }

    /// The last identifier given out, -1 before the first.
    pub closed spec fn last_issued(&self) -> int {
        self.last as int
    }

    /// Whether an identifier above the last one still fits 64 bits.
    pub open spec fn spec_has_room(&self) -> bool {
        self.last_issued() < last_id_of(self.node())
    }

    /// A generator for the node with the given machine and node number, both below 32.
    pub fn new(machine_id: i32, node_id: i32) -> (generator: Snowflakes)
        requires
            0 <= machine_id < PART_SPAN,
            0 <= node_id < PART_SPAN,
        ensures
            generator.well_formed(),
            generator.node() == machine_id * 32 + node_id,
            generator.last_issued() == -1,
            generator.spec_has_room(),
    {
        Snowflakes { source: start(machine_id, node_id), node: node_field(machine_id, node_id), last: -1 }
    }

    /// Whether `generate` can be called: the identifiers of this node are
    /// not used up.
    #[verifier::when_used_as_spec(spec_has_room)]
    pub fn has_room(&self) -> (yes: bool)
        requires
            self.well_formed(),
        ensures
            yes == self.spec_has_room(),
    {
        room_after(self.last, self.node)
    }

    /// Gives out the next identifier: one of this node, above every
    /// identifier given out before.
    pub fn generate(&mut self) -> (id: i64)
        requires
            old(self).well_formed(),
            old(self).spec_has_room(),
        ensures
            final(self).well_formed(),
            final(self).node() == old(self).node(),
            final(self).last_issued() == id,
            id > old(self).last_issued(),
            belongs_to(id as int, old(self).node()),
            exists|candidate: i64| id == #[trigger] next_id(old(self).last_issued(), old(self).node(), candidate as int),
    {
        let candidate = draw(&mut self.source);
        let id = follow(self.last, self.node, candidate);
        assert(id == next_id(old(self).last_issued(), old(self).node(), candidate as int));
        self.last = id;
        id
    }
}

/// One live session of one user.
#[derive(Debug, Clone, PartialEq, Eq)]
pub struct ClientData {
    pub uid: UserId,
}

/// The presence registry: one entry for every session that was opened and
/// not yet closed, in the order in which they were opened.
#[derive(Debug, Clone, PartialEq, Eq)]
pub struct ConnectedClients(pub Vec<ClientData>);

impl View for ConnectedClients {
    type V = Seq<UserId>;

    open spec fn view(&self) -> Seq<UserId> {
        self.0@.map_values(|entry: ClientData| entry.uid)
    }
}

impl ConnectedClients {
    /// An empty registry.
    pub fn new() -> (registry: ConnectedClients)
        ensures
            registry@ == Seq::<UserId>::empty(),
    {
        let registry = ConnectedClients(Vec::new());
        assert(registry@ =~= Seq::<UserId>::empty());
        registry
    }

    /// Records a session of `id`.
    pub fn insert(&mut self, id: UserId)
        ensures
            final(self)@ == registered(old(self)@, id),
            is_present(final(self)@, id),
            forall|other: UserId| other != id ==>
                (is_present(final(self)@, other) <==> is_present(old(self)@, other)),
    {
        self.0.push(ClientData { uid: id });
        assert(self@ =~= registered(old(self)@, id));
        assert(self@[self@.len() - 1] == id);
        assert forall|other: UserId| other != id implies
            (is_present(self@, other) <==> is_present(old(self)@, other)) by {
            if old(self)@.contains(other) {
                let i = choose|i: int| 0 <= i < old(self)@.len() && old(self)@[i] == other;
                assert(self@[i] == other);
            }
        }
    }

    /// Drops every record of `id`; the other entries keep their order.
    pub fn pop(&mut self, id: UserId)
        ensures
            final(self)@ == released(old(self)@, id),
            !is_present(final(self)@, id),
            forall|other: UserId| other != id ==>
                (is_present(final(self)@, other) <==> is_present(old(self)@, other)),
    {
        let mut kept: Vec<ClientData> = Vec::new();
        let mut i: usize = 0;
        assert(old(self)@.take(0) =~= Seq::<UserId>::empty());
        assert(kept@.map_values(|entry: ClientData| entry.uid) =~= Seq::<UserId>::empty());
        while i < self.0.len()
            invariant
                i <= self.0.len(),
                *self == *old(self),
                kept@.map_values(|entry: ClientData| entry.uid) == released(self@.take(i as int), id),
            decreases self.0.len() - i,
        {
            let uid = self.0[i].uid;
            proof {
                assert(self@.take(i as int + 1) =~= self@.take(i as int).push(uid));
                lemma_released_push(self@.take(i as int), uid, id);
            }
            let ghost before = kept@.map_values(|entry: ClientData| entry.uid);
            if uid != id {
                kept.push(ClientData { uid });
                assert(kept@.map_values(|entry: ClientData| entry.uid) =~= before.push(uid));
            }
            i += 1;
        }
        assert(self@.take(i as int) =~= self@);
        self.0 = kept;
        proof {
            lemma_released(old(self)@, id);
        }
    }

    /// Whether `id` has a live session on record.
    pub fn contains(&self, id: UserId) -> (present: bool)
        ensures
            present == is_present(self@, id),
    {
        let mut i: usize = 0;
        while i < self.0.len()
            invariant
                i <= self.0.len(),
                forall|j: int| 0 <= j < i ==> self@[j] != id,
            decreases self.0.len() - i,
        {
            if self.0[i].uid == id {
                assert(self@[i as int] == id);
                return true;
            }
            i += 1;
        }
        false
    }

    /// The number of entries, duplicates counted.
    pub fn len(&self) -> (n: usize)
        ensures
            n == self@.len(),
    {
        self.0.len()
    }
}

} // verus!
