//! The layout of a unique identifier and the rule by which one follows another.
//!
//! An identifier is a non-negative 64-bit number. From the top it holds a
//! tick of 41 bits, the node that issued it in 10 bits (machine and node
//! number, 5 bits each) and a sequence number of 12 bits that tells apart
//! the identifiers of one tick.

use vstd::prelude::*;

verus! {

/// How many sequence numbers one tick has.
pub const SEQUENCE_SPAN: u64 = 4096;

/// How many nodes there are.
pub const NODE_SPAN: u64 = 1024;

/// How many machine numbers, and how many node numbers on one machine.
pub const PART_SPAN: i32 = 32;

/// The weight of the tick: `SEQUENCE_SPAN * NODE_SPAN`.
pub const TICK_UNIT: u64 = 4194304;

/// How many ticks there are.
pub const TICK_SPAN: u64 = 0x200_0000_0000;

pub open spec fn compose(tick: int, node: int, sequence: int) -> int {
    tick * 4194304 + node * 4096 + sequence
}

pub open spec fn tick_of(id: int) -> int {
    id / 4194304
}

pub open spec fn node_of(id: int) -> int {
    (id / 4096) % 1024
}

pub open spec fn sequence_of(id: int) -> int {
    id % 4096
}

/// Whether `id` is an identifier of the node.
pub open spec fn belongs_to(id: int, node: int) -> bool {
    0 <= id && node_of(id) == node
}

/// Where a node stands: `last` is its latest identifier, or -1 before the first.
pub open spec fn standing(last: int, node: int) -> bool {
    0 <= node < 1024 && (last == -1 || belongs_to(last, node))
}

/// The least identifier of the node above `last`: the next sequence number
/// in the tick of `last`, or the first of the next tick when that tick is
/// used up.
pub open spec fn successor(last: int, node: int) -> int {
    if last < 0 {
        compose(0, node, 0)
    } else if sequence_of(last) + 1 < 4096 {
        last + 1
    } else {
        compose(tick_of(last) + 1, node, 0)
    }
}

/// The identifier that follows `last`, given what the time-ordered source
/// proposes: the proposal if it is an identifier of the node above `last`,
/// else the successor of `last`.
pub open spec fn next_id(last: int, node: int, candidate: int) -> int {
    if candidate > last && belongs_to(candidate, node) {
        candidate
    } else {
        successor(last, node)
    }
}

/// The greatest identifier of the node that fits 64 bits.
pub open spec fn last_id_of(node: int) -> int {
    compose(0x200_0000_0000 - 1, node, 4095)
}

/// The identifiers issued, in order, when the source proposes `candidates`
/// one after another to a node that stands at `last`.
pub open spec fn issued(last: int, node: int, candidates: Seq<int>) -> Seq<int>
    decreases candidates.len(),
{
    if candidates.len() == 0 {
        Seq::empty()
    } else {
        let id = next_id(last, node, candidates[0]);
        seq![id] + issued(id, node, candidates.drop_first())
    }
}

/// An identifier is its three parts put together, and the parts are in range.
pub proof fn lemma_parts(id: int)
    requires
        0 <= id,
    ensures
        id == compose(tick_of(id), node_of(id), sequence_of(id)),
        0 <= tick_of(id),
        0 <= node_of(id) < 1024,
        0 <= sequence_of(id) < 4096,
{
}

/// Putting three parts together and taking them apart gives them back.
pub proof fn lemma_compose(tick: int, node: int, sequence: int)
    requires
        0 <= tick,
        0 <= node < 1024,
        0 <= sequence < 4096,
    ensures
        0 <= compose(tick, node, sequence),
        tick_of(compose(tick, node, sequence)) == tick,
        node_of(compose(tick, node, sequence)) == node,
        sequence_of(compose(tick, node, sequence)) == sequence,
{
}

/// The successor is an identifier of the node and lies above.
pub proof fn lemma_successor(last: int, node: int)
    requires
        standing(last, node),
    ensures
        successor(last, node) > last,
        belongs_to(successor(last, node), node),
        forall|id: int| id > last && belongs_to(id, node) ==> successor(last, node) <= id,
{
    if last < 0 {
        lemma_compose(0, node, 0);
    } else {
        lemma_parts(last);
        if sequence_of(last) + 1 < 4096 {
            lemma_compose(tick_of(last), node, sequence_of(last) + 1);
        } else {
            lemma_compose(tick_of(last) + 1, node, 0);
        }
    }
    assert forall|id: int| id > last && belongs_to(id, node) implies successor(last, node) <= id by {
        lemma_parts(id);
        if last >= 0 {
            lemma_parts(last);
        }
    }
}

/// Whatever the source proposes, the next identifier is one of the node and
/// lies above the last.
pub proof fn lemma_next_id(last: int, node: int, candidate: int)
    requires
        standing(last, node),
    ensures
        next_id(last, node, candidate) > last,
        belongs_to(next_id(last, node, candidate), node),
        standing(next_id(last, node, candidate), node),
{
    lemma_successor(last, node);
}

/// Whatever the source proposes and however the clock behind it runs, the
/// identifiers of one node come out in strictly rising order: each lies
/// above every one before it, so that no two are equal.
pub proof fn lemma_ids_rise(last: int, node: int, candidates: Seq<int>)
    requires
        standing(last, node),
    ensures
        issued(last, node, candidates).len() == candidates.len(),
        forall|i: int|
            0 <= i < candidates.len() ==> last < #[trigger] issued(last, node, candidates)[i]
                && belongs_to(issued(last, node, candidates)[i], node),
        forall|i: int, j: int|
            0 <= i < j < candidates.len() ==> #[trigger] issued(last, node, candidates)[i]
                < #[trigger] issued(last, node, candidates)[j],
    decreases candidates.len(),
{
    if candidates.len() > 0 {
        let id = next_id(last, node, candidates[0]);
        let rest = candidates.drop_first();
        lemma_next_id(last, node, candidates[0]);
        lemma_ids_rise(id, node, rest);
        let ids = issued(last, node, candidates);
        assert(ids =~= seq![id] + issued(id, node, rest));
        assert forall|i: int| 0 <= i < candidates.len() implies last < #[trigger] ids[i] && belongs_to(
            ids[i],
            node,
        ) by {
            if i > 0 {
                assert(ids[i] == issued(id, node, rest)[i - 1]);
            }
        }
        assert forall|i: int, j: int| 0 <= i < j < candidates.len() implies #[trigger] ids[i]
            < #[trigger] ids[j] by {
            assert(ids[j] == issued(id, node, rest)[j - 1]);
            if i > 0 {
                assert(ids[i] == issued(id, node, rest)[i - 1]);
            }
        }
    }
}

/// The node identifier made of a machine number and a node number.
pub fn node_field(machine_id: i32, node_id: i32) -> (node: i64)
    requires
        0 <= machine_id < PART_SPAN,
        0 <= node_id < PART_SPAN,
    ensures
        node == machine_id * 32 + node_id,
        0 <= node < 1024,
{
    (machine_id * 32 + node_id) as i64
}

/// Whether `candidate` is an identifier of the node.
pub fn is_of_node(candidate: i64, node: i64) -> (yes: bool)
    requires
        0 <= node < 1024,
    ensures
        yes == belongs_to(candidate as int, node as int),
{
    if candidate < 0 {
        false
    } else {
        (candidate as u64 / SEQUENCE_SPAN) % NODE_SPAN == node as u64
    }
}

/// Whether the node can issue an identifier above `last`.
pub fn room_after(last: i64, node: i64) -> (yes: bool)
    requires
        standing(last as int, node as int),
    ensures
        yes == (last < last_id_of(node as int)),
{
    let top: u64 = (TICK_SPAN - 1) * TICK_UNIT + node as u64 * SEQUENCE_SPAN + (SEQUENCE_SPAN - 1);
    last < 0 || (last as u64) < top
}

/// The identifier that follows `last` when the source proposes `candidate`.
pub fn follow(last: i64, node: i64, candidate: i64) -> (id: i64)
    requires
        standing(last as int, node as int),
        last < last_id_of(node as int),
    ensures
        id == next_id(last as int, node as int, candidate as int),
        id > last,
        belongs_to(id as int, node as int),
        standing(id as int, node as int),
{
    proof {
        lemma_next_id(last as int, node as int, candidate as int);
        lemma_successor(last as int, node as int);
    }
    if candidate > last && is_of_node(candidate, node) {
        candidate
    } else if last < 0 {
        node * (SEQUENCE_SPAN as i64)
    } else {
        proof {
            lemma_parts(last as int);
        }
        let sequence = last as u64 % SEQUENCE_SPAN;
        if sequence + 1 < SEQUENCE_SPAN {
            last + 1
        } else {
            let tick = last as u64 / TICK_UNIT;
            assert(tick + 1 < TICK_SPAN);
            ((tick + 1) * TICK_UNIT + node as u64 * SEQUENCE_SPAN) as i64
        }
    }
}

} // verus!
