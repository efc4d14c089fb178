//! Seeds that every peer of a session derives alike.

use vstd::prelude::*;
use crate::utilities::PlayerScores;

verus! {

/// Number of players in a session.
pub const NUM_PLAYERS: usize = 2;

/// Constant that every round seed starts from.
pub const SEED_BASE: u64 = 1234;

/// The seed that the peers of a session agree on.
#[derive(Clone, Copy, Debug, Default, PartialEq, Eq, Structural)]
pub struct RandomSeed(pub u64);

/// The exclusive-or of both halves of every identifier in `ids`.
pub open spec fn folded(ids: Seq<(u64, u64)>) -> u64
    decreases ids.len(),
{
    if ids.len() == 0 {
        0
    } else {
        folded(ids.drop_last()) ^ (ids.last().0 ^ ids.last().1)
    }
}

/// `a + b` reduced to 64 bits.
pub open spec fn wrapped_sum(a: u64, b: u64) -> u64 {
    ((a + b) % 0x1_0000_0000_0000_0000) as u64
}

/// The seed of a round: the base constant plus what the round depends on,
/// reduced to 64 bits, exclusive-or the session's seed.
pub open spec fn round_seed_of(session_input: u64, session: RandomSeed) -> u64 {
    wrapped_sum(SEED_BASE, session_input) ^ session.0
}

/// The sum of the two players' scores, reduced to 64 bits.
pub open spec fn score_sum(scores: Seq<u64>) -> u64 {
    wrapped_sum(scores[0], scores[1])
}

/// The whole world units in a sum of coordinates given in thousandths;
/// a negative sum counts as zero.
pub open spec fn whole_units(total: int) -> u64 {
    if total < 0 { 0 } else { (total / 1000) as u64 }
}

/// Derives the session's seed from the identifiers of all its peers, each
/// given as its two 64-bit halves.
pub fn session_seed(ids: &Vec<(u64, u64)>) -> (seed: RandomSeed)
    ensures
        seed.0 == folded(ids@),
{
    let mut acc: u64 = 0;
    let mut i: usize = 0;
    while i < ids.len()
        invariant
            i <= ids.len(),
            acc == folded(ids@.take(i as int)),
        decreases ids.len() - i,
    {
        let id = ids[i];
        proof {
            assert(ids@.take(i + 1).drop_last() =~= ids@.take(i as int));
        }
        acc = acc ^ (id.0 ^ id.1);
        i = i + 1;
    }
    proof {
        assert(ids@.take(i as int) =~= ids@);
    }
    RandomSeed(acc)
}

/// The seed of a round from what it depends on and the session's seed.
pub fn round_seed(session_input: u64, session: RandomSeed) -> (seed: u64)
    ensures
        seed == round_seed_of(session_input, session),
{
    SEED_BASE.wrapping_add(session_input) ^ session.0
}

/// The seed of a round's terrain: it depends on the two scores.
pub fn world_seed(scores: &PlayerScores, session: RandomSeed) -> (seed: u64)
    requires
        scores.wf(),
    ensures
        seed == round_seed_of(score_sum(scores@), session),
{
    round_seed(scores.get(0).wrapping_add(scores.get(1)), session)
}

/// The seed of a round's spawns: it depends on the two scores and on
/// `total_x`, the sum of the horizontal coordinates of the players that were
/// alive when the round ended, in thousandths.
pub fn spawn_seed(scores: &PlayerScores, total_x: i64, session: RandomSeed) -> (seed: u64)
    requires
        scores.wf(),
    ensures
        seed == round_seed_of(
            wrapped_sum(whole_units(total_x as int), score_sum(scores@)),
            session,
        ),
{
    let units: u64 = if total_x < 0 { 0 } else { (total_x / 1000) as u64 };
    let sum: u64 = scores.get(0).wrapping_add(scores.get(1));
    round_seed(units.wrapping_add(sum), session)
}

/// The exclusive-or over two lists of identifiers is the exclusive-or of
/// the two lists' own.
pub proof fn folded_concat(a: Seq<(u64, u64)>, b: Seq<(u64, u64)>)
    ensures
        folded(a + b) == folded(a) ^ folded(b),
    decreases b.len(),
{
    if b.len() == 0 {
        assert(a + b =~= a);
        let x = folded(a);
        assert(x ^ 0 == x) by (bit_vector);
    } else {
        assert((a + b).drop_last() =~= a + b.drop_last());
        folded_concat(a, b.drop_last());
        let x = folded(a);
        let y = folded(b.drop_last());
        let z = b.last().0 ^ b.last().1;
        assert((x ^ y) ^ z == x ^ (y ^ z)) by (bit_vector);
    }
}

/// Taking one identifier out of a list takes its two halves out of the
/// exclusive-or.
pub proof fn folded_remove(ids: Seq<(u64, u64)>, i: int)
    requires
        0 <= i < ids.len(),
    ensures
        folded(ids) == folded(ids.remove(i)) ^ (ids[i].0 ^ ids[i].1),
{
    let head = ids.take(i);
    let one = seq![ids[i]];
    let tail = ids.skip(i + 1);
    assert(ids =~= (head + one) + tail);
    assert(ids.remove(i) =~= head + tail);
    folded_concat(head + one, tail);
    folded_concat(head, one);
    folded_concat(head, tail);
    assert(one.drop_last() =~= Seq::<(u64, u64)>::empty());
    assert(folded(Seq::<(u64, u64)>::empty()) == 0);
    assert(one.last() == ids[i]);
    assert(folded(one) == 0 ^ (ids[i].0 ^ ids[i].1));
    let h = folded(head);
    let t = folded(tail);
    let m = ids[i].0 ^ ids[i].1;
    assert((h ^ (0 ^ m)) ^ t == (h ^ t) ^ m) by (bit_vector);
}

/// The session's seed does not depend on the order in which a peer lists
/// the identifiers: two lists that hold the same identifiers, each as
/// often as the other, give one seed.
pub proof fn session_seed_order_independent(a: Seq<(u64, u64)>, b: Seq<(u64, u64)>)
    requires
        a.to_multiset() == b.to_multiset(),
    ensures
        folded(a) == folded(b),
    decreases a.len(),
{
    vstd::seq_lib::to_multiset_len(a);
    vstd::seq_lib::to_multiset_len(b);
    if a.len() > 0 {
        let last = a.len() - 1;
        let x = a[last];
        vstd::seq_lib::to_multiset_contains(a, x);
        vstd::seq_lib::to_multiset_contains(b, x);
        assert(a.contains(x));
        let i = choose|i: int| 0 <= i < b.len() && b[i] == x;
        vstd::seq_lib::to_multiset_remove(a, last);
        vstd::seq_lib::to_multiset_remove(b, i);
        assert(a.remove(last) =~= a.drop_last());
        session_seed_order_independent(a.drop_last(), b.remove(i));
        folded_remove(b, i);
    }
}

} // verus!
