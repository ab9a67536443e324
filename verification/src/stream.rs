//! A demon over a whole stream of samples: where it ends up and which keys it
//! hands out on the way.

use crate::demon::{Demon, Error, OPS_PER_BLOCK, SAMPLES_PER_BLOCK};
use vstd::prelude::*;

verus! {

impl Demon {
    /// The state after the samples of `stream`, taken in turn.
    pub open spec fn after_all(self, stream: Seq<u32>) -> Demon
        decreases stream.len(),
    {
        if stream.len() == 0 {
            self
        } else {
            self.after(stream[0]).after_all(stream.drop_first())
        }
    }

    /// How many of the samples of `stream`, taken in turn, are mixing events.
    pub open spec fn events_over(self, stream: Seq<u32>) -> nat
        decreases stream.len(),
    {
        if stream.len() == 0 {
            0
        } else {
            self.after(stream[0]).events_over(stream.drop_first()) + if self.mixes(stream[0]) {
                1nat
            } else {
                0nat
            }
        }
    }

    /// The keys of the blocks completed while the samples of `stream` are
    /// taken in turn, oldest first.
    pub open spec fn keys_over(self, stream: Seq<u32>) -> Seq<u32>
        decreases stream.len(),
    {
        if stream.len() == 0 {
            Seq::empty()
        } else {
            let rest = self.after(stream[0]).keys_over(stream.drop_first());
            match self.verdict(stream[0]) {
                Ok(key) => seq![key] + rest,
                Err(_) => rest,
            }
        }
    }
}

/// `x + n`, held at the largest word.
pub open spec fn raised(x: u32, n: nat) -> u32 {
    if x + n > u32::MAX {
        u32::MAX
    } else {
        (x + n) as u32
    }
}

/// `x - n`, held at zero.
pub open spec fn lowered(x: u32, n: nat) -> u32 {
    if x < n {
        0
    } else {
        (x - n) as u32
    }
}

/// Nothing but the state and the samples decides a run: two demons that
/// start in the same state and take the same stream end in the same state and
/// have handed out the same keys.
pub proof fn lemma_same_start_same_run(a: Demon, b: Demon, xs: Seq<u32>, ys: Seq<u32>)
    requires
        a == b,
        xs =~= ys,
    ensures
        a.after_all(xs) == b.after_all(ys),
        a.keys_over(xs) == b.keys_over(ys),
{
}

/// A demon that owes mixing events completes no block on a stream that
/// holds fewer of them: it counts each of them off, and each sample against
/// the sample budget.
pub proof fn lemma_no_block_before_the_last_event(demon: Demon, stream: Seq<u32>)
    requires
        demon.events_over(stream) < demon.ops_remaining,
    ensures
        demon.keys_over(stream) == Seq::<u32>::empty(),
        demon.after_all(stream).ops_remaining == demon.ops_remaining - demon.events_over(stream),
        demon.after_all(stream).samples_remaining == lowered(
            demon.samples_remaining,
            stream.len(),
        ),
    decreases stream.len(),
{
    if stream.len() > 0 {
        lemma_no_block_before_the_last_event(demon.after(stream[0]), stream.drop_first());
    }
}

/// The mixing event that makes the count owed full completes the block: if
/// `stream` holds all but one of the mixing events that `demon` owes, the
/// next sample that mixes yields a key, and both budgets start afresh.
pub proof fn lemma_block_on_the_last_event(demon: Demon, stream: Seq<u32>, sample: u32)
    requires
        demon.events_over(stream) + 1 == demon.ops_remaining,
        demon.after_all(stream).mixes(sample),
    ensures
        demon.keys_over(stream) == Seq::<u32>::empty(),
        demon.after_all(stream).verdict(sample) == Ok::<u32, Error>(
            demon.after_all(stream).next_key(sample),
        ),
        demon.after_all(stream).after(sample).ops_remaining == OPS_PER_BLOCK,
        demon.after_all(stream).after(sample).samples_remaining == SAMPLES_PER_BLOCK,
{
    lemma_no_block_before_the_last_event(demon, stream);
}

/// A timeout resets nothing, so it sticks: the sample budget stays spent and
/// the mixing events stay owed. From then on a new sample never just asks for
/// more: it times out again, unless it is the mixing event that completes the
/// block.
pub proof fn lemma_timeout_sticks(demon: Demon, sample: u32, next: u32)
    requires
        demon.verdict(sample) == Err::<u32, Error>(Error::Timeout),
    ensures
        demon.after(sample).samples_remaining == 0,
        demon.after(sample).ops_remaining == demon.ops_left(sample),
        demon.after(sample).ops_remaining != 0,
        next != sample ==> demon.after(sample).verdict(next) != Err::<u32, Error>(
            Error::NeedMoreSamples,
        ),
        next != sample && !demon.after(sample).mixes(next) ==> demon.after(sample).verdict(next)
            == Err::<u32, Error>(Error::Timeout),
        demon.after(sample).verdict(next) is Err ==> demon.after(sample).after(
            next,
        ).samples_remaining == 0,
{
}

/// A stream that only repeats the last sample is a plateau: it lengthens the
/// run and uses up the sample budget, one for one and each held at its bound,
/// and touches nothing else. No block is completed on it and no timeout
/// reported, however long it lasts.
pub proof fn lemma_plateau(demon: Demon, stream: Seq<u32>)
    requires
        forall|i: int| 0 <= i < stream.len() ==> stream[i] == demon.last_sample,
    ensures
        demon.after_all(stream) == (Demon {
            run: raised(demon.run, stream.len()),
            samples_remaining: lowered(demon.samples_remaining, stream.len()),
            ..demon
        }),
        demon.keys_over(stream) == Seq::<u32>::empty(),
        forall|i: int|
            0 <= i < stream.len() ==> demon.after_all(stream.take(i)).verdict(#[trigger] stream[i])
                == Err::<u32, Error>(Error::NeedMoreSamples),
    decreases stream.len(),
{
    if stream.len() > 0 {
        let next = demon.after(stream[0]);
        let rest = stream.drop_first();
        lemma_plateau(next, rest);
        assert forall|i: int| 0 <= i < stream.len() implies demon.after_all(
            stream.take(i),
        ).verdict(#[trigger] stream[i]) == Err::<u32, Error>(Error::NeedMoreSamples) by {
            if i > 0 {
                assert(stream.take(i).drop_first() =~= rest.take(i - 1));
                assert(stream[i] == rest[i - 1]);
            }
        }
    }
}

/// Samples whose low two bits are those of the last sample mixed in never
/// count towards a block: over a stream of them the demon keeps its count of
/// owed mixing events and its last mixed sample, and completes no block.
pub proof fn lemma_still_low_bits(demon: Demon, stream: Seq<u32>)
    requires
        demon.ops_remaining != 0,
        forall|i: int|
            0 <= i < stream.len() ==> #[trigger] stream[i] & 3 == demon.last_mixing_sample & 3,
    ensures
        demon.after_all(stream).ops_remaining == demon.ops_remaining,
        demon.after_all(stream).last_mixing_sample == demon.last_mixing_sample,
        demon.keys_over(stream) == Seq::<u32>::empty(),
    decreases stream.len(),
{
    if stream.len() > 0 {
        let low = demon.last_mixing_sample & 3;
        assert(stream[0] & 3 == low);
        assert(low ^ low == 0) by (bit_vector);
        assert(!demon.mixes(stream[0]));
        let rest = stream.drop_first();
        assert forall|i: int| 0 <= i < rest.len() implies #[trigger] rest[i] & 3
            == demon.after(stream[0]).last_mixing_sample & 3 by {
            assert(rest[i] == stream[i + 1]);
        }
        lemma_still_low_bits(demon.after(stream[0]), rest);
    }
}

} // verus!
