//! Drawing key material from a demon that is fed a fixed loop of samples,
//! over and over.

use crate::demon::{reports, Demon, Error};
use crate::word::in_memory_order;
use vstd::prelude::*;

verus! {

/// Whether `input` holds two samples that differ. A demon fed a loop of one
/// value sees nothing but a plateau after the first sample.
pub open spec fn varied(input: Seq<u32>) -> bool {
    exists|i: int, j: int| 0 <= i < input.len() && 0 <= j < input.len() && input[i] != input[j]
}

/// The place in the loop after `at`.
pub open spec fn following(input: Seq<u32>, at: int) -> int {
    if at + 1 < input.len() {
        at + 1
    } else {
        0
    }
}

/// A place in `input` that holds something other than `value`.
pub open spec fn place_unlike(input: Seq<u32>, value: u32) -> int {
    choose|i: int| 0 <= i < input.len() && input[i] != value
}

/// How many samples the loop yields from `at` on before it comes to
/// `place_unlike(input, value)`.
pub open spec fn wait(input: Seq<u32>, at: int, value: u32) -> nat {
    let there = place_unlike(input, value);
    if at <= there {
        (there - at) as nat
    } else {
        (there + input.len() - at) as nat
    }
}

/// Where a block ends: the demon and the place in the loop after the last
/// sample of the block, and the key of the block or the reason it failed.
pub struct BlockEnd {
    pub demon: Demon,
    pub at: int,
    pub outcome: Result<u32, Error>,
}

/// A demon with its two budgets set for a block of `ttl_ops` mixing events:
/// a thousand samples for each.
pub open spec fn primed(demon: Demon, ttl_ops: u32) -> Demon {
    Demon { ops_remaining: ttl_ops, samples_remaining: (ttl_ops * 1000) as u32, ..demon }
}

/// The end of the block that `demon` is at work on, when it is fed the loop
/// `input` from place `at`: the first sample on which it does not ask for
/// more.
pub open spec fn block_end(demon: Demon, input: Seq<u32>, at: int) -> BlockEnd
    decreases demon.samples_remaining, wait(input, at, demon.last_sample),
    when 0 <= at < input.len() && (varied(input) || demon.verdict(input[at]) != Err::<u32, Error>(
        Error::NeedMoreSamples,
    ))
    via block_end_decreases
{
    let outcome = demon.verdict(input[at]);
    if outcome == Err::<u32, Error>(Error::NeedMoreSamples) {
        block_end(demon.after(input[at]), input, following(input, at))
    } else {
        BlockEnd { demon: demon.after(input[at]), at: following(input, at), outcome }
    }
}

#[via_fn]
proof fn block_end_decreases(demon: Demon, input: Seq<u32>, at: int) {
    if demon.verdict(input[at]) == Err::<u32, Error>(Error::NeedMoreSamples) {
        lemma_nearer_the_end(demon, input, at);
    }
}

/// A sample on which the demon asks for more brings the end of the block
/// nearer: it uses up budget, or, the budget spent, it is a repeat and the
/// next unlike sample is one place closer.
proof fn lemma_nearer_the_end(demon: Demon, input: Seq<u32>, at: int)
    requires
        varied(input),
        0 <= at < input.len(),
        demon.verdict(input[at]) == Err::<u32, Error>(Error::NeedMoreSamples),
    ensures
        demon.after(input[at]).samples_remaining < demon.samples_remaining || (demon.after(
            input[at],
        ).samples_remaining == demon.samples_remaining && wait(
            input,
            following(input, at),
            demon.after(input[at]).last_sample,
        ) < wait(input, at, demon.last_sample)),
{
    if demon.samples_remaining == 0 {
        let (i, j) = choose|i: int, j: int|
            0 <= i < input.len() && 0 <= j < input.len() && input[i] != input[j];
        assert(input[i] != demon.last_sample || input[j] != demon.last_sample);
        let there = place_unlike(input, demon.last_sample);
        assert(0 <= there < input.len() && input[there] != demon.last_sample);
    }
}

/// The keys of `blocks` blocks in a row, drawn from `demon` as it is fed the
/// loop `input` from place `at`, with the budgets set anew for each block; or
/// the reason the first block to fail did.
pub open spec fn harvest(demon: Demon, input: Seq<u32>, at: int, blocks: nat, ttl_ops: u32) -> Result<
    Seq<u32>,
    Error,
>
    decreases blocks,
{
    if blocks == 0 {
        Ok(Seq::empty())
    } else {
        let end = block_end(primed(demon, ttl_ops), input, at);
        match end.outcome {
            Ok(key) => after_keys(
                seq![key],
                harvest(end.demon, input, end.at, (blocks - 1) as nat, ttl_ops),
            ),
            Err(reason) => Err(reason),
        }
    }
}

/// The keys of the blocks that are complete when that harvest ends: all
/// that were asked for, or those before the block that failed.
pub open spec fn gathered(demon: Demon, input: Seq<u32>, at: int, blocks: nat, ttl_ops: u32) -> Seq<
    u32,
>
    decreases blocks,
{
    if blocks == 0 {
        Seq::empty()
    } else {
        let end = block_end(primed(demon, ttl_ops), input, at);
        match end.outcome {
            Ok(key) => seq![key] + gathered(
                end.demon,
                input,
                end.at,
                (blocks - 1) as nat,
                ttl_ops,
            ),
            Err(_) => Seq::empty(),
        }
    }
}

/// The reason `harvested` failed, if it did.
pub open spec fn failure_of(harvested: Result<Seq<u32>, Error>) -> Option<Error> {
    match harvested {
        Ok(_) => None,
        Err(reason) => Some(reason),
    }
}

/// The harvest `later` seen from before `keys` were drawn.
pub open spec fn after_keys(keys: Seq<u32>, later: Result<Seq<u32>, Error>) -> Result<
    Seq<u32>,
    Error,
> {
    match later {
        Ok(rest) => Ok(keys + rest),
        Err(reason) => Err(reason),
    }
}

/// Whether `bytes` is `keys` written out one after the other, four bytes
/// each, every key as the machine holds it in memory.
pub open spec fn spells(bytes: Seq<u8>, keys: Seq<u32>) -> bool {
    &&& bytes.len() == 4 * keys.len()
    &&& forall|i: int|
        0 <= i < keys.len() ==> in_memory_order(bytes.subrange(4 * i, 4 * i + 4), #[trigger] keys[i])
}

/// Whether `r` is how `generate_from_loop` hands over `harvested`: the keys
/// as bytes, a reason as it is.
pub open spec fn delivers(r: Result<Vec<u8>, Error>, harvested: Result<Seq<u32>, Error>) -> bool {
    match harvested {
        Ok(keys) => r matches Ok(out) && spells(out@, keys),
        Err(reason) => r matches Err(e) && e == reason,
    }
}

/// Whether `input` holds two samples that differ.
pub fn is_varied(input: &[u32]) -> (b: bool)
    ensures
        b == varied(input@),
{
    if input.len() == 0 {
        return false;
    }
    let first = input[0];
    let mut i: usize = 1;
    while i < input.len()
        invariant
            1 <= i <= input@.len(),
            first == input@[0],
            forall|k: int| 0 <= k < i ==> input@[k] == first,
        decreases input@.len() - i,
    {
        if input[i] != first {
            assert(input@[i as int] != input@[0]);
            return true;
        }
        i += 1;
    }
    false
}

/// Feeds `demon` the loop `input` from place `from` until the block it is at
/// work on ends. Gives the place to go on from, and the block or `Timeout`.
///
/// The block ends on every loop that holds two different samples. On a loop
/// of one value it ends with the first sample or never.
pub fn finish_block(demon: &mut Demon, input: &[u32], from: usize) -> (r: (
    usize,
    Result<[u8; 4], Error>,
))
    requires
        from < input@.len(),
        varied(input@) || old(demon).verdict(input@[from as int]) != Err::<u32, Error>(
            Error::NeedMoreSamples,
        ),
    ensures
        *final(demon) == block_end(*old(demon), input@, from as int).demon,
        r.0 == block_end(*old(demon), input@, from as int).at,
        r.0 < input@.len(),
        reports(r.1, block_end(*old(demon), input@, from as int).outcome),
        r.1 != Err::<[u8; 4], Error>(Error::NeedMoreSamples),
{
    let mut at = from;
    loop
        invariant
            from < input@.len(),
            at < input@.len(),
            varied(input@) || demon.verdict(input@[at as int]) != Err::<u32, Error>(
                Error::NeedMoreSamples,
            ),
            block_end(*old(demon), input@, from as int) == block_end(*demon, input@, at as int),
        decreases demon.samples_remaining, wait(input@, at as int, demon.last_sample),
    {
        let sample = input[at];
        proof {
            if demon.verdict(sample) == Err::<u32, Error>(Error::NeedMoreSamples) {
                lemma_nearer_the_end(*demon, input@, at as int);
            }
        }
        at = if at + 1 < input.len() {
            at + 1
        } else {
            0
        };
        match demon.take_sample(sample) {
            Err(Error::NeedMoreSamples) => {},
            outcome => {
                return (at, outcome);
            },
        }
    }
}

/// Draws up to `bytes` bytes of key material, a multiple of four, from a new
/// demon that is fed the loop `input` over and over. Each block of four bytes
/// is given `ttl_ops` mixing events and a thousand samples for each of them.
/// The first block that runs out of samples ends the harvest: the blocks
/// complete by then are handed over together with `Timeout`.
///
/// The harvest ends on every loop that holds two different samples. A loop
/// of one value yields at most one block, and that with its first sample.
pub fn gather_from_loop(input: &[u32], bytes: usize, ttl_ops: u32) -> (r: (Vec<u8>, Option<Error>))
    requires
        bytes % 4 == 0,
        ttl_ops * 1000 <= u32::MAX,
        bytes > 0 ==> varied(input@) || (bytes == 4 && input@.len() > 0 && primed(
            Demon::fresh(),
            ttl_ops,
        ).verdict(input@[0]) != Err::<u32, Error>(Error::NeedMoreSamples)),
    ensures
        spells(r.0@, gathered(Demon::fresh(), input@, 0, (bytes / 4) as nat, ttl_ops)),
        r.1 == failure_of(harvest(Demon::fresh(), input@, 0, (bytes / 4) as nat, ttl_ops)),
        harvest(Demon::fresh(), input@, 0, (bytes / 4) as nat, ttl_ops) matches Ok(keys) ==> keys
            == gathered(Demon::fresh(), input@, 0, (bytes / 4) as nat, ttl_ops),
        r.1 is None ==> r.0@.len() == bytes,
        r.1 matches Some(reason) ==> reason == Error::Timeout,
{
    let blocks = bytes / 4;
    let mut demon = Demon::default();
    let mut out: Vec<u8> = Vec::new();
    let mut at: usize = 0;
    let mut done: usize = 0;
    let ghost mut keys: Seq<u32> = Seq::empty();
    while done < blocks
        invariant
            done <= blocks,
            bytes == 4 * blocks,
            ttl_ops * 1000 <= u32::MAX,
            done < blocks ==> at < input@.len() && (varied(input@) || (done == 0 && blocks == 1
                && at == 0 && demon == Demon::fresh() && primed(Demon::fresh(), ttl_ops).verdict(
                input@[0],
            ) != Err::<u32, Error>(Error::NeedMoreSamples))),
            keys.len() == done,
            spells(out@, keys),
            harvest(Demon::fresh(), input@, 0, blocks as nat, ttl_ops) == after_keys(
                keys,
                harvest(demon, input@, at as int, (blocks - done) as nat, ttl_ops),
            ),
            gathered(Demon::fresh(), input@, 0, blocks as nat, ttl_ops) == keys + gathered(
                demon,
                input@,
                at as int,
                (blocks - done) as nat,
                ttl_ops,
            ),
        decreases blocks - done,
    {
        demon.ops_remaining = ttl_ops;
        demon.samples_remaining = ttl_ops * 1000;
        let ghost end = block_end(demon, input@, at as int);
        let (next, outcome) = finish_block(&mut demon, input, at);
        match outcome {
            Ok(block) => {
                let ghost before = out@;
                out.extend_from_slice(block.as_slice());
                proof {
                    let key = end.outcome->Ok_0;
                    assert(out@ =~= before + block@);
                    assert forall|i: int| 0 <= i < keys.push(key).len() implies in_memory_order(
                        out@.subrange(4 * i, 4 * i + 4),
                        #[trigger] keys.push(key)[i],
                    ) by {
                        if i < keys.len() {
                            assert(out@.subrange(4 * i, 4 * i + 4) =~= before.subrange(
                                4 * i,
                                4 * i + 4,
                            ));
                            assert(keys.push(key)[i] == keys[i]);
                        } else {
                            assert(out@.subrange(4 * i, 4 * i + 4) =~= block@);
                        }
                    }
                    let later = harvest(
                        demon,
                        input@,
                        next as int,
                        (blocks - done - 1) as nat,
                        ttl_ops,
                    );
                    assert(after_keys(keys, after_keys(seq![key], later)) == after_keys(
                        keys.push(key),
                        later,
                    )) by {
                        if let Ok(rest) = later {
                            assert(keys + (seq![key] + rest) =~= keys.push(key) + rest);
                        }
                    }
                    let rest = gathered(
                        demon,
                        input@,
                        next as int,
                        (blocks - done - 1) as nat,
                        ttl_ops,
                    );
                    assert(keys + (seq![key] + rest) =~= keys.push(key) + rest);
                    keys = keys.push(key);
                }
            },
            Err(reason) => {
                assert(keys + Seq::<u32>::empty() =~= keys);
                return (out, Some(reason));
            },
        }
        at = next;
        done += 1;
    }
    assert(keys + Seq::<u32>::empty() =~= keys);
    (out, None)
}

/// Draws `bytes` bytes of key material, a multiple of four, from a new demon
/// that is fed the loop `input` over and over. Each block of four bytes is
/// given `ttl_ops` mixing events and a thousand samples for each of them;
/// the first block that runs out of samples ends the whole with `Timeout`.
///
/// The harvest ends on every loop that holds two different samples. A loop
/// of one value yields at most one block, and that with its first sample.
pub fn generate_from_loop(input: &[u32], bytes: usize, ttl_ops: u32) -> (r: Result<Vec<u8>, Error>)
    requires
        bytes % 4 == 0,
        ttl_ops * 1000 <= u32::MAX,
        bytes > 0 ==> varied(input@) || (bytes == 4 && input@.len() > 0 && primed(
            Demon::fresh(),
            ttl_ops,
        ).verdict(input@[0]) != Err::<u32, Error>(Error::NeedMoreSamples)),
    ensures
        delivers(r, harvest(Demon::fresh(), input@, 0, (bytes / 4) as nat, ttl_ops)),
        r matches Ok(out) ==> out@.len() == bytes,
        r matches Err(reason) ==> reason == Error::Timeout,
{
    let (out, failure) = gather_from_loop(input, bytes, ttl_ops);
    match failure {
        None => Ok(out),
        Some(reason) => Err(reason),
    }
}

} // verus!
