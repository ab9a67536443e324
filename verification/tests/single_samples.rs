use maxwell::demon::{KEY_SEED, MIX_SEED, OPS_PER_BLOCK, SAMPLES_PER_BLOCK};
use maxwell::{Demon, Error};

fn demon(
    last_sample: u32,
    last_mixing_sample: u32,
    run: u32,
    key: u32,
    mix: u32,
    ops_remaining: u32,
    samples_remaining: u32,
) -> Demon {
    Demon { last_sample, last_mixing_sample, run, key, mix, ops_remaining, samples_remaining }
}

#[test]
fn a_new_demon_has_the_documented_state() {
    assert_eq!(Demon::default(), demon(0, 0, 0, 0xACAC_ACAC, 0xF0F0_F0F0, 100, 100_000));
    assert_eq!(KEY_SEED, 0xACAC_ACAC);
    assert_eq!(MIX_SEED, 0xF0F0_F0F0);
    assert_eq!(OPS_PER_BLOCK, 100);
    assert_eq!(SAMPLES_PER_BLOCK, 100_000);
}

#[test]
fn a_repeated_sample_only_lengthens_the_run() {
    let mut d = demon(30, 7, 5, 0x1234_5678, 0x9ABC_DEF0, 7, 50);
    assert_eq!(d.take_sample(30), Err(Error::NeedMoreSamples));
    assert_eq!(d, demon(30, 7, 6, 0x1234_5678, 0x9ABC_DEF0, 7, 49));
}

#[test]
fn a_repeated_sample_asks_for_more_even_with_nothing_owed() {
    let mut d = Demon::default();
    d.ops_remaining = 0;
    assert_eq!(d.take_sample(0), Err(Error::NeedMoreSamples));
    assert_eq!(d, demon(0, 0, 1, 0xACAC_ACAC, 0xF0F0_F0F0, 0, 99_999));
}

#[test]
fn a_repeated_sample_asks_for_more_even_with_the_budget_spent() {
    let mut d = Demon::default();
    d.samples_remaining = 1;
    assert_eq!(d.take_sample(0), Err(Error::NeedMoreSamples));
    assert_eq!(d.samples_remaining, 0);
    assert_eq!(d.take_sample(0), Err(Error::NeedMoreSamples));
    assert_eq!(d, demon(0, 0, 2, 0xACAC_ACAC, 0xF0F0_F0F0, 100, 0));
}

#[test]
fn the_run_stops_at_the_largest_word() {
    let mut d = Demon::default();
    d.run = u32::MAX;
    assert_eq!(d.take_sample(0), Err(Error::NeedMoreSamples));
    assert_eq!(d.run, u32::MAX);
    assert_eq!(d.samples_remaining, 99_999);
}

#[test]
fn a_mixing_event_stirs_the_key_and_takes_the_new_mix() {
    let mut d = Demon::default();
    assert_eq!(d.take_sample(1), Err(Error::NeedMoreSamples));
    assert_eq!(d, demon(1, 1, 0, 0xBABA_BABA, 0x7878_7879, 99, 99_999));
}

#[test]
fn a_mixing_event_from_an_arbitrary_state() {
    let mut d = demon(9, 7, 5, 0x1234_5678, 0x9ABC_DEF0, 7, 50);
    assert_eq!(d.take_sample(0x1E), Err(Error::NeedMoreSamples));
    assert_eq!(d, demon(0x1E, 0x1E, 0, 0x12AB_C3B4, 0x426A_F37E, 6, 49));
}

#[test]
fn the_run_that_ends_is_folded_into_the_mix() {
    let mut d = Demon::default();
    for _ in 0..3 {
        assert_eq!(d.take_sample(0), Err(Error::NeedMoreSamples));
    }
    assert_eq!(d.run, 3);
    assert_eq!(d.take_sample(2), Err(Error::NeedMoreSamples));
    assert_eq!(d, demon(2, 2, 0, 0xA8A8_B9A8, 0xC787_8785, 99, 99_996));
}

#[test]
fn only_the_run_modulo_32_is_folded() {
    let mut d = Demon::default();
    d.run = 37;
    assert_eq!(d.take_sample(3), Err(Error::NeedMoreSamples));
    assert_eq!(d, demon(3, 3, 0, 0x0D0B_1D0D, 0x10F0_F0F2, 99, 99_999));

    let mut e = Demon::default();
    e.run = 5;
    assert_eq!(e.take_sample(3), Err(Error::NeedMoreSamples));
    assert_eq!(e, d);
}

#[test]
fn folding_the_run_does_not_carry_past_the_top() {
    let mut d = Demon::default();
    d.mix = 0xFFFF_FFFF;
    d.run = 31;
    assert_eq!(d.take_sample(1), Err(Error::NeedMoreSamples));
    assert_eq!(d, demon(1, 1, 0, 0x6A6A_6AAA, 0xFFFF_FFFE, 99, 99_999));

    let mut e = Demon::default();
    e.mix = 0xFFFF_FFF0;
    e.run = 4;
    assert_eq!(e.take_sample(4), Err(Error::NeedMoreSamples));
    assert_eq!(e, demon(4, 0, 0, 0x5959_5959, 0xFFFF_FFFF, 100, 99_999));
}

#[test]
fn the_longest_run_folds_like_any_other() {
    let mut d = Demon::default();
    d.run = u32::MAX;
    assert_eq!(d.take_sample(1), Err(Error::NeedMoreSamples));
    assert_eq!(d, demon(1, 1, 0, 0x6A6A_6AAA, 0xFFFF_FFFE, 99, 99_999));
}

#[test]
fn changed_bits_with_a_vanishing_mix_turn_the_key_left() {
    let mut d = Demon::default();
    d.mix = 2;
    assert_eq!(d.take_sample(1), Err(Error::NeedMoreSamples));
    assert_eq!(d, demon(1, 0, 0, 0x5656_5656, 2, 100, 99_999));
}

#[test]
fn unchanged_bits_turn_the_key_right() {
    let mut d = Demon::default();
    assert_eq!(d.take_sample(4), Err(Error::NeedMoreSamples));
    assert_eq!(d, demon(4, 0, 0, 0x5959_5959, 0xF0F0_F0F0, 100, 99_999));
}

#[test]
fn unchanged_bits_with_a_vanishing_mix_invert_the_key() {
    let mut d = Demon::default();
    d.mix = 0;
    assert_eq!(d.take_sample(8), Err(Error::NeedMoreSamples));
    assert_eq!(d, demon(8, 0, 0, 0x5353_5353, 0, 100, 99_999));
}

#[test]
fn the_last_mixing_event_completes_the_block() {
    let mut d = Demon::default();
    d.ops_remaining = 1;
    assert_eq!(d.take_sample(1), Ok(0xBABA_BABAu32.to_ne_bytes()));
    assert_eq!(d, demon(1, 1, 0, 0xBABA_BABA, 0x7878_7879, 100, 100_000));
}

#[test]
fn a_block_is_the_key_as_the_machine_holds_it() {
    let mut d = demon(9, 7, 5, 0x1234_5678, 0x9ABC_DEF0, 1, 50);
    let block = d.take_sample(0x1E).unwrap();
    assert_eq!(d.key, 0x12AB_C3B4);
    assert_eq!(block, d.key.to_ne_bytes());
    assert_eq!(u32::from_ne_bytes(block), 0x12AB_C3B4);
    assert!(block == [0xB4, 0xC3, 0xAB, 0x12] || block == [0x12, 0xAB, 0xC3, 0xB4]);
    assert_ne!(block, [0u8; 4]);
}

#[test]
fn with_nothing_owed_any_new_sample_completes_the_block() {
    let mut d = Demon::default();
    d.ops_remaining = 0;
    assert_eq!(d.take_sample(4), Ok(0x5959_5959u32.to_ne_bytes()));
    assert_eq!(d, demon(4, 0, 0, 0x5959_5959, 0xF0F0_F0F0, 100, 100_000));
}

#[test]
fn a_finished_block_wins_over_a_spent_budget() {
    let mut d = Demon::default();
    d.ops_remaining = 1;
    d.samples_remaining = 1;
    assert_eq!(d.take_sample(1), Ok(0xBABA_BABAu32.to_ne_bytes()));
    assert_eq!(d.ops_remaining, 100);
    assert_eq!(d.samples_remaining, 100_000);
}

#[test]
fn a_spent_budget_with_events_owed_is_a_timeout() {
    let mut d = Demon::default();
    d.ops_remaining = 2;
    d.samples_remaining = 1;
    assert_eq!(d.take_sample(1), Err(Error::Timeout));
    assert_eq!(d, demon(1, 1, 0, 0xBABA_BABA, 0x7878_7879, 1, 0));
}

#[test]
fn a_timeout_without_a_mixing_event_leaves_the_count_of_events() {
    let mut d = Demon::default();
    d.samples_remaining = 0;
    assert_eq!(d.take_sample(4), Err(Error::Timeout));
    assert_eq!(d, demon(4, 0, 0, 0x5959_5959, 0xF0F0_F0F0, 100, 0));
}

#[test]
fn after_a_timeout_every_new_sample_times_out_again() {
    let mut d = Demon::default();
    d.samples_remaining = 1;
    assert_eq!(d.take_sample(4), Err(Error::Timeout));
    for i in 0..50u32 {
        let sample = if i % 2 == 0 { 1 } else { 2 };
        assert_eq!(d.take_sample(sample), Err(Error::Timeout));
        assert_eq!(d.samples_remaining, 0);
        assert_eq!(d.ops_remaining, 99 - i);
    }
    assert_eq!(d.take_sample(2), Err(Error::NeedMoreSamples));
    assert_eq!(d.samples_remaining, 0);
}

#[test]
fn after_a_timeout_the_last_event_owed_still_completes_the_block() {
    let mut d = Demon::default();
    d.ops_remaining = 2;
    d.samples_remaining = 1;
    assert_eq!(d.take_sample(1), Err(Error::Timeout));
    assert_eq!(d.take_sample(2), Ok(0x6C6F_A46Cu32.to_ne_bytes()));
    assert_eq!(d, demon(2, 2, 0, 0x6C6F_A46C, 0x2F0F_0F0D, 100, 100_000));
    assert_eq!(d.take_sample(2), Err(Error::NeedMoreSamples));
    assert_eq!(d.take_sample(1), Err(Error::NeedMoreSamples));
    assert_eq!(d, demon(1, 1, 0, 0xE25B_591C, 0xF2F0_F0F1, 99, 99_998));
}

#[test]
fn every_call_without_a_block_costs_one_sample() {
    let samples = [0u32, 0, 1, 5, 4, 4, 2, 3, 3, 7, 8, 0];
    let mut d = Demon::default();
    let mut budget = 100_000u32;
    for sample in samples {
        assert!(d.take_sample(sample).is_err());
        budget -= 1;
        assert_eq!(d.samples_remaining, budget);
    }
}

#[test]
fn only_mixing_events_are_counted() {
    let mut d = Demon::default();
    // changed low bits: counted
    assert_eq!(d.take_sample(1), Err(Error::NeedMoreSamples));
    assert_eq!(d.ops_remaining, 99);
    // a repeat: not counted
    assert_eq!(d.take_sample(1), Err(Error::NeedMoreSamples));
    assert_eq!(d.ops_remaining, 99);
    // new value, same low bits: not counted
    assert_eq!(d.take_sample(5), Err(Error::NeedMoreSamples));
    assert_eq!(d.ops_remaining, 99);
    // changed low bits again: counted
    assert_eq!(d.take_sample(6), Err(Error::NeedMoreSamples));
    assert_eq!(d.ops_remaining, 98);
    // changed low bits, but the mix it proposes is zero: not counted
    d.mix = 6;
    assert_eq!(d.take_sample(3), Err(Error::NeedMoreSamples));
    assert_eq!(d.ops_remaining, 98);
    assert_eq!(d.last_mixing_sample, 6);
}
