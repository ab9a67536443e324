use maxwell::word::{rotate_left, rotate_right};

#[test]
fn rotate_left_moves_the_top_bits_to_the_bottom() {
    assert_eq!(rotate_left(0x8000_0001, 1), 0x0000_0003);
    assert_eq!(rotate_left(0x1234_5678, 8), 0x3456_7812);
    assert_eq!(rotate_left(0xACAC_ACAC, 7), 0x5656_5656);
    assert_eq!(rotate_left(0x0000_0001, 31), 0x8000_0000);
}

#[test]
fn rotate_right_moves_the_bottom_bits_to_the_top() {
    assert_eq!(rotate_right(0x8000_0001, 1), 0xC000_0000);
    assert_eq!(rotate_right(0x1234_5678, 8), 0x7812_3456);
    assert_eq!(rotate_right(0xACAC_ACAC, 7), 0x5959_5959);
    assert_eq!(rotate_right(0x8000_0000, 31), 0x0000_0001);
}

#[test]
fn rotation_by_a_multiple_of_32_changes_nothing() {
    for n in [0u32, 32, 64, 0xFFFF_FFE0] {
        assert_eq!(rotate_left(0xDEAD_BEEF, n), 0xDEAD_BEEF);
        assert_eq!(rotate_right(0xDEAD_BEEF, n), 0xDEAD_BEEF);
    }
}

#[test]
fn only_the_amount_modulo_32_matters() {
    assert_eq!(rotate_left(0x1234_5678, 40), 0x3456_7812);
    assert_eq!(rotate_right(0x1234_5678, 40), 0x7812_3456);
    assert_eq!(rotate_left(0x1234_5678, u32::MAX), rotate_left(0x1234_5678, 31));
    assert_eq!(rotate_right(0x1234_5678, u32::MAX), rotate_right(0x1234_5678, 31));
}

#[test]
fn rotations_agree_with_the_standard_ones() {
    let words = [0u32, 1, 0x8000_0000, 0xFFFF_FFFF, 0x1234_5678, 0xF0F0_F0F0, 0xACAC_ACAC];
    for x in words {
        for n in 0..100u32 {
            assert_eq!(rotate_left(x, n), x.rotate_left(n));
            assert_eq!(rotate_right(x, n), x.rotate_right(n));
            assert_eq!(rotate_right(rotate_left(x, n), n), x);
        }
    }
}
