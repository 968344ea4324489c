use xorshift_random::{Random, RandomT};

#[test]
fn first_draws_from_seed_zero() {
    let mut r = Random::seed(0);
    assert_eq!(r.get::<u64>(), 129);
    assert_eq!(r.get::<u64>(), 16802);
    assert_eq!(r.get::<u64>(), 2130027);
    assert_eq!(r.get::<u64>(), 275285559);
}

#[test]
fn largest_state_wraps_to_zero() {
    let mut r = Random::seed(u64::MAX);
    assert_eq!(r.get::<u64>(), 0);
    assert_eq!(r.get::<u64>(), 129);
}

#[test]
fn same_seed_same_sequence() {
    let mut a = Random::seed(0x0123_4567_89ab_cdef);
    let mut b = Random::seed(0x0123_4567_89ab_cdef);
    for _ in 0..100 {
        assert_eq!(a.get::<u32>(), b.get::<u32>());
        assert_eq!(a.get::<bool>(), b.get::<bool>());
        assert_eq!(a.get::<(i8, char)>(), b.get::<(i8, char)>());
        assert_eq!(a.get::<i128>(), b.get::<i128>());
        assert_eq!(a.get::<[u16; 4]>(), b.get::<[u16; 4]>());
        assert_eq!(a.unit_f64_bits(), b.unit_f64_bits());
    }
}

#[test]
fn consecutive_draws_differ() {
    let mut r = Random::seed(7);
    let mut last = r.get::<u64>();
    for _ in 0..10_000 {
        let w = r.get::<u64>();
        assert_ne!(w, last);
        last = w;
    }
}

#[test]
fn unit_floats_stay_below_one() {
    let mut r = Random::seed(0x5eed);
    for _ in 0..10_000 {
        let x = f32::from_bits(r.unit_f32_bits()) - 1.0;
        assert!((0.0..1.0).contains(&x));
        let y = f64::from_bits(r.unit_f64_bits()) - 1.0;
        assert!((0.0..1.0).contains(&y));
    }
}

#[test]
fn unit_float_bits_keep_low_mantissa() {
    let mut r = Random::seed(0x0123_4567_89ab_cdef);
    assert_eq!(r.unit_f32_bits(), 0x3fe3_136a);
    let mut r = Random::seed(0x0123_4567_89ab_cdef);
    assert_eq!(r.unit_f64_bits(), 0x3ff9_b658_0de3_136a);
    let mut r = Random::seed(0);
    assert_eq!(f32::from_bits(r.unit_f32_bits()) - 1.0, 129.0 / 8_388_608.0);
}

#[test]
fn u128_is_two_u64_draws() {
    let mut a = Random::seed(0x0123_4567_89ab_cdef);
    let mut b = Random::seed(0x0123_4567_89ab_cdef);
    let wide = a.get::<u128>();
    let hi = b.get::<u64>();
    let lo = b.get::<u64>();
    assert_eq!(wide, ((hi as u128) << 64) | (lo as u128));
    assert_eq!(wide, 192456181436517374897421254182883857336);
    assert_eq!(a.get::<u64>(), b.get::<u64>());
}

#[test]
fn i128_is_two_u64_draws() {
    let mut r = Random::seed(0x0123_4567_89ab_cdef);
    assert_eq!(r.get::<i128>(), -147826185484421088565953353248884354120);
}

#[test]
fn narrowing_draws() {
    let seed = 0x0123_4567_89ab_cdef;
    let mut r = Random::seed(seed);
    assert_eq!(r.get::<u8>(), 106);
    assert_eq!(r.get::<i8>(), -72);
    assert_eq!(r.get::<i16>(), -7778);
    assert_eq!(r.get::<u32>(), 3993988744);
    assert_eq!(r.get::<u16>(), 63004);
    assert_eq!(r.get::<i32>(), -5069983);
    let mut r = Random::seed(seed);
    assert_eq!(r.get::<i64>(), -8013673572622724246);
    assert_eq!(r.get::<usize>(), 17611488056187327416u64 as usize);
    assert_eq!(r.get::<isize>(), -4593378638112366178i64 as isize);
}

#[test]
fn bool_is_lowest_bit() {
    let mut r = Random::seed(0x0123_4567_89ab_cdef);
    let got: Vec<bool> = (0..6).map(|_| r.get::<bool>()).collect();
    assert_eq!(got, vec![false, false, false, false, false, true]);
    let mut r = Random::seed(0);
    assert!(r.get::<bool>());
}

#[test]
fn array_draws_in_index_order() {
    let mut a = Random::seed(42);
    let mut b = Random::seed(42);
    let arr = a.get::<[u8; 3]>();
    let one = b.get::<u8>();
    let two = b.get::<u8>();
    let three = b.get::<u8>();
    assert_eq!(arr, [one, two, three]);
    assert_eq!(arr, [161, 192, 81]);
    assert_eq!(a.get::<u64>(), b.get::<u64>());
}

#[test]
fn empty_array_draws_nothing() {
    let mut a = Random::seed(42);
    let mut b = Random::seed(42);
    let empty: [u64; 0] = a.get();
    assert_eq!(empty.len(), 0);
    assert_eq!(a.get::<u64>(), b.get::<u64>());
}

#[test]
fn nested_arrays_draw_row_by_row() {
    let mut a = Random::seed(9);
    let mut b = Random::seed(9);
    let grid = a.get::<[[u32; 2]; 3]>();
    for row in grid.iter() {
        for cell in row.iter() {
            assert_eq!(*cell, b.get::<u32>());
        }
    }
}

#[test]
fn tuple_draws_left_to_right() {
    let mut a = Random::seed(42);
    let mut b = Random::seed(42);
    let (x, y, z) = a.get::<(u8, u8, u8)>();
    assert_eq!((x, y, z), (161, 192, 81));
    assert_eq!(x, b.get::<u8>());
    assert_eq!(y, b.get::<u8>());
    assert_eq!(z, b.get::<u8>());
}

#[test]
fn tuple_slots_take_their_own_draw_counts() {
    let mut a = Random::seed(3);
    let mut b = Random::seed(3);
    let t = a.get::<(u8, u128, [bool; 2], (i16,))>();
    assert_eq!(t.0, b.get::<u8>());
    assert_eq!(t.1, b.get::<u128>());
    assert_eq!(t.2, [b.get::<bool>(), b.get::<bool>()]);
    assert_eq!(t.3, (b.get::<i16>(),));
    assert_eq!(a.get::<u64>(), b.get::<u64>());
}

#[test]
fn twelve_slot_tuple() {
    let mut a = Random::seed(11);
    let mut b = Random::seed(11);
    let t = a.get::<(u8, u16, u32, u64, i8, i16, i32, i64, bool, char, u128, usize)>();
    assert_eq!(t.0, b.get::<u8>());
    assert_eq!(t.1, b.get::<u16>());
    assert_eq!(t.2, b.get::<u32>());
    assert_eq!(t.3, b.get::<u64>());
    assert_eq!(t.4, b.get::<i8>());
    assert_eq!(t.5, b.get::<i16>());
    assert_eq!(t.6, b.get::<i32>());
    assert_eq!(t.7, b.get::<i64>());
    assert_eq!(t.8, b.get::<bool>());
    assert_eq!(t.9, b.get::<char>());
    assert_eq!(t.10, b.get::<u128>());
    assert_eq!(t.11, b.get::<usize>());
}

#[test]
fn zero_seed_never_stalls() {
    let mut r = Random::seed(0);
    let mut last = r.get::<u64>();
    for _ in 0..100_000 {
        let w = r.get::<u64>();
        assert!(!(last == 0 && w == 0));
        last = w;
    }
}

#[test]
fn char_is_low_byte() {
    let mut r = Random::seed(0x0123_4567_89ab_cdef);
    assert_eq!(r.get::<char>(), 'j');
    assert_eq!(r.get::<char>(), '\u{b8}');
    let mut r = Random::seed(0);
    assert_eq!(r.get::<char>(), '\u{81}');
}

#[test]
fn char_draws_cover_all_bytes_and_never_fall_back() {
    let mut r = Random::seed(1);
    let mut seen = [false; 256];
    for _ in 0..100_000 {
        let c = r.get::<char>();
        assert!((c as u32) < 256);
        seen[c as usize] = true;
    }
    assert!(seen.iter().all(|s| *s));
}

#[test]
fn trait_call_matches_get() {
    let mut a = Random::seed(5);
    let mut b = Random::seed(5);
    assert_eq!(<(u32, bool) as RandomT>::random(&mut a), b.get::<(u32, bool)>());
}

#[test]
fn clock_seed_or_fallback() {
    let mut a = Random::from_clock(None);
    let mut b = Random::seed(6123);
    assert_eq!(a.get::<u64>(), b.get::<u64>());
    let mut c = Random::from_clock(Some(1_700_000_000));
    let mut d = Random::seed(1_700_000_000);
    assert_eq!(c.get::<[u64; 4]>(), d.get::<[u64; 4]>());
}

#[test]
fn clock_seeded_engine_draws() {
    let mut r = Random::new();
    let x = f64::from_bits(r.unit_f64_bits()) - 1.0;
    assert!((0.0..1.0).contains(&x));
}
