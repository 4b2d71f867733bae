use graphic::hsv::select_primes;
use graphic::{Color, Fraction};

fn frac(numer: u32, denom: u32) -> Fraction {
    Fraction::new(numer, denom)
}

#[test]
fn hsv_of_nine_tenths_four_tenths_five_tenths() {
    assert_eq!(
        Color::hsv(frac(9, 10), frac(4, 10), frac(5, 10)),
        Color::new(255, 128, 77, 107)
    );
}

#[test]
fn hsv_in_each_sector() {
    let s = frac(3, 4);
    let v = frac(4, 5);
    assert_eq!(Color::hsv(frac(1, 12), s, v), Color::new(255, 204, 128, 51));
    assert_eq!(Color::hsv(frac(3, 12), s, v), Color::new(255, 128, 204, 51));
    assert_eq!(Color::hsv(frac(5, 12), s, v), Color::new(255, 51, 204, 128));
    assert_eq!(Color::hsv(frac(7, 12), s, v), Color::new(255, 51, 128, 204));
    assert_eq!(Color::hsv(frac(9, 12), s, v), Color::new(255, 128, 51, 204));
    assert_eq!(Color::hsv(frac(11, 12), s, v), Color::new(255, 204, 51, 128));
}

#[test]
fn hsv_where_one_sector_ends_and_the_next_begins() {
    let s = frac(9, 10);
    let v = frac(9, 10);
    assert_eq!(Color::hsv(frac(0, 6), s, v), Color::new(255, 230, 23, 23));
    assert_eq!(Color::hsv(frac(1, 6), s, v), Color::new(255, 230, 230, 23));
    assert_eq!(Color::hsv(frac(2, 6), s, v), Color::new(255, 23, 230, 23));
    assert_eq!(Color::hsv(frac(3, 6), s, v), Color::new(255, 23, 230, 230));
    assert_eq!(Color::hsv(frac(4, 6), s, v), Color::new(255, 23, 23, 230));
    assert_eq!(Color::hsv(frac(5, 6), s, v), Color::new(255, 230, 23, 230));
}

#[test]
fn hsv_without_saturation_is_grey() {
    assert_eq!(Color::hsv(frac(0, 1), frac(0, 1), frac(0, 1)), Color::new(255, 0, 0, 0));
    assert_eq!(Color::hsv(frac(1, 3), frac(0, 1), frac(1, 2)), Color::new(255, 128, 128, 128));
    assert_eq!(Color::hsv(frac(0, 1), frac(0, 1), frac(254, 255)), Color::new(255, 254, 254, 254));
    assert_eq!(Color::hsv(frac(5, 7), frac(0, 5), frac(1, 510)), Color::new(255, 1, 1, 1));
    assert_eq!(Color::hsv(frac(5, 7), frac(0, 5), frac(1, 511)), Color::new(255, 0, 0, 0));
}

#[test]
fn hsv_with_unlike_denominators() {
    assert_eq!(Color::hsv(frac(1, 7), frac(2, 7), frac(3, 7)), Color::new(255, 109, 105, 78));
    assert_eq!(Color::hsv(frac(0, 1), frac(1, 2), frac(1, 2)), Color::new(255, 128, 64, 64));
    assert_eq!(Color::hsv(frac(18, 20), frac(2, 5), frac(1, 2)), Color::new(255, 128, 77, 107));
}

#[test]
fn hsv_with_the_largest_numbers() {
    let almost_one = frac(u32::MAX - 1, u32::MAX);
    assert_eq!(Color::hsv(almost_one, almost_one, almost_one), Color::new(255, 255, 0, 0));
}

#[test]
fn hsv_is_always_opaque() {
    for denom in [1u32, 2, 3, 7, 10, 24] {
        for h in 0..denom {
            for s in 0..denom {
                for v in 0..denom {
                    let color = Color::hsv(frac(h, denom), frac(s, denom), frac(v, denom));
                    assert_eq!(color.a, 255);
                }
            }
        }
    }
    let almost_one = frac(u32::MAX - 1, u32::MAX);
    assert_eq!(Color::hsv(almost_one, almost_one, almost_one).a, 255);
    assert_eq!(Color::hsv(frac(0, 1), frac(0, 1), frac(0, 1)).a, 255);
}

#[test]
fn hsv_of_one_number_written_two_ways_is_one_color() {
    for (h, s, v) in [(9u32, 4u32, 5u32), (0, 0, 0), (1, 9, 9), (3, 7, 2), (6, 6, 6)] {
        let plain = Color::hsv(frac(h, 10), frac(s, 10), frac(v, 10));
        let scaled = Color::hsv(frac(h * 7, 70), frac(s * 3, 30), frac(v * 1000, 10_000));
        assert_eq!(plain, scaled);
    }
    assert_eq!(
        Color::hsv(frac(1, 2), frac(1, 2), frac(1, 2)),
        Color::hsv(frac(1 << 30, 1 << 31), frac(1 << 30, 1 << 31), frac(1 << 30, 1 << 31))
    );
}

#[test]
fn hsv_has_no_channel_above_the_value() {
    let denom = 12u32;
    for h in 0..denom {
        for s in 0..denom {
            for v in 0..denom {
                let color = Color::hsv(frac(h, denom), frac(s, denom), frac(v, denom));
                let top = frac(v, denom).to_channel();
                assert!(color.r <= top && color.g <= top && color.b <= top);
                assert!(color.r == top || color.g == top || color.b == top);
            }
        }
    }
}

#[test]
fn try_hsv_agrees_with_hsv_below_one() {
    assert_eq!(
        Color::try_hsv(frac(9, 10), frac(4, 10), frac(5, 10)),
        Some(Color::new(255, 128, 77, 107))
    );
    assert_eq!(
        Color::try_hsv(frac(0, 1), frac(0, 1), frac(0, 1)),
        Some(Color::new(255, 0, 0, 0))
    );
}

#[test]
fn try_hsv_refuses_what_is_not_below_one() {
    let half = frac(1, 2);
    for bad in [frac(1, 1), frac(10, 10), frac(3, 2), frac(0, 0), frac(7, 0), frac(u32::MAX, 1)] {
        assert_eq!(Color::try_hsv(bad, half, half), None);
        assert_eq!(Color::try_hsv(half, bad, half), None);
        assert_eq!(Color::try_hsv(half, half, bad), None);
        assert_eq!(Color::try_hsv(bad, bad, bad), None);
    }
}

#[test]
fn select_primes_follows_the_six_sectors() {
    assert_eq!(select_primes(0, 'c', 'x', '0'), ('c', 'x', '0'));
    assert_eq!(select_primes(1, 'c', 'x', '0'), ('x', 'c', '0'));
    assert_eq!(select_primes(2, 'c', 'x', '0'), ('0', 'c', 'x'));
    assert_eq!(select_primes(3, 'c', 'x', '0'), ('0', 'x', 'c'));
    assert_eq!(select_primes(4, 'c', 'x', '0'), ('x', '0', 'c'));
    assert_eq!(select_primes(5, 'c', 'x', '0'), ('c', '0', 'x'));
}

#[test]
fn select_primes_outside_the_sectors_is_all_zero() {
    assert_eq!(select_primes(6, 1.5f32, 0.5f32, 0.0f32), (0.0, 0.0, 0.0));
    assert_eq!(select_primes(-1, 7u8, 3u8, 0u8), (0, 0, 0));
    assert_eq!(select_primes(i32::MAX, 7u8, 3u8, 0u8), (0, 0, 0));
    assert_eq!(select_primes(i32::MIN, 7u8, 3u8, 0u8), (0, 0, 0));
}
