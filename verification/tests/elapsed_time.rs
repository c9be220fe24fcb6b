use print_break::{format_elapsed, Colors};

fn with_doubles(micros: u64) -> String {
    if micros < 1000 {
        format!(" +{}µs", micros)
    } else if micros < 1_000_000 {
        format!(" +{:.1}ms", micros as f64 / 1000.0)
    } else {
        format!(" +{:.2}s", micros as f64 / 1_000_000.0)
    }
}

#[test]
fn microseconds_are_whole() {
    let c = Colors::get(false);
    assert_eq!(format_elapsed(0, &c), " +0µs");
    assert_eq!(format_elapsed(7, &c), " +7µs");
    assert_eq!(format_elapsed(999, &c), " +999µs");
}

#[test]
fn milliseconds_have_one_decimal() {
    let c = Colors::get(false);
    assert_eq!(format_elapsed(1000, &c), " +1.0ms");
    assert_eq!(format_elapsed(1234, &c), " +1.2ms");
    assert_eq!(format_elapsed(1250, &c), " +1.2ms");
    assert_eq!(format_elapsed(1350, &c), " +1.4ms");
    assert_eq!(format_elapsed(1150, &c), " +1.1ms");
    assert_eq!(format_elapsed(999_949, &c), " +999.9ms");
    assert_eq!(format_elapsed(999_999, &c), " +1000.0ms");
}

#[test]
fn seconds_have_two_decimals() {
    let c = Colors::get(false);
    assert_eq!(format_elapsed(1_000_000, &c), " +1.00s");
    assert_eq!(format_elapsed(1_234_567, &c), " +1.23s");
    assert_eq!(format_elapsed(1_005_000, &c), " +1.00s");
    assert_eq!(format_elapsed(61_500_000, &c), " +61.50s");
    assert_eq!(format_elapsed(u64::MAX, &c), " +18446744073709.55s");
}

#[test]
fn the_note_is_gray_on_a_terminal() {
    let c = Colors::get(true);
    assert_eq!(format_elapsed(12, &c), " \x1b[90m+12µs\x1b[0m");
    assert_eq!(format_elapsed(2500, &c), " \x1b[90m+2.5ms\x1b[0m");
}

#[test]
fn every_millisecond_value_agrees_with_doubles() {
    let c = Colors::get(false);
    let mut m: u64 = 0;
    while m < 1_000_000 {
        assert_eq!(format_elapsed(m, &c), with_doubles(m), "{}", m);
        m += if m % 100 == 49 || m % 100 == 50 { 1 } else { 7 };
    }
}

#[test]
fn ties_of_seconds_agree_with_doubles() {
    let c = Colors::get(false);
    let mut m: u64 = 1_005_000;
    while m < 3_000_000_000 {
        assert_eq!(format_elapsed(m, &c), with_doubles(m), "{}", m);
        assert_eq!(format_elapsed(m - 1, &c), with_doubles(m - 1), "{}", m - 1);
        assert_eq!(format_elapsed(m + 1, &c), with_doubles(m + 1), "{}", m + 1);
        m += 10_000;
    }
}

#[test]
fn large_times_agree_with_doubles() {
    let c = Colors::get(false);
    let anchors = [
        1u64 << 52,
        (1u64 << 53) - 1,
        1u64 << 53,
        (1u64 << 53) + 1,
        (1u64 << 53) + 2,
        (1u64 << 53) + 3,
        (1u64 << 54) + 2,
        (1u64 << 54) + 6,
        (1u64 << 60) + 64,
        (1u64 << 60) + 192,
        (1u64 << 63) - 1,
        1u64 << 63,
        (1u64 << 63) + 1024,
        (1u64 << 63) + 3072,
        u64::MAX - 1,
        u64::MAX,
    ];
    for a in anchors {
        assert_eq!(format_elapsed(a, &c), with_doubles(a), "{}", a);
    }
    let mut m: u64 = 1_000_000;
    let mut step: u64 = 1;
    while m < u64::MAX / 3 {
        assert_eq!(format_elapsed(m, &c), with_doubles(m), "{}", m);
        assert_eq!(format_elapsed(m + 5_000, &c), with_doubles(m + 5_000), "{}", m);
        m = m * 3 + step;
        step += 4_999;
    }
    let mut seed: u64 = 0x2545f4914f6cdd1d;
    for _ in 0..20000 {
        seed ^= seed << 13;
        seed ^= seed >> 7;
        seed ^= seed << 17;
        let shift = (seed % 44) as u32;
        let m = seed >> shift;
        assert_eq!(format_elapsed(m, &c), with_doubles(m), "{}", m);
    }
}
