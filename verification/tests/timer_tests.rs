use task_syscalls::timer::{elapsed_ms, ms_clock, ticks_to_us, to_timeval, TimeVal, TIMEVAL_BYTES};

#[test]
fn to_timeval_splits_seconds_and_microseconds() {
    let tv = to_timeval(3_141_592);
    assert_eq!(tv, TimeVal { sec: 3, usec: 141_592 });
    let zero = to_timeval(0);
    assert_eq!(zero, TimeVal { sec: 0, usec: 0 });
    let edge = to_timeval(999_999);
    assert_eq!(edge, TimeVal { sec: 0, usec: 999_999 });
    let next = to_timeval(1_000_000);
    assert_eq!(next, TimeVal { sec: 1, usec: 0 });
}

#[test]
fn to_timeval_round_trips_every_sampled_value() {
    let samples: [u64; 7] = [
        0,
        1,
        999_999,
        1_000_000,
        1_000_001,
        86_400_000_000,
        u64::MAX,
    ];
    for us in samples {
        let tv = to_timeval(us);
        assert!(tv.usec < 1_000_000);
        assert_eq!(tv.sec as u128 * 1_000_000 + tv.usec as u128, us as u128);
    }
    assert_eq!(to_timeval(u64::MAX), TimeVal { sec: 18_446_744_073_709, usec: 551_615 });
}

#[test]
fn ticks_to_us_scales_by_the_clock_frequency() {
    assert_eq!(ticks_to_us(0), 0);
    assert_eq!(ticks_to_us(12), 0);
    assert_eq!(ticks_to_us(13), 1);
    assert_eq!(ticks_to_us(25), 2);
    assert_eq!(ticks_to_us(12_500_000), 1_000_000);
    assert_eq!(ticks_to_us(u64::MAX), 1_475_739_525_896_764_129);
}

#[test]
fn ms_clock_truncates_seconds_to_sixteen_bits() {
    assert_eq!(ms_clock(0), 0);
    assert_eq!(ms_clock(999), 0);
    assert_eq!(ms_clock(1_000), 1);
    assert_eq!(ms_clock(1_234_567), 1_234);
    assert_eq!(ms_clock(65_535 * 1_000_000 + 999_999), 65_535_999);
    assert_eq!(ms_clock(65_536 * 1_000_000 + 5_000), 5);
    assert_eq!(ms_clock(65_537 * 1_000_000), 1_000);
}

#[test]
fn elapsed_ms_is_the_difference_of_the_clock_readings() {
    assert_eq!(elapsed_ms(1_000_000, 3_500_000), 2_500);
    assert_eq!(elapsed_ms(0, 0), 0);
    assert_eq!(elapsed_ms(1_999, 2_000), 1);
    assert_eq!(elapsed_ms(500, 999), 0);
}

#[test]
fn elapsed_ms_within_one_window_is_never_negative() {
    let window_start: u64 = 3 * 65_536 * 1_000_000;
    let instants: [u64; 5] = [
        window_start,
        window_start + 1,
        window_start + 999_999,
        window_start + 40_000 * 1_000_000,
        window_start + 65_535 * 1_000_000 + 999_999,
    ];
    for (i, start) in instants.iter().enumerate() {
        let mut last: i64 = 0;
        for now in instants.iter().skip(i) {
            let elapsed = elapsed_ms(*start, *now);
            assert!(elapsed >= 0);
            assert!(elapsed >= last);
            last = elapsed;
        }
    }
}

#[test]
fn elapsed_ms_goes_negative_when_the_window_starts_over() {
    let start: u64 = 65_535 * 1_000_000;
    let now: u64 = 65_536 * 1_000_000 + 250_000;
    assert_eq!(elapsed_ms(start, now), 250 - 65_535_000);
}

#[test]
fn timeval_bytes_are_two_little_endian_words() {
    let tv = TimeVal { sec: 0x0102_0304_0506_0708, usec: 999_999 };
    let bytes = tv.to_bytes();
    assert_eq!(bytes.len(), TIMEVAL_BYTES);
    assert_eq!(&bytes[0..8], &[0x08, 0x07, 0x06, 0x05, 0x04, 0x03, 0x02, 0x01]);
    assert_eq!(&bytes[8..16], &999_999u64.to_le_bytes());
}
