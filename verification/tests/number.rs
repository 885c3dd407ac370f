use siphon::number::{
    decimal_text, fmt_eta, format_duration, human_bytes, padded_text, signed_text,
};

/// The size of a file, computed with floating-point numbers.
fn float_bytes(bytes: u64) -> String {
    let units = ["B", "KiB", "MiB", "GiB", "TiB"];
    let mut value = bytes as f64;
    let mut unit = 0;
    while value >= 1024.0 && unit < units.len() - 1 {
        value /= 1024.0;
        unit += 1;
    }
    if unit == 0 {
        format!("{bytes} B")
    } else {
        format!("{:.1} {}", value, units[unit])
    }
}

#[test]
fn sizes_have_one_decimal() {
    assert_eq!(human_bytes(0), "0 B");
    assert_eq!(human_bytes(1023), "1023 B");
    assert_eq!(human_bytes(1024), "1.0 KiB");
    assert_eq!(human_bytes(1536), "1.5 KiB");
    assert_eq!(human_bytes(2_202_009), "2.1 MiB");
    assert_eq!(human_bytes(5 * 1024 * 1024 * 1024), "5.0 GiB");
    assert_eq!(human_bytes(u64::MAX), "16777216.0 TiB");
}

#[test]
fn sizes_at_ties_round_to_even() {
    assert_eq!(human_bytes(1280), "1.2 KiB");
    assert_eq!(human_bytes(1792), "1.8 KiB");
    assert_eq!(human_bytes(1024 * 1024 - 1), "1024.0 KiB");
}

#[test]
fn sizes_match_floating_point() {
    let mut n: u64 = 1;
    for step in 0..4000u64 {
        assert_eq!(human_bytes(n), float_bytes(n), "{n}");
        n = n.wrapping_mul(6_364_136_223_846_793_005).wrapping_add(1_442_695_040_888_963_407 + step);
        assert_eq!(human_bytes(n >> (step % 60)), float_bytes(n >> (step % 60)));
    }
    for shift in 0..64 {
        for delta in 0..70u64 {
            let n = (1u64 << shift).wrapping_add(delta).wrapping_sub(35);
            assert_eq!(human_bytes(n), float_bytes(n), "{n}");
            let quarter = (1u64 << shift) / 4 * 5 + delta;
            assert_eq!(human_bytes(quarter), float_bytes(quarter), "{quarter}");
        }
    }
}

#[test]
fn times_left_are_short() {
    assert_eq!(fmt_eta(0), "0s");
    assert_eq!(fmt_eta(59), "59s");
    assert_eq!(fmt_eta(60), "1m00s");
    assert_eq!(fmt_eta(3599), "59m59s");
    assert_eq!(fmt_eta(3600), "1h00m");
    assert_eq!(fmt_eta(7384), "2h03m");
}

#[test]
fn durations_are_clock_times() {
    assert_eq!(format_duration(None), "Unknown");
    assert_eq!(format_duration(Some(0)), "0:00");
    assert_eq!(format_duration(Some(65)), "1:05");
    assert_eq!(format_duration(Some(3661)), "1:01:01");
    assert_eq!(format_duration(Some(36_000)), "10:00:00");
}

#[test]
fn decimals_match_display() {
    for n in [0u128, 7, 10, 99, 100, 1_234_567_890, u128::MAX] {
        assert_eq!(decimal_text(n), n.to_string());
        assert_eq!(decimal_text(n).parse::<u128>().unwrap(), n);
    }
    for n in [0i32, -1, 1, i32::MIN, i32::MAX] {
        assert_eq!(signed_text(n), n.to_string());
    }
    assert_eq!(padded_text(7, 2), "07");
    assert_eq!(padded_text(123, 2), "123");
}
