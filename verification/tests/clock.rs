use siphon::clock::{date_of, iso_of_reading, iso_text, millis_or_zero, now_iso, now_ms};

#[test]
fn dates_follow_the_calendar() {
    let known = [
        (0u64, (1970u64, 1u64, 1u64)),
        (58, (1970, 2, 28)),
        (59, (1970, 3, 1)),
        (789, (1972, 2, 29)),
        (11_016, (2000, 2, 29)),
        (19_723, (2024, 1, 1)),
        (47_540, (2100, 2, 28)),
        (47_541, (2100, 3, 1)),
    ];
    for (days, (year, month, day)) in known {
        let d = date_of(days);
        assert_eq!((d.year, d.month, d.day), (year, month, day));
    }
}

#[test]
fn times_are_written_in_order() {
    assert_eq!(iso_text(0), "1970-01-01T00:00:00Z");
    assert_eq!(iso_text(951_826_154), "2000-02-29T12:09:14Z");
    assert_eq!(iso_text(253_402_300_800), "10000-01-01T00:00:00Z");
}

#[test]
fn later_times_have_greater_texts() {
    let seconds =
        [0u64, 1, 59, 60, 3_599, 3_600, 86_399, 86_400, 2_678_399, 2_678_400, 31_535_999,
         31_536_000, 951_826_154, 946_684_799, 946_684_800, 4_102_444_800, 253_402_300_799];
    for a in seconds {
        for b in seconds {
            assert_eq!(iso_text(a).cmp(&iso_text(b)), a.cmp(&b), "{a} {b}");
        }
    }
}

#[test]
fn readings_before_the_epoch() {
    assert_eq!(millis_or_zero(None), 0);
    assert_eq!(millis_or_zero(Some(12)), 12);
    assert!(iso_of_reading(None).is_none());
    assert_eq!(iso_of_reading(Some(0)), Some(iso_text(0)));
}

#[test]
fn the_clock_runs() {
    // 2020-01-01, in milliseconds.
    assert!(now_ms() > 1_577_836_800_000);
    let text = now_iso().unwrap();
    assert_eq!(text.len(), iso_text(0).len());
    assert!(text.as_str() > "2020-01-01");
}
