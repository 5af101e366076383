//! Numerals, the order of strings, lists of strings and durations.
use pulsar::text::{decimal_string, is_text_less, option_text_string, signed_decimal_string};
use pulsar::text_list::holds_text;
use pulsar::time::{Clock, Duration};

#[test]
fn numerals_are_written_as_std_writes_them() {
    for n in [0u32, 7, 9, 10, 42, 99, 100, 1000, 4_294_967_295] {
        assert_eq!(decimal_string(n), n.to_string());
    }
    for n in [0i32, 5, -1, -10, 12345, i32::MAX, i32::MIN] {
        assert_eq!(signed_decimal_string(n), n.to_string());
    }
}

#[test]
fn optional_numbers_are_written_as_debug_writes_them() {
    for n in [None, Some(0i32), Some(17), Some(-3), Some(i32::MIN)] {
        assert_eq!(option_text_string(n), format!("{:?}", n));
    }
}

#[test]
fn different_numbers_have_different_numerals() {
    let all: Vec<String> = (0u32..200).map(decimal_string).collect();
    for i in 0..all.len() {
        for j in 0..all.len() {
            assert_eq!(all[i] == all[j], i == j);
        }
    }
}

#[test]
fn strings_are_ordered_as_std_orders_them() {
    let words = ["", "a", "b", "ab", "aa", "abc", "B", "topic-10", "topic-9", "\u{e9}", "z", "\u{10000}", "\u{ffff}"];
    for a in words {
        for b in words {
            assert_eq!(is_text_less(a, b), a < b, "{} {}", a, b);
        }
    }
}

#[test]
fn lists_hold_what_was_put_in() {
    let list = vec!["x".to_string(), "yy".to_string()];
    assert!(holds_text(&list, &"yy".to_string()));
    assert!(!holds_text(&list, &"y".to_string()));
    assert!(!holds_text(&Vec::new(), &"".to_string()));
}

#[test]
fn durations_have_exact_nanoseconds() {
    assert_eq!(Duration::from_secs(30), Duration { secs: 30, subsec_nanos: 0 });
    assert_eq!(Duration::from_millis(1500), Duration { secs: 1, subsec_nanos: 500_000_000 });
    assert_eq!(Duration::from_millis(1500).as_nanos(), 1_500_000_000);
    assert_eq!(Duration { secs: u64::MAX, subsec_nanos: 1 }.as_nanos(), 18446744073709551615000000001);
}

#[test]
fn clock_does_not_run_backwards() {
    let clock = Clock::new();
    let first = clock.reading();
    let mut last = first;
    for _ in 0..1000 {
        let now = clock.reading();
        assert!(now >= last);
        last = now;
    }
    while last == first {
        last = clock.reading();
    }
    assert!(last < 20 * 1_000_000_000);
}
