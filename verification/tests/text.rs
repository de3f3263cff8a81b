use firmware::ieee::{fixed_point_text, Binary32, Binary64};
use firmware::text::{
    append_decimal, append_padded_decimal, append_signed_decimal, contains_text, str_eq, substitute,
};
use firmware::time::{Duration, Instant};

#[test]
fn numerals() {
    let mut text = String::new();
    for n in [0u128, 7, 10, 905, u128::MAX] {
        text.clear();
        append_decimal(&mut text, n);
        assert_eq!(text, format!("{n}"));
    }
    text.clear();
    append_padded_decimal(&mut text, 7, 3);
    append_padded_decimal(&mut text, 12345, 2);
    assert_eq!(text, "00745");
    for n in [0, -1, 42, i32::MIN, i32::MAX] {
        text.clear();
        append_signed_decimal(&mut text, n);
        assert_eq!(text, format!("{n}"));
    }
}

#[test]
fn substitution_replaces_every_occurrence_from_the_left() {
    for (s, pattern, with) in [
        ("RPM: {{value}}", "{{value}}", "4200"),
        ("{{value}}/{{value}}", "{{value}}", "--"),
        ("{{{value}}}", "{{value}}", "x"),
        ("aaaa", "aa", "b"),
        ("aaa", "aa", "aa"),
        ("none", "{{value}}", "x"),
        ("", "a", "b"),
        ("gr\u{fc}n \u{1f3cd}", "\u{1f3cd}", "ok"),
    ] {
        assert_eq!(substitute(s, pattern, with), s.replace(pattern, with));
        assert_eq!(contains_text(s, pattern), s.contains(pattern));
    }
    assert!(contains_text("x", ""));
    assert!(str_eq("\u{fc}", "\u{fc}"));
    assert!(!str_eq("a", "ab"));
    assert!(!str_eq("ab", "ac"));
}

#[test]
fn fixed_point_follows_the_bits() {
    for places in [0u8, 1, 2, 5, 9] {
        for v in [
            0.5f32, 1.5, 2.5, 0.125, 3.14159, -2.75, 1e-7, 123456.7, 2.0f32.powi(100), f32::MAX,
            f32::MIN_POSITIVE,
        ] {
            let digits = places as usize;
            assert_eq!(
                fixed_point_text(Binary32::from_bits(v.to_bits()), places),
                format!("{v:.digits$}"),
                "{v:?} to {places} places"
            );
        }
    }
}

#[test]
fn comparisons_follow_ieee_754() {
    let values = [
        f64::NEG_INFINITY,
        -1.5,
        -f64::MIN_POSITIVE,
        -0.0,
        0.0,
        5e-324,
        1.0,
        f64::INFINITY,
        f64::NAN,
    ];
    let number = |x: f64| Binary64::from_bits(x.to_bits());
    for a in values {
        for b in values {
            assert_eq!(number(a).less_than(&number(b)), a < b, "{a} < {b}");
            assert_eq!(number(a).at_least(&number(b)), a >= b, "{a} >= {b}");
            assert_eq!(number(a) == number(b), a == b, "{a} == {b}");
        }
    }
}

#[test]
fn time_counts_whole_nanoseconds() {
    assert_eq!(Duration::from_secs(2), Duration::from_millis(2_000));
    assert_eq!(Duration::from_nanos(1_999_999).as_millis(), 1);
    assert_eq!(Duration::from_secs(u64::MAX).as_nanos(), u64::MAX as u128 * 1_000_000_000);
    let early = Instant::at(Duration::from_millis(5));
    let late = Instant::at(Duration::from_millis(8));
    assert_eq!(late.duration_since(early), Duration::from_millis(3));
    assert_eq!(early.duration_since(late), Duration::from_nanos(0));
}
