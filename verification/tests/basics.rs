use simhark::number::{
    Double, Single, INFINITY_BITS, ONE_BITS, SIGN_BIT, SINGLE_INFINITY_BITS, ZERO_BITS,
};
use simhark::order::insert_ranked;
use simhark::ssl_log::detection_robot;
use simhark::state::{opposite_team, TeamColor};
use simhark::table::Table;
use simhark::text::{
    decimal_text, join_texts, lower_text, parse_signed, parse_unsigned, replace_char, same_text,
    signed_text, split_lines, split_text, split_text_once, strip_text_prefix, trim_text,
};

fn d(x: f64) -> Double {
    Double::from_bits(x.to_bits())
}

fn s(x: f32) -> Single {
    Single { bits: x.to_bits() }
}

const NUMBERS: [f64; 9] =
    [f64::NEG_INFINITY, -2.5, -1e-300, -0.0, 0.0, 1e-300, 1.0, f64::INFINITY, f64::NAN];

#[test]
fn doubles_compare_as_numbers_do() {
    for a in NUMBERS {
        for b in NUMBERS {
            assert_eq!(d(a).is_less(d(b)), a < b, "{a} < {b}");
            assert_eq!(d(a).is_at_most(d(b)), a <= b, "{a} <= {b}");
            let (max, min) = (f64::from_bits(d(a).max(d(b)).bits), f64::from_bits(d(a).min(d(b)).bits));
            assert!(max == a.max(b) || (a.is_nan() && b.is_nan() && max.is_nan()));
            assert!(min == a.min(b) || (a.is_nan() && b.is_nan() && min.is_nan()));
        }
        assert_eq!(d(a).is_nan(), a.is_nan());
        assert_eq!(d(a).is_finite(), a.is_finite());
        assert_eq!(d(a).negate().bits, (-a).to_bits());
        assert_eq!(d(a).abs().bits, a.abs().to_bits());
        if !a.is_nan() {
            assert_eq!(f64::from_bits(d(a).clamp(d(-1.0), d(1.0)).bits), a.clamp(-1.0, 1.0));
        }
    }
    assert_eq!((ZERO_BITS, ONE_BITS), (0.0f64.to_bits(), 1.0f64.to_bits()));
    assert_eq!((INFINITY_BITS, SIGN_BIT), (f64::INFINITY.to_bits(), (-0.0f64).to_bits()));
}

#[test]
fn singles_compare_as_numbers_do() {
    let numbers = [f32::NEG_INFINITY, -2.5, -0.0, 0.0, 1.0, f32::INFINITY, f32::NAN];
    for a in numbers {
        for b in numbers {
            assert_eq!(s(a).is_less(s(b)), a < b);
            assert_eq!(s(a).is_at_most(s(b)), a <= b);
        }
        assert_eq!(s(a).is_nan(), a.is_nan());
        assert_eq!(s(a).abs().bits, a.abs().to_bits());
        assert_eq!(f32::from_bits(s(a).at_least_zero().bits), a.max(0.0));
        if !a.is_nan() {
            assert_eq!(f32::from_bits(s(a).clamp(s(-1.0), s(1.0)).bits), a.clamp(-1.0, 1.0));
        }
    }
    assert_eq!(SINGLE_INFINITY_BITS, f32::INFINITY.to_bits());
}

#[test]
fn numbers_are_read_and_written() {
    assert_eq!(parse_unsigned("18446744073709551615", u64::MAX), Some(u64::MAX));
    assert_eq!(parse_unsigned("18446744073709551616", u64::MAX), None);
    assert_eq!(parse_unsigned("+12", 12), Some(12));
    assert_eq!(parse_unsigned("13", 12), None);
    for text in ["", "+", "-1", "1 ", "1a", "++1"] {
        assert_eq!(parse_unsigned(text, 99), None, "{text:?}");
    }
    assert_eq!(parse_signed("-9223372036854775808"), Some(isize::MIN));
    assert_eq!(parse_signed("9223372036854775808"), None);
    assert_eq!(parse_signed("+5"), Some(5));
    assert_eq!(parse_signed("-"), None);
    for n in [0, 9, 10, 12345, u64::MAX] {
        assert_eq!(decimal_text(n), n.to_string());
        assert_eq!(parse_unsigned(&decimal_text(n), u64::MAX), Some(n));
    }
    assert_eq!(signed_text(i32::MIN), i32::MIN.to_string());
    assert_eq!(signed_text(7), "7");
}

#[test]
fn texts_are_cut_as_the_standard_library_cuts() {
    for text in ["", "a", "a:b", ":", "a::b:", "x:y:z"] {
        assert_eq!(split_text(text, ':'), text.split(':').collect::<Vec<_>>());
        assert_eq!(
            split_text_once(text, ':'),
            text.split_once(':').map(|(a, b)| (a.to_string(), b.to_string()))
        );
        assert_eq!(
            strip_text_prefix(text, "a:"),
            text.strip_prefix("a:").map(str::to_string)
        );
    }
    for text in ["", "\n", "a\nb", "a\r\nb\n", "a\n\nb\r", "\r\n"] {
        assert_eq!(split_lines(text), text.lines().collect::<Vec<_>>());
    }
    for text in ["", "  ", " a b\t\n", "\u{a0}x\u{3000}", "y"] {
        assert_eq!(trim_text(text), text.trim());
    }
    assert_eq!(lower_text("AbZ9É"), "AbZ9É".to_ascii_lowercase());
    assert_eq!(replace_char("a.b.", '.', ' '), "a b ");
    assert!(same_text("a", "a") && !same_text("a", "b"));
    let parts = vec!["a".to_string(), String::new(), "c".to_string()];
    assert_eq!(join_texts(&parts, ", "), parts.join(", "));
    assert_eq!(join_texts(&[], ", "), "");
}

#[test]
fn tables_hold_one_value_per_key() {
    let mut t: Table<String, u32> = Table::new();
    t.insert("a".into(), 1);
    t.insert("b".into(), 2);
    t.insert("a".into(), 3);
    assert_eq!((t.len(), t.get(&"a".into()), t.get(&"c".into())), (2, Some(&3), None));
    assert_eq!(t.row(0).0, "a");
    assert_eq!(t.remove(&"a".into()), Some(3));
    assert_eq!(t.remove(&"a".into()), None);
    assert_eq!(t.take_rows(), vec![("b".to_string(), 2)]);
    assert_eq!(t.len(), 0);
}

#[test]
fn sorting_keeps_equals_in_order() {
    let robot = |id: u32, x: f64| detection_robot(Some(id), TeamColor::Blue, d(x), d(0.0), None);
    let mut sorted = Vec::new();
    for r in [robot(3, 1.0), robot(1, 2.0), robot(3, 3.0), robot(2, 4.0), robot(1, 5.0)] {
        insert_ranked(&mut sorted, r);
    }
    let told = sorted.iter().map(|r| (r.id, f64::from_bits(r.x.bits))).collect::<Vec<_>>();
    assert_eq!(told, vec![(1, 2.0), (1, 5.0), (2, 4.0), (3, 1.0), (3, 3.0)]);
}

#[test]
fn teams_have_names_and_opponents() {
    assert_eq!(opposite_team(TeamColor::Blue), TeamColor::Yellow);
    assert_eq!(opposite_team(opposite_team(TeamColor::Blue)), TeamColor::Blue);
    assert_eq!((TeamColor::Blue.name(), TeamColor::Yellow.id()), ("Blue", "yellow"));
}
