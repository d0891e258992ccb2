use yharnam::number::Number;
use yharnam::text::{
    decimal_of, find_first, is_whitespace, placeholder_of, replace_all_in, replace_first_in,
    text_before,
};
use yharnam::value::{blank, YarnValue};

fn num(value: f32) -> Number {
    Number::new(value.to_bits(), value.to_string())
}

fn number(value: f32) -> YarnValue {
    YarnValue::Number(num(value))
}

fn string(value: &str) -> YarnValue {
    YarnValue::Str(value.to_string())
}

fn chars(text: &str) -> Vec<char> {
    text.chars().collect()
}

const SAMPLES: [f32; 24] = [
    0.0,
    -0.0,
    1.0,
    -1.0,
    0.5,
    0.999_999,
    1.5,
    2.0,
    254.9,
    255.0,
    255.5,
    256.0,
    1e-40,
    -1e-40,
    16_777_216.0,
    4_294_967_040.0,
    4_294_967_296.0,
    1e20,
    -1e20,
    f32::MAX,
    f32::MIN_POSITIVE,
    f32::INFINITY,
    f32::NEG_INFINITY,
    f32::NAN,
];

#[test]
fn numbers_read_their_pattern_as_the_hardware_does() {
    for value in SAMPLES {
        let n = num(value);
        assert_eq!(n.is_nan(), value.is_nan(), "{value}");
        assert_eq!(n.is_zero(), value == 0.0, "{value}");
        assert_eq!(n.to_u32(), value as u32, "{value}");
        assert_eq!(n.to_u8(), value as u8, "{value}");
        assert_eq!(number(value).as_bool(), !value.is_nan() && value != 0.0, "{value}");
    }
    assert!(num(-f32::NAN).is_nan());
}

#[test]
fn numbers_compare_as_the_hardware_does() {
    for a in SAMPLES {
        for b in SAMPLES {
            assert_eq!(num(a).equals(&num(b)), a == b, "{a} == {b}");
            assert_eq!(num(a).less_than(&num(b)), a < b, "{a} < {b}");
            assert_eq!(number(a) == number(b), a == b);
            assert_eq!(number(a).less_than(&number(b)), a < b);
        }
    }
}

#[test]
fn constants_are_what_they_say() {
    assert_eq!(Number::zero().bits, 0.0f32.to_bits());
    assert_eq!(Number::zero().text, 0.0f32.to_string());
    assert_eq!(Number::one().bits, 1.0f32.to_bits());
    assert_eq!(Number::one().text, 1.0f32.to_string());
    assert_eq!(Number::negative_zero().bits, (-0.0f32).to_bits());
    assert_eq!(Number::negative_zero().text, (-0.0f32).to_string());
    assert_eq!(Number::nan().bits, f32::NAN.to_bits());
    assert_eq!(Number::nan().text, f32::NAN.to_string());
}

#[test]
fn values_as_text() {
    assert_eq!(string("a b").as_string(), "a b");
    assert_eq!(number(1.0).as_string(), "1");
    assert_eq!(number(-2.5).as_string(), "-2.5");
    assert_eq!(YarnValue::Number(Number::new(f32::NAN.to_bits(), "x".to_string())).as_string(), "NaN");
    assert_eq!(YarnValue::Bool(true).as_string(), "True");
    assert_eq!(YarnValue::Bool(false).as_string(), "False");
    assert_eq!(YarnValue::Null.as_string(), "null");
}

#[test]
fn values_as_truth() {
    assert!(string("x").as_bool());
    assert!(!string("").as_bool());
    assert!(YarnValue::Bool(true).as_bool());
    assert!(!YarnValue::Bool(false).as_bool());
    assert!(!YarnValue::Null.as_bool());
    assert!(number(f32::INFINITY).as_bool());
}

#[test]
fn text_keeps_truth_of_strings_and_true() {
    for value in [string(""), string("x"), string("False"), YarnValue::Bool(true)] {
        assert_eq!(YarnValue::Str(value.as_string()).as_bool(), value.as_bool());
    }
    assert!(YarnValue::Str(YarnValue::Bool(false).as_string()).as_bool());
    assert!(YarnValue::Str(YarnValue::Null.as_string()).as_bool());
}

#[test]
fn values_as_numbers() {
    assert_eq!(string("2.5").as_number(num(2.5)).bits, 2.5f32.to_bits());
    assert_eq!(number(3.0).as_number(num(9.0)).bits, 3.0f32.to_bits());
    assert_eq!(YarnValue::Bool(true).as_number(num(9.0)).bits, 1.0f32.to_bits());
    assert_eq!(YarnValue::Bool(false).as_number(num(9.0)).bits, 0.0f32.to_bits());
    assert_eq!(YarnValue::Null.as_number(num(9.0)).text, "0");
}

#[test]
fn add_joins_texts_or_takes_the_sum() {
    assert_eq!(string("a").add(&number(1.0), num(1.0)), Some(string("a1")));
    assert_eq!(number(1.0).add(&string("a"), num(1.0)), Some(string("1a")));
    assert_eq!(YarnValue::Null.add(&string("a"), num(0.0)), Some(string("nulla")));
    assert_eq!(YarnValue::Bool(true).add(&string(""), num(1.0)), Some(string("True")));
    for x in [0.0f32, 1.0, -2.5, 1e20, f32::INFINITY] {
        assert_eq!(YarnValue::Null.add(&number(x), num(0.0 + x)), Some(number(x)));
    }
    assert_eq!(number(2.0).add(&number(3.0), num(5.0)), Some(number(5.0)));
    assert_eq!(YarnValue::Bool(true).add(&number(3.0), num(4.0)), Some(number(4.0)));
    assert_eq!(YarnValue::Bool(true).add(&YarnValue::Bool(true), num(2.0)), Some(number(2.0)));
    assert_eq!(YarnValue::Null.add(&YarnValue::Null, num(0.0)), Some(number(0.0)));
    assert_eq!(YarnValue::Bool(true).add(&YarnValue::Null, num(1.0)), Some(number(1.0)));
    assert_eq!(YarnValue::Null.add(&YarnValue::Bool(false), num(0.0)), Some(number(0.0)));
}

#[test]
fn other_arithmetic_is_for_numbers_and_null() {
    assert_eq!(number(5.0).sub(&number(3.0), num(2.0)), Some(number(2.0)));
    assert_eq!(number(5.0).mul(&YarnValue::Null, num(0.0)), Some(number(0.0)));
    assert_eq!(YarnValue::Null.div(&number(2.0), num(0.0)), Some(number(0.0)));
    assert_eq!(number(5.0).rem(&number(3.0), num(2.0)), Some(number(2.0)));
    assert_eq!(YarnValue::Null.sub(&YarnValue::Null, num(0.0)), Some(number(0.0)));
    assert_eq!(YarnValue::Null.sub(&number(3.0), num(-3.0)), Some(number(-3.0)));
    assert_eq!(YarnValue::Null.mul(&YarnValue::Null, num(0.0)), Some(number(0.0)));
    assert!(matches!(
        YarnValue::Null.div(&YarnValue::Null, num(f32::NAN)),
        Some(YarnValue::Number(n)) if n.is_nan()
    ));
    assert!(matches!(
        YarnValue::Null.rem(&YarnValue::Null, num(f32::NAN)),
        Some(YarnValue::Number(n)) if n.is_nan()
    ));
    assert_eq!(YarnValue::Null.sub(&YarnValue::Bool(false), num(0.0)), None);
    assert_eq!(number(5.0).sub(&string("3"), num(2.0)), None);
    assert_eq!(YarnValue::Bool(true).mul(&number(3.0), num(3.0)), None);
    assert_eq!(string("6").div(&number(3.0), num(2.0)), None);
    assert_eq!(number(6.0).rem(&YarnValue::Bool(true), num(0.0)), None);
}

#[test]
fn negation() {
    for value in [1.0f32, -2.5, 0.0, f32::INFINITY] {
        let negated = number(value).neg((-value).to_string());
        match negated {
            YarnValue::Number(n) => {
                assert_eq!(n.bits, (-value).to_bits());
                assert_eq!(n.text, (-value).to_string());
            }
            other => panic!("expected a number, got {:?}", other),
        }
    }
    let minus_zero = |value: YarnValue| match value.neg(String::new()) {
        YarnValue::Number(n) => n.bits == (-0.0f32).to_bits() && n.text == "-0",
        _ => false,
    };
    let nan = |value: YarnValue| match value.neg(String::new()) {
        YarnValue::Number(n) => n.is_nan() && n.text == "NaN",
        _ => false,
    };
    assert!(minus_zero(YarnValue::Null));
    assert!(minus_zero(string("")));
    assert!(minus_zero(string(" \t\u{a0}")));
    assert!(nan(string("1")));
    assert!(nan(YarnValue::Bool(true)));
}

#[test]
fn equality_is_within_a_kind() {
    assert!(string("a").equals(&string("a")));
    assert!(!string("a").equals(&string("b")));
    assert!(YarnValue::Null.equals(&YarnValue::Null));
    assert!(YarnValue::Bool(false).equals(&YarnValue::Bool(false)));
    assert!(!YarnValue::Bool(false).equals(&YarnValue::Null));
    assert!(!number(0.0).equals(&YarnValue::Bool(false)));
    assert!(!YarnValue::Bool(false).less_than(&YarnValue::Bool(true)));
    assert!(!YarnValue::Null.less_than(&number(1.0)));
    assert_eq!(YarnValue::from(true), YarnValue::Bool(true));
    assert_eq!(YarnValue::from("s".to_string()), string("s"));
    assert_eq!(YarnValue::from(num(2.0)), number(2.0));
    assert_eq!(number(2.0).clone(), number(2.0));
}

#[test]
fn texts_are_ordered_as_strings_are() {
    let samples = ["", "a", "ab", "b", "B", "\u{e9}", "a\u{10000}", "a\u{ffff}", "aa"];
    for a in samples {
        for b in samples {
            assert_eq!(text_before(a, b), a < b, "{a:?} < {b:?}");
        }
    }
}

#[test]
fn white_space_is_what_the_standard_library_says() {
    for code in 0..=0x10ffffu32 {
        if let Some(c) = char::from_u32(code) {
            assert_eq!(is_whitespace(c), c.is_whitespace(), "{code:x}");
        }
    }
    assert!(blank(""));
    assert!(blank(" \n\t"));
    assert!(!blank(" x "));
}

#[test]
fn decimal_numerals_and_placeholders() {
    for n in [0usize, 7, 9, 10, 11, 99, 100, 1234567890] {
        assert_eq!(decimal_of(n).into_iter().collect::<String>(), n.to_string());
        assert_eq!(placeholder_of(n).into_iter().collect::<String>(), format!("{{{}}}", n));
    }
}

#[test]
fn replacing_is_what_the_standard_library_does() {
    let texts = ["", "a", "aaa", "abcabc", "{0} and {0}", "xx{1}", "ababab", "aXbXc"];
    let patterns = ["a", "aa", "abc", "{0}", "{1}", "ab", "X", "bab"];
    let replacements = ["", "a", "zz", "{0}", "aXa"];
    for text in texts {
        for pattern in patterns {
            assert_eq!(
                find_first(&chars(text), &chars(pattern)),
                text.find(pattern).map(|at| text[..at].chars().count())
            );
            for replacement in replacements {
                let first = replace_first_in(&chars(text), &chars(pattern), &chars(replacement));
                assert_eq!(
                    first.into_iter().collect::<String>(),
                    text.replacen(pattern, replacement, 1)
                );
                let all = replace_all_in(&chars(text), &chars(pattern), &chars(replacement));
                assert_eq!(all.into_iter().collect::<String>(), text.replace(pattern, replacement));
            }
        }
    }
}
