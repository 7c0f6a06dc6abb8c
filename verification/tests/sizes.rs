use quantities::fields::{is_whitespace, split_fields};
use quantities::filesize::{split_request, Conversion, Unit};
use quantities::measure::Measure;

fn fields_by_chars(text: &str) -> Vec<String> {
    let chars: Vec<char> = text.chars().collect();
    split_fields(text).iter().map(|&(a, b)| chars[a..b].iter().collect()).collect()
}

fn texts() -> Vec<&'static str> {
    vec![
        "",
        " ",
        "a",
        "300 kb",
        "  300   kb  ",
        "12\tMB\n",
        "1 2 3",
        "one",
        "\u{3000}7\u{2003}gb\u{85}",
        "é ü",
        "x\u{200b}y z",
        "tail ",
        " head",
        "a\u{a0}b",
        "1.5e3 Bytes",
    ]
}

#[test]
fn whitespace_agrees_with_std_on_every_char() {
    for n in 0u32..=0x10ffff {
        if let Some(c) = char::from_u32(n) {
            assert_eq!(is_whitespace(c), c.is_whitespace(), "U+{:04X}", n);
        }
    }
}

#[test]
fn fields_agree_with_split_whitespace() {
    for text in texts() {
        let expected: Vec<String> = text.split_whitespace().map(|s| s.to_string()).collect();
        assert_eq!(fields_by_chars(text), expected, "{:?}", text);
    }
}

#[test]
fn field_spans_are_character_indices() {
    assert_eq!(split_fields("  300   kb  "), vec![(2, 5), (8, 10)]);
    assert_eq!(split_fields("é ü"), vec![(0, 1), (2, 3)]);
    assert_eq!(split_fields(""), Vec::new());
    assert_eq!(split_fields(" \t "), Vec::new());
    assert_eq!(split_fields("abc"), vec![(0, 3)]);
}

#[test]
fn request_has_exactly_two_fields() {
    let r = split_request("300 kb").unwrap();
    assert_eq!((r.number.as_str(), r.unit.as_str()), ("300", "kb"));
    let r = split_request("  12\tMB \n").unwrap();
    assert_eq!((r.number.as_str(), r.unit.as_str()), ("12", "MB"));
    let r = split_request("é ü").unwrap();
    assert_eq!((r.number.as_str(), r.unit.as_str()), ("é", "ü"));
    assert!(split_request("").is_none());
    assert!(split_request("300").is_none());
    assert!(split_request("300kb").is_none());
    assert!(split_request("300 kb extra").is_none());
    assert!(split_request("   ").is_none());
}

#[test]
fn unit_names() {
    assert_eq!(Unit::from_name("bytes"), Some(Unit::Bytes));
    assert_eq!(Unit::from_name("kb"), Some(Unit::Kilobytes));
    assert_eq!(Unit::from_name("mb"), Some(Unit::Megabytes));
    assert_eq!(Unit::from_name("gb"), Some(Unit::Gigabytes));
    assert_eq!(Unit::from_name("KB"), None);
    assert_eq!(Unit::from_name("byte"), None);
    assert_eq!(Unit::from_name("bytess"), None);
    assert_eq!(Unit::from_name(""), None);
    assert_eq!(Unit::from_name("tb"), None);
}

#[test]
fn unit_parse_ignores_letter_case() {
    assert_eq!(Unit::parse("KB"), Some(Unit::Kilobytes));
    assert_eq!(Unit::parse("Bytes"), Some(Unit::Bytes));
    assert_eq!(Unit::parse("BYTES"), Some(Unit::Bytes));
    assert_eq!(Unit::parse("mB"), Some(Unit::Megabytes));
    assert_eq!(Unit::parse("Gb"), Some(Unit::Gigabytes));
    assert_eq!(Unit::parse("gb"), Some(Unit::Gigabytes));
    assert_eq!(Unit::parse("\u{212a}b"), Some(Unit::Kilobytes));
    assert_eq!(Unit::parse("kib"), None);
    assert_eq!(Unit::parse(""), None);
}

#[test]
fn conversions_between_units() {
    let units = [Unit::Bytes, Unit::Kilobytes, Unit::Megabytes, Unit::Gigabytes];
    let factors = [1u64, 1000, 1_000_000, 1_000_000_000];
    for (i, from) in units.iter().enumerate() {
        for (j, to) in units.iter().enumerate() {
            let expected = if i == j {
                Conversion::Same
            } else if i > j {
                Conversion::Times(factors[i - j])
            } else {
                Conversion::Over(factors[j - i])
            };
            assert_eq!(from.conversion(*to), expected);
        }
    }
}

#[test]
fn conversion_examples() {
    assert_eq!(Unit::Kilobytes.conversion(Unit::Bytes), Conversion::Times(1000));
    assert_eq!(Unit::Bytes.conversion(Unit::Gigabytes), Conversion::Over(1_000_000_000));
    assert_eq!(Unit::Gigabytes.conversion(Unit::Kilobytes), Conversion::Times(1_000_000));
    assert_eq!(Unit::Megabytes.conversion(Unit::Megabytes), Conversion::Same);
}

#[test]
fn below_zero_agrees_with_float_comparison() {
    let samples = [
        0.0f64,
        -0.0,
        5e-324,
        -5e-324,
        1.0,
        -1.0,
        300.0,
        f64::MAX,
        f64::MIN,
        f64::INFINITY,
        f64::NEG_INFINITY,
        f64::NAN,
        -f64::NAN,
        f64::from_bits(0xfff0_0000_0000_0001),
        f64::from_bits(0xffff_ffff_ffff_ffff),
        f64::from_bits(0x7ff0_0000_0000_0001),
    ];
    for x in samples {
        assert_eq!(Measure::from_bits(x.to_bits()).below_zero(), x < 0.0, "{:?}", x);
    }
}
