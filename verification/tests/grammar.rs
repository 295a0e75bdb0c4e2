use stripper_xml::event::Status;
use stripper_xml::float::{is_float_token, Float};
use stripper_xml::integer::{i32_to_string, parse_i32, push_i32, push_u64};
use stripper_xml::text::{chars_of, split};

/// Every text over `alphabet` of at most `len` characters.
fn texts(alphabet: &[char], len: usize) -> Vec<String> {
    let mut all = vec![String::new()];
    let mut last = vec![String::new()];
    for _ in 0..len {
        let mut next = Vec::with_capacity(last.len() * alphabet.len());
        for text in &last {
            for c in alphabet {
                let mut longer = text.clone();
                longer.push(*c);
                next.push(longer);
            }
        }
        all.extend(next.iter().cloned());
        last = next;
    }
    all
}

#[test]
fn short_float_literals_are_what_the_standard_library_reads() {
    let alphabet = ['0', '7', '+', '-', '.', 'e', 'E', 'i', 'n', 'f', 'a', 'N', ' ', ','];
    let all = texts(&alphabet, 5);
    assert_eq!(all.len(), 1 + 14 + 14 * 14 + 14 * 14 * 14 + 14 * 14 * 14 * 14 + 537_824);
    for text in all {
        assert_eq!(is_float_token(&text), text.parse::<f64>().is_ok(), "{text:?}");
    }
}

#[test]
fn longer_float_literals_are_what_the_standard_library_reads() {
    let alphabet = ['3', '.', 'e', '-'];
    for text in texts(&alphabet, 8) {
        assert_eq!(is_float_token(&text), text.parse::<f64>().is_ok(), "{text:?}");
    }
    let letters = ['i', 'I', 'n', 'N', 'f', 't', 'Y', 'y'];
    for tail in texts(&letters, 5) {
        for head in ["inf", "-INF", "+Inf", "nan", "in", "i"] {
            let text = format!("{head}{tail}");
            assert_eq!(is_float_token(&text), text.parse::<f64>().is_ok(), "{text:?}");
            assert_eq!(Float::parse(&text).is_some(), text.parse::<f64>().is_ok());
        }
    }
}

#[test]
fn short_integer_literals_are_what_the_standard_library_reads() {
    let alphabet = ['0', '1', '9', '+', '-', ' ', 'a', '.'];
    for text in texts(&alphabet, 6) {
        assert_eq!(parse_i32(&text), text.parse::<i32>().ok(), "{text:?}");
    }
}

#[test]
fn integers_near_the_limits_are_what_the_standard_library_reads() {
    for base in [i32::MAX as i64, i32::MIN as i64, 0, 1_000_000_000, -1_000_000_000] {
        for offset in -20i64..=20 {
            let n = base + offset;
            for text in [n.to_string(), format!("{n:+}"), format!("{n:+012}"), format!("{n}0")] {
                assert_eq!(parse_i32(&text), text.parse::<i32>().ok(), "{text:?}");
            }
        }
    }
    for digits in 1..40 {
        for digit in ['1', '2', '9'] {
            let text: String = std::iter::repeat(digit).take(digits).collect();
            assert_eq!(parse_i32(&text), text.parse::<i32>().ok(), "{text:?}");
            let text = format!("-{text}");
            assert_eq!(parse_i32(&text), text.parse::<i32>().ok(), "{text:?}");
            let text = format!("{}{digit}", "0".repeat(digits));
            assert_eq!(parse_i32(&text), text.parse::<i32>().ok(), "{text:?}");
        }
    }
}

#[test]
fn integers_are_written_as_the_standard_library_writes_them() {
    let mut n: i64 = 1;
    while n <= i32::MAX as i64 {
        for m in [n - 1, n, n + 1, -n, -n - 1, -n + 1] {
            if let Ok(m) = i32::try_from(m) {
                assert_eq!(i32_to_string(m), m.to_string());
                let mut text = "x=".to_owned();
                push_i32(&mut text, m);
                assert_eq!(text, format!("x={m}"));
            }
        }
        n *= 3;
    }
    for n in [0, 1, 9, 10, 99, 100, 2286, u32::MAX as u64, u64::MAX - 1, u64::MAX] {
        let mut text = "n=".to_owned();
        push_u64(&mut text, n);
        assert_eq!(text, format!("n={n}"));
    }
}

#[test]
fn split_is_what_the_standard_library_splits() {
    let alphabet = [',', '1', '-', ' ', 'é'];
    for text in texts(&alphabet, 6) {
        let expected: Vec<&str> = text.split(',').collect();
        assert_eq!(split(&text), expected, "{text:?}");
        assert_eq!(split(&text).join(","), text);
    }
}

#[test]
fn chars_of_lists_the_characters() {
    assert_eq!(chars_of(""), Vec::<char>::new());
    assert_eq!(chars_of("1,2"), ['1', ',', '2']);
    assert_eq!(chars_of("µR=é"), ['µ', 'R', '=', 'é']);
}

#[test]
fn status_reads_from_a_string() {
    assert_eq!("0".parse::<Status>(), Ok(Status::Outgoing));
    assert_eq!("1".parse::<Status>(), Ok(Status::Incoming));
    assert!("2".parse::<Status>().is_err());
    assert!("".parse::<Status>().is_err());
    for text in texts(&['0', '1', '2', '+', ' '], 3) {
        let expected = match text.as_str() {
            "0" => Some(Status::Outgoing),
            "1" => Some(Status::Incoming),
            _ => None,
        };
        assert_eq!(Status::parse(&text).ok(), expected, "{text:?}");
    }
}

#[test]
fn every_double_is_written_as_a_literal_that_reads_back() {
    let mut bits: u64 = 0x9E37_79B9_7F4A_7C15;
    let mut patterns = vec![
        0,
        1,
        0x8000_0000_0000_0000,
        f64::MAX.to_bits(),
        f64::MIN.to_bits(),
        f64::MIN_POSITIVE.to_bits(),
        f64::EPSILON.to_bits(),
        f64::INFINITY.to_bits(),
        f64::NEG_INFINITY.to_bits(),
        f64::NAN.to_bits(),
        (-0.0002369763508f64).to_bits(),
        91.16253934f64.to_bits(),
        (-2.098171554e-05f64).to_bits(),
    ];
    for _ in 0..20_000 {
        bits = bits.wrapping_mul(6364136223846793005).wrapping_add(1442695040888963407);
        patterns.push(bits);
    }
    for pattern in patterns {
        let x = f64::from_bits(pattern);
        let written = x.to_string();
        let value = Float::parse(&written).unwrap_or_else(|| panic!("{written:?}"));
        assert_eq!(value.as_str(), written);
        let back: f64 = value.as_str().parse().unwrap();
        if x.is_nan() {
            assert!(back.is_nan());
        } else {
            assert_eq!(back.to_bits(), x.to_bits(), "{written:?}");
        }
        let scientific = format!("{x:e}");
        assert!(is_float_token(&scientific), "{scientific:?}");
        let upper = format!("{x:E}");
        assert!(is_float_token(&upper), "{upper:?}");
    }
}
