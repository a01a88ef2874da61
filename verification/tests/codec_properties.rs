use vinculum::{arabic2vinculum, make_vinculum, make_vinculum_number, value,
    vinculum2arabic, DecodeError, EncodeError};

#[test]
fn test_round_trip_sample() {
    let samples: [u64; 17] = [
        1, 9, 10, 40, 90, 100, 900, 1000, 3999, 4000, 5000, 1000000, 1000000000,
        1000000000000, 1000000000000000, 10000000000000000000, u64::MAX,
    ];
    for &n in samples.iter() {
        let numeral = arabic2vinculum(n).unwrap();
        assert_eq!(vinculum2arabic(&numeral).unwrap(), n);
    }
}

#[test]
fn test_canonical_form_sample() {
    assert_eq!(arabic2vinculum(3).unwrap(), "III");
    assert_eq!(arabic2vinculum(8).unwrap(), "VIII");
    assert_eq!(arabic2vinculum(3888).unwrap(), "I̅I̅I̅DCCCLXXXVIII");
    for n in 1u64..=4000 {
        let numeral = arabic2vinculum(n).unwrap();
        let chars: Vec<char> = numeral.chars().collect();
        let mut run = 1;
        let mut max_run = 1;
        for w in chars.windows(2) {
            if w[0] == w[1] {
                run += 1;
                if run > max_run {
                    max_run = run;
                }
            } else {
                run = 1;
            }
        }
        assert!(max_run <= 3, "numeral for {} repeats a character more than three times", n);
    }
}

#[test]
fn test_tokenization_multi_mark_glyph() {
    assert_eq!(vinculum2arabic("I̲̿").unwrap(), 1000000000);
    assert_eq!(vinculum2arabic("I").unwrap(), 1);
    assert_eq!(vinculum2arabic("I̲̿I").unwrap(), 1000000001);
}

#[test]
fn test_subtractive_pairs() {
    assert_eq!(vinculum2arabic("IV").unwrap(), 4);
    assert_eq!(vinculum2arabic("IX").unwrap(), 9);
    assert_eq!(vinculum2arabic("CI̅").unwrap(), 900);
    assert_eq!(vinculum2arabic("I̅I̅I̅CI̅XCIX").unwrap(), 3999);
}

#[test]
fn test_monotonic_sample() {
    let samples: [u64; 8] = [1, 2, 9, 10, 999, 1000, 4000, 1000000];
    for (k, &a) in samples.iter().enumerate() {
        for &b in samples[k + 1..].iter() {
            assert_ne!(arabic2vinculum(a).unwrap(), arabic2vinculum(b).unwrap());
        }
    }
}

#[test]
fn test_decode_error_cases() {
    assert_eq!(vinculum2arabic(""), Err(DecodeError::ZeroResult));
    assert_eq!(vinculum2arabic("Q"), Err(DecodeError::UnknownGlyph));
    assert_eq!(vinculum2arabic("IQ"), Err(DecodeError::UnknownGlyph));
    assert_eq!(vinculum2arabic("M⃦̳̿"), Err(DecodeError::Overflow));
}

#[test]
fn test_encode_error_cases() {
    assert_eq!(arabic2vinculum(0), Err(EncodeError::ZeroValue));
    assert!(arabic2vinculum(u64::MAX).is_ok());
    assert_eq!(make_vinculum_number(21, 1), Err(EncodeError::UnsupportedTier));
    assert_eq!(make_vinculum_number(3, 0), Err(EncodeError::UnsupportedDigit));
    assert_eq!(make_vinculum_number(3, 10), Err(EncodeError::UnsupportedDigit));
    assert_eq!(make_vinculum(0, ("I", "V", "X")), Err(EncodeError::UnsupportedDigit));
    assert_eq!(make_vinculum(10, ("I", "V", "X")), Err(EncodeError::UnsupportedDigit));
}

#[test]
fn test_literal_scenarios() {
    assert_eq!(arabic2vinculum(1776).unwrap(), "I̅DCCLXXVI");
    assert_eq!(arabic2vinculum(3999).unwrap(), "I̅I̅I̅CI̅XCIX");
    assert_eq!(vinculum2arabic("X̅X̅V̅CDLIX").unwrap(), 25459);
    assert_eq!(arabic2vinculum(4000).unwrap(), "I̅V̅");
    assert_eq!(vinculum2arabic("M̅M̅M̅").unwrap(), 3000000);
}

#[test]
fn test_value_lookup() {
    assert_eq!(value("I").unwrap(), 1);
    assert_eq!(value("M").unwrap(), 1000);
    assert_eq!(value("I̅").unwrap(), 1000);
    assert_eq!(value("I̲̿").unwrap(), 1000000000);
    assert_eq!(value("M⃦̳̿").unwrap(), 1000000000000000000000);
    assert_eq!(value("Q"), Err(DecodeError::UnknownGlyph));
    assert_eq!(value(""), Err(DecodeError::UnknownGlyph));
}

#[test]
fn test_make_vinculum_patterns() {
    let triple = ("I", "V", "X");
    assert_eq!(make_vinculum(1, triple).unwrap(), "I");
    assert_eq!(make_vinculum(3, triple).unwrap(), "III");
    assert_eq!(make_vinculum(4, triple).unwrap(), "IV");
    assert_eq!(make_vinculum(6, triple).unwrap(), "VI");
    assert_eq!(make_vinculum(8, triple).unwrap(), "VIII");
    assert_eq!(make_vinculum(9, triple).unwrap(), "IX");
    assert_eq!(make_vinculum_number(4, 4).unwrap(), "X̅L̅");
}
