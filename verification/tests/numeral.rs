use stationary_cam::numeral::numeral;

fn parses(text: &str) -> bool {
    text.parse::<f32>().is_ok()
}

#[test]
fn plain_numbers_are_numerals() {
    for text in ["0", "30", "5", "25", "007", "12.5", "30.0", "0.0", "1.", ".5"] {
        assert!(numeral(text), "{text}");
    }
}

#[test]
fn signs_and_exponents() {
    for text in ["+1", "-1", "-0", "+.5", "-5.", "1e5", "1E5", "1e+5", "1e-5", "1.e5", ".5e1", "-1.25e-3"] {
        assert!(numeral(text), "{text}");
    }
}

#[test]
fn named_values_in_either_case() {
    for text in ["inf", "INF", "Inf", "+inf", "-inf", "infinity", "Infinity", "INFINITY", "-infinity", "nan", "NaN", "NAN", "+nan", "-NaN"] {
        assert!(numeral(text), "{text}");
    }
}

#[test]
fn other_text_is_no_numeral() {
    for text in [
        "", "+", "-", ".", "+.", "e", "e5", ".e5", "1e", "1e+", "1e-", "1e5.", "1e5e5", "1..2",
        "1.2.3", "--1", "+-1", "1+", " 1", "1 ", "1_000", "0x10", "abc", "in", "infi", "infinit",
        "infinityy", "na", "nann", "i", "1,2", "١", "1f", "inf1", "+ 1", "M", "L",
    ] {
        assert!(!numeral(text), "{text}");
    }
}

#[test]
fn numerals_are_what_a_number_parses_from() {
    let letters = ['0', '7', '.', 'e', 'E', '+', '-', 'i', 'n', 'f', 'a', ' '];
    let mut texts: Vec<String> = vec![String::new()];
    let mut from = 0;
    for _ in 0..4 {
        let upto = texts.len();
        for at in from..upto {
            for letter in letters {
                let mut longer = texts[at].clone();
                longer.push(letter);
                texts.push(longer);
            }
        }
        from = upto;
    }
    assert_eq!(texts.len(), 1 + 12 + 144 + 1728 + 20736);
    for text in &texts {
        assert_eq!(numeral(text), parses(text), "{text:?}");
    }
}

#[test]
fn longer_numerals_are_what_a_number_parses_from() {
    let samples = [
        "infinity", "INFINITY", "InFiNiTy", "+infinity", "-Infinity", "infinitY", "infinit",
        "infinity ", "infinityx", "nan", "-nan", "nanx", "123456789012345678901234567890",
        "0.000000000000000000000000000000000000000000000001", "1e400", "1e-400", "1e+0007",
        "3.543307", "30", "30.0", "12.5e", "12.5e+", "12.5e+1", "1.5.5", "1e1.5", "+-1", "ınf",
        "İnf", "１２", "1\u{0}", "١٢",
    ];
    for text in samples {
        assert_eq!(numeral(text), parses(text), "{text:?}");
    }
}
