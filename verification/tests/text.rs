use stationary_cam::text::{contains_char, format_decimal, same_text, split};

fn words(parts: &[&str]) -> Vec<String> {
    parts.iter().map(|part| part.to_string()).collect()
}

#[test]
fn split_cuts_at_every_separator() {
    assert_eq!(split("M 0,0 L 0,30", ' '), words(&["M", "0,0", "L", "0,30"]));
    assert_eq!(split("0,30", ','), words(&["0", "30"]));
    assert_eq!(split("1,2,3", ','), words(&["1", "2", "3"]));
}

#[test]
fn split_keeps_empty_pieces() {
    assert_eq!(split("", ' '), words(&[""]));
    assert_eq!(split(" ", ' '), words(&["", ""]));
    assert_eq!(split("a  b", ' '), words(&["a", "", "b"]));
    assert_eq!(split(" a", ' '), words(&["", "a"]));
    assert_eq!(split("a ", ' '), words(&["a", ""]));
    assert_eq!(split(",", ','), words(&["", ""]));
}

#[test]
fn split_without_separator_gives_the_whole() {
    assert_eq!(split("M", ' '), words(&["M"]));
    assert_eq!(split("0,30", ' '), words(&["0,30"]));
}

#[test]
fn split_counts_characters_not_bytes() {
    assert_eq!(split("é è", ' '), words(&["é", "è"]));
    assert_eq!(split("ä,ö,ü", ','), words(&["ä", "ö", "ü"]));
}

#[test]
fn split_agrees_with_the_standard_library() {
    let samples = [
        "", " ", "  ", "M 0,0 L 0,30", " M 0,0", "M 0,0 ", "a,b,,c", ",,", "x", "é, ü ,",
    ];
    for sample in samples {
        for sep in [' ', ','] {
            let expected: Vec<String> = sample.split(sep).map(|piece| piece.to_string()).collect();
            assert_eq!(split(sample, sep), expected);
        }
    }
}

#[test]
fn joined_pieces_give_the_text_back() {
    let samples = ["", " ", "M 0,0 L 0,30", "a  b ", "é è"];
    for sample in samples {
        let pieces = split(sample, ' ');
        assert!(!pieces.is_empty());
        for piece in &pieces {
            assert!(!contains_char(piece, ' '));
        }
        assert_eq!(pieces.join(" "), sample);
    }
}

#[test]
fn contains_char_finds_what_is_there() {
    assert!(contains_char("0,30", ','));
    assert!(!contains_char("M", ','));
    assert!(!contains_char("", ','));
    assert!(contains_char(",", ','));
}

#[test]
fn same_text_compares_characters() {
    assert!(same_text("30", "30"));
    assert!(!same_text("30", "30.0"));
    assert!(!same_text("30", "3"));
    assert!(!same_text("30", "31"));
    assert!(same_text("", ""));
    assert!(!same_text("", "0"));
}

#[test]
fn decimal_numerals() {
    assert_eq!(format_decimal(0), "0");
    assert_eq!(format_decimal(7), "7");
    assert_eq!(format_decimal(10), "10");
    assert_eq!(format_decimal(100), "100");
    assert_eq!(format_decimal(1234567890), "1234567890");
    assert_eq!(format_decimal(usize::MAX), usize::MAX.to_string());
}

#[test]
fn decimal_numerals_agree_with_the_standard_library() {
    for n in 0..2000usize {
        assert_eq!(format_decimal(n), n.to_string());
    }
}
