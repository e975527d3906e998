use stationary_cam::profile::{check, tokenize, Profile, ProfileError, Token};

fn literal(word: &str) -> Token {
    Token::Literal(word.to_string())
}

fn pair(value: &str, position: &str) -> Token {
    Token::Pair {
        value: value.to_string(),
        position: position.to_string(),
    }
}

fn fault(text: &str, sector: usize) -> Option<ProfileError> {
    match Profile::parse(text, sector) {
        Ok(_) => None,
        Err(fault) => Some(fault),
    }
}

fn parsed(text: &str, sector: usize) -> Profile {
    match Profile::parse(text, sector) {
        Ok(profile) => profile,
        Err(fault) => panic!("{text:?} has the fault {fault:?}"),
    }
}

#[test]
fn a_profile_is_cut_into_tokens() {
    assert_eq!(
        tokenize("M 0,0 L 0,30", 0),
        vec![literal("M"), pair("0", "0"), literal("L"), pair("0", "30")]
    );
}

#[test]
fn a_leading_m_becomes_l_in_later_sectors() {
    assert_eq!(
        tokenize("M 0,0 L 0,30", 1),
        vec![literal("L"), pair("0", "0"), literal("L"), pair("0", "30")]
    );
    assert_eq!(
        tokenize("M 0,0 L 0,30", 3),
        vec![literal("L"), pair("0", "0"), literal("L"), pair("0", "30")]
    );
}

#[test]
fn only_a_leading_m_is_replaced() {
    assert_eq!(
        tokenize("L 0,0 M 0,30", 2),
        vec![literal("L"), pair("0", "0"), literal("M"), pair("0", "30")]
    );
    assert_eq!(
        tokenize("M 0,0 M 0,30", 2),
        vec![literal("L"), pair("0", "0"), literal("M"), pair("0", "30")]
    );
    assert_eq!(tokenize(" M 1,2", 1), vec![literal(""), literal("M"), pair("1", "2")]);
    assert_eq!(tokenize("Move 1,2", 1), vec![literal("Love"), pair("1", "2")]);
}

#[test]
fn the_first_sector_keeps_its_m() {
    assert_eq!(tokenize("M 1,2", 0), vec![literal("M"), pair("1", "2")]);
}

#[test]
fn a_token_without_a_comma_is_a_literal() {
    assert_eq!(Token::read("L"), literal("L"));
    assert_eq!(Token::read(""), literal(""));
    assert_eq!(Token::read("30"), literal("30"));
}

#[test]
fn a_token_with_a_comma_is_a_pair_of_its_first_two_fields() {
    assert_eq!(Token::read("5,25"), pair("5", "25"));
    assert_eq!(Token::read(","), pair("", ""));
    assert_eq!(Token::read("1,"), pair("1", ""));
    assert_eq!(Token::read(",2"), pair("", "2"));
    assert_eq!(Token::read("1,2,3"), pair("1", "2"));
}

#[test]
fn tokens_know_their_kind() {
    assert!(pair("1", "2").has_position());
    assert!(!literal("L").has_position());
    assert!(pair("1", "2").numeric());
    assert!(literal("anything").numeric());
    assert!(!pair("x", "2").numeric());
    assert!(!pair("1", "y").numeric());
    assert!(!pair("", "").numeric());
}

#[test]
fn a_sound_profile_parses() {
    let profile = parsed("M 0,0 L 0,30", 0);
    assert_eq!(
        profile.tokens(),
        &vec![literal("M"), pair("0", "0"), literal("L"), pair("0", "30")]
    );
    assert_eq!(profile.pairs(), 2);
    assert_eq!(profile.start_position(), "0");
    assert_eq!(profile.end_position(), "30");
}

#[test]
fn a_profile_may_be_one_pair_after_a_letter() {
    let profile = parsed("M 3,7", 0);
    assert_eq!(profile.pairs(), 1);
    assert_eq!(profile.start_position(), "7");
    assert_eq!(profile.end_position(), "7");
}

#[test]
fn a_profile_may_hold_any_literals_between_its_ends() {
    let profile = parsed("M 0,0 C  z 1,15 L 0,30", 0);
    assert_eq!(profile.tokens().len(), 8);
    assert_eq!(profile.pairs(), 3);
}

#[test]
fn too_few_tokens() {
    assert_eq!(fault("", 0), Some(ProfileError::MissingStart));
    assert_eq!(fault("M", 0), Some(ProfileError::MissingStart));
    assert_eq!(fault("0,30", 0), Some(ProfileError::MissingStart));
}

#[test]
fn the_second_token_must_be_a_pair() {
    assert_eq!(fault("M L 0,30", 0), Some(ProfileError::StartWithoutComma));
    assert_eq!(fault("M  0,0 L 0,30", 0), Some(ProfileError::StartWithoutComma));
    assert_eq!(fault(" M 0,0 L 0,30", 0), Some(ProfileError::StartWithoutComma));
    assert_eq!(fault("M\t0,0 L 0,30", 0), Some(ProfileError::StartWithoutComma));
}

#[test]
fn the_last_token_must_be_a_pair() {
    assert_eq!(fault("M 0,0 L", 0), Some(ProfileError::EndWithoutComma));
    assert_eq!(fault("M 0,0 L 0,30 ", 0), Some(ProfileError::EndWithoutComma));
    assert_eq!(fault("M 0,0 L 0,30 z", 0), Some(ProfileError::EndWithoutComma));
}

#[test]
fn every_pair_must_hold_numerals() {
    assert_eq!(fault("M a,0 L 0,30", 0), Some(ProfileError::NotANumeral { token: 1 }));
    assert_eq!(fault("M 0,b L 0,30", 0), Some(ProfileError::NotANumeral { token: 1 }));
    assert_eq!(fault("M 0,0 L 0,", 0), Some(ProfileError::NotANumeral { token: 3 }));
    assert_eq!(fault("M 0,0 L ,30", 0), Some(ProfileError::NotANumeral { token: 3 }));
    assert_eq!(fault("M 0,0 1,x 2,y 0,30", 0), Some(ProfileError::NotANumeral { token: 2 }));
    assert_eq!(fault("x,y 0,0", 0), Some(ProfileError::NotANumeral { token: 0 }));
}

#[test]
fn faults_of_the_frame_come_before_faults_of_numbers() {
    assert_eq!(fault("a,b L 0,30", 0), Some(ProfileError::StartWithoutComma));
    assert_eq!(fault("M a,b L", 0), Some(ProfileError::EndWithoutComma));
    assert_eq!(fault("M L", 0), Some(ProfileError::StartWithoutComma));
}

#[test]
fn check_names_the_fault_of_given_tokens() {
    assert_eq!(check(&vec![]), Some(ProfileError::MissingStart));
    assert_eq!(check(&vec![literal("M"), pair("0", "0")]), None);
    assert_eq!(
        check(&vec![literal("M"), literal("L")]),
        Some(ProfileError::StartWithoutComma)
    );
    assert_eq!(
        check(&vec![literal("M"), pair("0", "0"), literal("z")]),
        Some(ProfileError::EndWithoutComma)
    );
    assert_eq!(
        check(&vec![literal("M"), pair("0", "0"), pair("0", "zero")]),
        Some(ProfileError::NotANumeral { token: 2 })
    );
}

#[test]
fn a_profile_that_starts_at_zero_starts_at_the_edge() {
    assert!(!parsed("M 0,0 L 0,30", 0).starts_late());
    assert!(parsed("M 0,5 L 0,30", 0).starts_late());
    assert!(parsed("M 0,0.0 L 0,30", 0).starts_late());
    assert!(parsed("M 0,00 L 0,30", 0).starts_late());
    assert!(parsed("M 0,-0 L 0,30", 0).starts_late());
}

#[test]
fn a_profile_that_ends_at_thirty_ends_at_the_edge() {
    assert!(!parsed("M 0,0 L 0,30", 0).ends_early());
    assert!(parsed("M 0,0 L 0,25", 0).ends_early());
    assert!(parsed("M 0,0 L 0,3", 0).ends_early());
}

#[test]
fn thirty_written_otherwise_counts_as_a_gap() {
    assert!(parsed("M 0,0 L 0,30.0", 0).ends_early());
    assert!(parsed("M 0,0 L 0,30.", 0).ends_early());
    assert!(parsed("M 0,0 L 0,+30", 0).ends_early());
    assert!(parsed("M 0,0 L 0,3e1", 0).ends_early());
}

#[test]
fn the_edges_are_read_from_the_second_and_the_last_token() {
    let profile = parsed("M 1,5 L 2,0 L 3,30 L 4,25", 0);
    assert_eq!(profile.start_position(), "5");
    assert_eq!(profile.end_position(), "25");
    assert!(profile.starts_late());
    assert!(profile.ends_early());
}
