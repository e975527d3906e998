//! The profile of one sector: a height over the sector's width, written in a
//! small language of tokens.
//!
//! A profile is text whose tokens are separated by single spaces. A token
//! that holds a comma is a pair, `value,position`: the height `value` at the
//! place `position` of the sector's width, both numerals, the width running
//! from `0` to `30`. Any other token is a literal, most often a command
//! letter, which is handed through as it stands. The second token and the
//! last one must be pairs: they say where the profile starts and where it
//! ends.

use vstd::prelude::*;
use crate::numeral::{is_numeral, numeral};
use crate::scan::{first_true, lemma_first_true};
use crate::text::{
    contains_char,
    find,
    has_char,
    lemma_find,
    lemma_split_on,
    same_text,
    split,
    split_on,
};

verus! {

/// One token of a profile.
#[derive(Debug, PartialEq, Eq)]
pub enum Token {
    /// A token without a comma, kept as written.
    Literal(String),
    /// A height and the place along the sector's width where it holds.
    Pair { value: String, position: String },
}

/// What a token is, as plain text.
pub enum TokenView {
    Literal(Seq<char>),
    Pair { value: Seq<char>, position: Seq<char> },
}

impl View for Token {
    type V = TokenView;

    open spec fn view(&self) -> TokenView {
        match self {
            Token::Literal(word) => TokenView::Literal(word@),
            Token::Pair { value, position } => TokenView::Pair {
                value: value@,
                position: position@,
            },
        }
    }
}

impl DeepView for Token {
    type V = TokenView;

    open spec fn deep_view(&self) -> TokenView {
        self@
    }
}

/// Why a text is no profile.
#[derive(Debug, Clone, Copy, PartialEq, Eq)]
pub enum ProfileError {
    /// There are fewer than two tokens, so nothing says where the profile
    /// starts.
    MissingStart,
    /// The second token holds no comma.
    StartWithoutComma,
    /// The last token holds no comma.
    EndWithoutComma,
    /// The pair at this place among the tokens holds a value or a position
    /// that is no numeral; no pair before it does.
    NotANumeral { token: usize },
}

/// The position that stands for the left edge of a sector.
pub open spec fn left_edge() -> Seq<char> {
    "0"@
}

/// The position that stands for the right edge of a sector. A profile
/// reaches the edge only where its last position is written exactly so:
/// `30.0` names the same place and still counts as short of the edge.
pub open spec fn right_edge() -> Seq<char> {
    "30"@
}

/// The text of a profile as it is read in the sector with the given index:
/// in every sector but the first a leading `M` becomes `L`, so that the
/// sector carries on the path that the first one began.
pub open spec fn continued(text: Seq<char>, sector: nat) -> Seq<char> {
    if sector > 0 && text.len() > 0 && text[0] == 'M' {
        seq!['L'] + text.skip(1)
    } else {
        text
    }
}

/// The token that a word stands for: a pair of its first two fields where it
/// holds a comma, a literal where it holds none.
pub open spec fn token_of(word: Seq<char>) -> TokenView {
    let fields = split_on(word, ',');
    if fields.len() >= 2 {
        TokenView::Pair { value: fields[0], position: fields[1] }
    } else {
        TokenView::Literal(word)
    }
}

/// The tokens of a profile text in the sector with the given index.
pub open spec fn tokens_of(text: Seq<char>, sector: nat) -> Seq<TokenView> {
    split_on(continued(text, sector), ' ').map_values(|word: Seq<char>| token_of(word))
}

/// Whether a token is a pair.
pub open spec fn is_pair(token: TokenView) -> bool {
    token is Pair
}

/// The position of a pair; a literal has none, and gives the empty text.
pub open spec fn position_of(token: TokenView) -> Seq<char> {
    match token {
        TokenView::Pair { value, position } => position,
        TokenView::Literal(_) => Seq::empty(),
    }
}

/// Whether a token holds numerals wherever it holds numbers.
pub open spec fn is_numeric(token: TokenView) -> bool {
    match token {
        TokenView::Pair { value, position } => is_numeral(value) && is_numeral(position),
        TokenView::Literal(_) => true,
    }
}

/// For each token, whether it fails to be numeric.
pub open spec fn unnumeric(tokens: Seq<TokenView>) -> Seq<bool> {
    Seq::new(tokens.len(), |i: int| !is_numeric(tokens[i]))
}

/// The place of the first token that is not numeric, or the number of tokens
/// where all are.
pub open spec fn first_unnumeric(tokens: Seq<TokenView>) -> int {
    first_true(unnumeric(tokens))
}

/// What is wrong with a sequence of tokens as a profile, if anything.
pub open spec fn fault_of(tokens: Seq<TokenView>) -> Option<ProfileError> {
    if tokens.len() < 2 {
        Some(ProfileError::MissingStart)
    } else if !is_pair(tokens[1]) {
        Some(ProfileError::StartWithoutComma)
    } else if !is_pair(tokens.last()) {
        Some(ProfileError::EndWithoutComma)
    } else if first_unnumeric(tokens) < tokens.len() {
        Some(ProfileError::NotANumeral { token: first_unnumeric(tokens) as usize })
    } else {
        None
    }
}

/// The position at which a profile starts.
pub open spec fn start_of(tokens: Seq<TokenView>) -> Seq<char> {
    position_of(tokens[1])
}

/// The position at which a profile ends.
pub open spec fn end_of(tokens: Seq<TokenView>) -> Seq<char> {
    position_of(tokens.last())
}

/// Whether a profile starts short of the left edge.
pub open spec fn opens_late(tokens: Seq<TokenView>) -> bool {
    start_of(tokens) != left_edge()
}

/// Whether a profile ends short of the right edge.
pub open spec fn closes_early(tokens: Seq<TokenView>) -> bool {
    end_of(tokens) != right_edge()
}

/// How many of the tokens are pairs.
pub open spec fn pair_count(tokens: Seq<TokenView>) -> nat
    decreases tokens.len(),
{
    if tokens.len() == 0 {
        0
    } else if is_pair(tokens.last()) {
        pair_count(tokens.drop_last()) + 1
    } else {
        pair_count(tokens.drop_last())
    }
}

/// `first_unnumeric` stays within the tokens, passes over numeric tokens
/// only, and stops on one that is not numeric unless it reaches the end.
pub proof fn lemma_first_unnumeric(tokens: Seq<TokenView>)
    ensures
        0 <= first_unnumeric(tokens) <= tokens.len(),
        forall|j: int| 0 <= j < first_unnumeric(tokens) ==> is_numeric(tokens[j]),
        first_unnumeric(tokens) < tokens.len() ==> !is_numeric(tokens[first_unnumeric(tokens)]),
{
    let flags = unnumeric(tokens);
    lemma_first_true(flags);
    assert forall|j: int| 0 <= j < first_unnumeric(tokens) implies is_numeric(tokens[j]) by {
        assert(!flags[j]);
    }
    if first_unnumeric(tokens) < tokens.len() {
        assert(flags[first_unnumeric(tokens)]);
    }
}

/// A word stands for a pair exactly where it holds a comma.
pub proof fn lemma_pair_has_comma(word: Seq<char>)
    ensures
        is_pair(token_of(word)) <==> has_char(word, ','),
{
    lemma_find(word, ',');
    lemma_split_on(word.skip(find(word, ',') + 1), ',');
}

/// A text has at least one token, whatever it holds.
pub proof fn lemma_some_token(text: Seq<char>, sector: nat)
    ensures
        tokens_of(text, sector).len() >= 1,
{
    lemma_split_on(continued(text, sector), ' ');
}

fn continue_path(text: &str, sector: usize) -> (line: String)
    ensures
        line@ == continued(text@, sector as nat),
{
    let n: usize = text.unicode_len();
    if sector > 0 && n > 0 && text.get_char(0) == 'M' {
        let mut line = String::from_str("L");
        line.append(text.substring_char(1, n));
        proof {
            reveal_strlit("L");
            assert(line@ =~= seq!['L'] + text@.skip(1));
        }
        line
    } else {
        String::from_str(text)
    }
}

impl Token {
    /// Reads one word of a profile as a token.
    pub fn read(word: &str) -> (token: Token)
        ensures
            token@ == token_of(word@),
            is_pair(token@) <==> has_char(word@, ','),
    {
        proof {
            lemma_pair_has_comma(word@);
        }
        if contains_char(word, ',') {
            let fields = split(word, ',');
            assert(fields.deep_view().len() == fields@.len());
            assert(fields.deep_view()[0] == fields@[0]@);
            assert(fields.deep_view()[1] == fields@[1]@);
            Token::Pair { value: fields[0].clone(), position: fields[1].clone() }
        } else {
            Token::Literal(String::from_str(word))
        }
    }

    /// Tells whether the token is a pair.
    pub fn has_position(&self) -> (yes: bool)
        ensures
            yes == is_pair(self@),
    {
        match self {
            Token::Pair { .. } => true,
            Token::Literal(_) => false,
        }
    }

    /// Tells whether the token holds numerals wherever it holds numbers.
    pub fn numeric(&self) -> (yes: bool)
        ensures
            yes == is_numeric(self@),
    {
        match self {
            Token::Pair { value, position } => numeral(value.as_str()) && numeral(
                position.as_str(),
            ),
            Token::Literal(_) => true,
        }
    }
}

/// Cuts a profile text into its tokens, as read in the sector with the given
/// index.
pub fn tokenize(text: &str, sector: usize) -> (tokens: Vec<Token>)
    ensures
        tokens.deep_view() == tokens_of(text@, sector as nat),
        tokens@.len() >= 1,
{
    proof {
        lemma_some_token(text@, sector as nat);
    }
    let line = continue_path(text, sector);
    let words = split(line.as_str(), ' ');
    let mut tokens: Vec<Token> = Vec::new();
    let mut i: usize = 0;
    assert(words.deep_view().len() == words@.len());
    while i < words.len()
        invariant
            i <= words@.len(),
            tokens@.len() == i,
            forall|j: int| 0 <= j < i ==> (#[trigger] tokens@[j])@ == token_of(words@[j]@),
        decreases words@.len() - i,
    {
        tokens.push(Token::read(words[i].as_str()));
        i += 1;
    }
    proof {
        let wanted = tokens_of(text@, sector as nat);
        assert(wanted.len() == tokens@.len());
        assert forall|j: int| 0 <= j < tokens@.len() implies tokens.deep_view()[j] == wanted[j] by {
            assert(words.deep_view()[j] == words@[j]@);
            assert(tokens.deep_view()[j] == tokens@[j]@);
        }
        assert(tokens.deep_view() =~= wanted);
    }
    tokens
}

/// Says what is wrong with the tokens as a profile, if anything.
pub fn check(tokens: &Vec<Token>) -> (fault: Option<ProfileError>)
    ensures
        fault == fault_of(tokens.deep_view()),
{
    let ghost all = tokens.deep_view();
    let n: usize = tokens.len();
    assert(all.len() == n);
    if n < 2 {
        return Some(ProfileError::MissingStart);
    }
    assert(all[1] == tokens@[1]@);
    assert(all.last() == tokens@[n - 1]@);
    if !tokens[1].has_position() {
        return Some(ProfileError::StartWithoutComma);
    }
    if !tokens[n - 1].has_position() {
        return Some(ProfileError::EndWithoutComma);
    }
    proof {
        lemma_first_unnumeric(all);
    }
    let mut i: usize = 0;
    while i < n
        invariant
            n == tokens@.len(),
            all == tokens.deep_view(),
            2 <= n,
            is_pair(all[1]),
            is_pair(all.last()),
            i <= n,
            forall|j: int| 0 <= j < i ==> is_numeric(all[j]),
        decreases n - i,
    {
        assert(all[i as int] == tokens@[i as int]@);
        if !tokens[i].numeric() {
            proof {
                lemma_first_unnumeric(all);
            }
            return Some(ProfileError::NotANumeral { token: i });
        }
        i += 1;
    }
    proof {
        lemma_first_unnumeric(all);
    }
    None
}

/// A profile that has been read and found sound: it has a start and an end,
/// and numerals wherever it holds numbers.
pub struct Profile {
    tokens: Vec<Token>,
}

impl View for Profile {
    type V = Seq<TokenView>;

    closed spec fn view(&self) -> Seq<TokenView> {
        self.tokens.deep_view()
    }
}

impl DeepView for Profile {
    type V = Seq<TokenView>;

    open spec fn deep_view(&self) -> Seq<TokenView> {
        self@
    }
}

impl Profile {
    #[verifier::type_invariant]
    spec fn sound(self) -> bool {
        fault_of(self.tokens.deep_view()) is None
    }

    /// Reads the profile of the sector with the given index. The text is
    /// refused exactly where `fault_of` finds a fault in its tokens, and with
    /// that fault.
    pub fn parse(text: &str, sector: usize) -> (result: Result<Profile, ProfileError>)
        ensures
            match result {
                Ok(profile) => fault_of(tokens_of(text@, sector as nat)) is None && profile@
                    == tokens_of(text@, sector as nat),
                Err(fault) => fault_of(tokens_of(text@, sector as nat)) == Some(fault),
            },
    {
        let tokens = tokenize(text, sector);
        match check(&tokens) {
            Some(fault) => Err(fault),
            None => Ok(Profile { tokens }),
        }
    }

    /// The tokens, in the order in which they were written.
    pub fn tokens(&self) -> (tokens: &Vec<Token>)
        ensures
            tokens.deep_view() == self@,
            fault_of(self@) is None,
    {
        proof {
            use_type_invariant(self);
        }
        &self.tokens
    }

    /// The number of pairs among the tokens: the number of points that the
    /// profile places.
    pub fn pairs(&self) -> (count: usize)
        ensures
            count == pair_count(self@),
    {
        let ghost all = self.tokens.deep_view();
        let n: usize = self.tokens.len();
        let mut count: usize = 0;
        let mut i: usize = 0;
        assert(all.take(0) =~= Seq::empty());
        while i < n
            invariant
                n == self.tokens@.len(),
                all == self.tokens.deep_view(),
                i <= n,
                count == pair_count(all.take(i as int)),
                count <= i,
            decreases n - i,
        {
            proof {
                assert(all[i as int] == self.tokens@[i as int]@);
                assert(all.take(i + 1).drop_last() =~= all.take(i as int));
                assert(all.take(i + 1).last() == all[i as int]);
            }
            if self.tokens[i].has_position() {
                count += 1;
            }
            i += 1;
        }
        assert(all.take(n as int) =~= all);
        count
    }

    /// The position at which the profile starts: that of its second token.
    pub fn start_position(&self) -> (position: &String)
        ensures
            position@ == start_of(self@),
    {
        proof {
            use_type_invariant(self);
            assert(self.tokens.deep_view()[1] == self.tokens@[1]@);
        }
        match &self.tokens[1] {
            Token::Pair { position, .. } => position,
            Token::Literal(word) => word,
        }
    }

    /// The position at which the profile ends: that of its last token.
    pub fn end_position(&self) -> (position: &String)
        ensures
            position@ == end_of(self@),
    {
        proof {
            use_type_invariant(self);
            assert(self.tokens.deep_view().last() == self.tokens@[self.tokens@.len() - 1]@);
        }
        match &self.tokens[self.tokens.len() - 1] {
            Token::Pair { position, .. } => position,
            Token::Literal(word) => word,
        }
    }

    /// Tells whether the profile starts short of the sector's left edge: its
    /// first position is anything but the text `0`.
    pub fn starts_late(&self) -> (late: bool)
        ensures
            late == opens_late(self@),
    {
        !same_text(self.start_position().as_str(), "0")
    }

    /// Tells whether the profile ends short of the sector's right edge: its
    /// last position is anything but the text `30`.
    pub fn ends_early(&self) -> (early: bool)
        ensures
            early == closes_early(self@),
    {
        !same_text(self.end_position().as_str(), "30")
    }
}

} // verus!
