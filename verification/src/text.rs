//! Plain operations on text, stated over sequences of characters.
//!
//! Every function here reads a string as the sequence of its characters, so
//! that positions and lengths count characters, never bytes.

use vstd::prelude::*;
use crate::scan::{first_true, lemma_first_true, lemma_first_true_at};

verus! {

/// Whether `s` holds the character `c` somewhere.
pub open spec fn has_char(s: Seq<char>, c: char) -> bool {
    exists|i: int| 0 <= i < s.len() && s[i] == c
}

/// For each position of `s`, whether it holds `c`.
pub open spec fn marks(s: Seq<char>, c: char) -> Seq<bool> {
    Seq::new(s.len(), |i: int| s[i] == c)
}

/// The least position of `s` that holds `c`, or the length of `s` where no
/// position does.
pub open spec fn find(s: Seq<char>, c: char) -> int {
    first_true(marks(s, c))
}

/// `find` stays within the sequence, passes over no occurrence, and stops on
/// one unless it reaches the end.
pub proof fn lemma_find(s: Seq<char>, c: char)
    ensures
        0 <= find(s, c) <= s.len(),
        forall|j: int| 0 <= j < find(s, c) ==> s[j] != c,
        find(s, c) < s.len() ==> s[find(s, c)] == c,
        find(s, c) < s.len() <==> has_char(s, c),
{
    let flags = marks(s, c);
    lemma_first_true(flags);
    assert forall|j: int| 0 <= j < find(s, c) implies s[j] != c by {
        assert(!flags[j]);
    }
    if find(s, c) < s.len() {
        assert(flags[find(s, c)]);
    }
    if has_char(s, c) {
        let i = choose|i: int| 0 <= i < s.len() && s[i] == c;
        assert(flags[i]);
    }
}

/// A position that passes over no occurrence of `c`, and holds one or is the
/// end, is the one that `find` gives.
pub proof fn lemma_find_at(s: Seq<char>, c: char, k: int)
    requires
        0 <= k <= s.len(),
        forall|j: int| 0 <= j < k ==> s[j] != c,
        k == s.len() || s[k] == c,
    ensures
        find(s, c) == k,
{
    let flags = marks(s, c);
    assert forall|j: int| 0 <= j < k implies !flags[j] by {
        assert(s[j] != c);
    }
    lemma_first_true_at(flags, k);
}

/// The pieces that the occurrences of `sep` cut `s` into, in order. A sequence
/// with `n` occurrences has `n + 1` pieces; pieces may be empty.
pub open spec fn split_on(s: Seq<char>, sep: char) -> Seq<Seq<char>>
    decreases s.len(),
{
    let k = find(s, sep);
    if 0 <= k < s.len() {
        seq![s.take(k)] + split_on(s.skip(k + 1), sep)
    } else {
        seq![s]
    }
}

/// The pieces put together again, with `sep` between neighbours.
pub open spec fn join(parts: Seq<Seq<char>>, sep: char) -> Seq<char>
    decreases parts.len(),
{
    if parts.len() == 0 {
        Seq::empty()
    } else if parts.len() == 1 {
        parts[0]
    } else {
        parts[0] + seq![sep] + join(parts.skip(1), sep)
    }
}

/// Splitting loses nothing and leaves no separator behind: there is at least
/// one piece, no piece holds `sep`, and joining the pieces gives `s` back.
pub proof fn lemma_split_on(s: Seq<char>, sep: char)
    ensures
        split_on(s, sep).len() >= 1,
        forall|i: int| 0 <= i < split_on(s, sep).len() ==> !has_char(#[trigger] split_on(s, sep)[i], sep),
        join(split_on(s, sep), sep) == s,
    decreases s.len(),
{
    lemma_find(s, sep);
    let k = find(s, sep);
    if 0 <= k < s.len() {
        let rest = s.skip(k + 1);
        let tail = split_on(rest, sep);
        let all = split_on(s, sep);
        lemma_split_on(rest, sep);
        assert(all.skip(1) =~= tail);
        assert(all[0] == s.take(k));
        assert forall|i: int| 0 <= i < all.len() implies !has_char(#[trigger] all[i], sep) by {
            if i > 0 {
                assert(all[i] == tail[i - 1]);
            }
        }
        assert(s.take(k) + seq![sep] + rest =~= s);
    } else {
        assert(split_on(s, sep)[0] == s);
    }
}

/// Putting one more piece behind those already put together: the first
/// `i + 1` pieces give what the first `i` give, followed by piece `i`.
pub proof fn lemma_flatten_step(pieces: Seq<Seq<char>>, i: int)
    requires
        0 <= i < pieces.len(),
    ensures
        pieces.take(i + 1).flatten() == pieces.take(i).flatten() + pieces[i],
{
    assert(pieces.take(i + 1) =~= pieces.take(i).push(pieces[i]));
    pieces.take(i).lemma_flatten_push(pieces[i]);
}

/// Tells whether two strings hold the same characters.
pub fn same_text(a: &str, b: &str) -> (same: bool)
    ensures
        same == (a@ == b@),
{
    let n: usize = a.unicode_len();
    if b.unicode_len() != n {
        return false;
    }
    let mut i: usize = 0;
    while i < n
        invariant
            n == a@.len(),
            n == b@.len(),
            i <= n,
            forall|j: int| 0 <= j < i ==> a@[j] == b@[j],
        decreases n - i,
    {
        if a.get_char(i) != b.get_char(i) {
            return false;
        }
        i += 1;
    }
    assert(a@ =~= b@);
    true
}

/// Tells whether `text` holds the character `c`.
pub fn contains_char(text: &str, c: char) -> (found: bool)
    ensures
        found == has_char(text@, c),
{
    let n: usize = text.unicode_len();
    let mut i: usize = 0;
    while i < n
        invariant
            n == text@.len(),
            i <= n,
            forall|j: int| 0 <= j < i ==> text@[j] != c,
        decreases n - i,
    {
        if text.get_char(i) == c {
            return true;
        }
        i += 1;
    }
    false
}

/// Cuts `text` at every occurrence of `sep`.
pub fn split(text: &str, sep: char) -> (parts: Vec<String>)
    ensures
        parts.deep_view() == split_on(text@, sep),
{
    let n: usize = text.unicode_len();
    let mut parts: Vec<String> = Vec::new();
    let mut start: usize = 0;
    let mut i: usize = 0;
    proof {
        assert(text@.skip(0) =~= text@);
        assert(parts.deep_view() + split_on(text@, sep) =~= split_on(text@, sep));
    }
    while i < n
        invariant
            n == text@.len(),
            start <= i <= n,
            forall|j: int| start <= j < i ==> text@[j] != sep,
            parts.deep_view() + split_on(text@.skip(start as int), sep) == split_on(text@, sep),
        decreases n - i,
    {
        if text.get_char(i) == sep {
            let piece = String::from_str(text.substring_char(start, i));
            let ghost before = parts.deep_view();
            parts.push(piece);
            proof {
                let rest = text@.skip(start as int);
                let after = split_on(text@.skip(i + 1), sep);
                lemma_find_at(rest, sep, i - start);
                assert(rest.take(i - start) =~= piece@);
                assert(rest.skip(i - start + 1) =~= text@.skip(i + 1));
                assert(parts.deep_view() =~= before + seq![piece@]);
                assert(before + (seq![piece@] + after) =~= before + seq![piece@] + after);
            }
            start = i + 1;
        }
        i += 1;
    }
    let piece = String::from_str(text.substring_char(start, n));
    let ghost before = parts.deep_view();
    parts.push(piece);
    proof {
        let rest = text@.skip(start as int);
        lemma_find_at(rest, sep, n - start);
        assert(rest =~= piece@);
        assert(parts.deep_view() =~= before + seq![piece@]);
    }
    parts
}

/// The character that writes the digit `d`.
pub open spec fn digit(d: nat) -> char {
    seq!['0', '1', '2', '3', '4', '5', '6', '7', '8', '9'][d as int]
}

/// The decimal numeral of `n`: most significant digit first, no leading zero
/// but for zero itself.
pub open spec fn decimal(n: nat) -> Seq<char>
    decreases n,
{
    if n < 10 {
        seq![digit(n)]
    } else {
        decimal(n / 10).push(digit(n % 10))
    }
}

fn digit_text(d: usize) -> (text: &'static str)
    requires
        d < 10,
    ensures
        text@ == seq![digit(d as nat)],
{
    proof {
        reveal_strlit("0");
        reveal_strlit("1");
        reveal_strlit("2");
        reveal_strlit("3");
        reveal_strlit("4");
        reveal_strlit("5");
        reveal_strlit("6");
        reveal_strlit("7");
        reveal_strlit("8");
        reveal_strlit("9");
    }
    let text = match d {
        0 => "0",
        1 => "1",
        2 => "2",
        3 => "3",
        4 => "4",
        5 => "5",
        6 => "6",
        7 => "7",
        8 => "8",
        _ => "9",
    };
    assert(text@ =~= seq![digit(d as nat)]);
    text
}

/// Writes `n` as a decimal numeral.
pub fn format_decimal(n: usize) -> (text: String)
    ensures
        text@ == decimal(n as nat),
    decreases n,
{
    if n < 10 {
        String::from_str(digit_text(n))
    } else {
        let mut text = format_decimal(n / 10);
        text.append(digit_text(n % 10));
        assert(text@ =~= decimal(n as nat));
        text
    }
}

} // verus!
