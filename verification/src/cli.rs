//! What the command line decides: whether to design at all, and what the
//! drawing is called.

use vstd::prelude::*;
use crate::text::same_text;

verus! {

/// How many characters of a description's name are its ending.
pub const ENDING: usize = 5;

/// Whether the arguments ask for the usage text rather than for a design:
/// they do unless they are the program's name and one more, and that one is
/// neither `-h` nor `--h`.
pub open spec fn asks_usage(args: Seq<Seq<char>>) -> bool {
    args.len() != 2 || args[1] == "-h"@ || args[1] == "--h"@
}

/// The name of the drawing for the description of the given name: the name
/// with its last five characters replaced by `.svg`. A shorter name has no
/// ending to replace, and gives no name.
pub open spec fn drawing_name(input: Seq<char>) -> Option<Seq<char>> {
    if input.len() < ENDING {
        None
    } else {
        Some(input.take(input.len() - ENDING) + ".svg"@)
    }
}

/// Tells whether the arguments ask for the usage text.
pub fn wants_usage(args: &Vec<String>) -> (yes: bool)
    ensures
        yes == asks_usage(args.deep_view()),
{
    assert(args.deep_view().len() == args@.len());
    if args.len() != 2 {
        return true;
    }
    assert(args.deep_view()[1] == args@[1]@);
    same_text(args[1].as_str(), "-h") || same_text(args[1].as_str(), "--h")
}

/// Names the drawing for the description of the given name.
pub fn output_name(input: &str) -> (name: Option<String>)
    ensures
        match name {
            Some(name) => drawing_name(input@) == Some(name@),
            None => drawing_name(input@) is None,
        },
{
    let n: usize = input.unicode_len();
    if n < ENDING {
        return None;
    }
    let mut name = String::from_str(input.substring_char(0, n - ENDING));
    name.append(".svg");
    assert(name@ =~= input@.take(input@.len() - ENDING) + ".svg"@);
    Some(name)
}

} // verus!
