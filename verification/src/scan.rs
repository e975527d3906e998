//! Finding the first place in a sequence at which something holds.

use vstd::prelude::*;

verus! {

/// The least position of `flags` that holds `true`, or the length of `flags`
/// where no position does.
pub open spec fn first_true(flags: Seq<bool>) -> int
    decreases flags.len(),
{
    if flags.len() == 0 || flags[0] {
        0
    } else {
        1 + first_true(flags.skip(1))
    }
}

/// `first_true` stays within the sequence, passes over `false` only, and
/// stops on `true` unless it reaches the end.
pub proof fn lemma_first_true(flags: Seq<bool>)
    ensures
        0 <= first_true(flags) <= flags.len(),
        forall|j: int| 0 <= j < first_true(flags) ==> !flags[j],
        first_true(flags) < flags.len() ==> flags[first_true(flags)],
    decreases flags.len(),
{
    if flags.len() == 0 || flags[0] {
    } else {
        let rest = flags.skip(1);
        lemma_first_true(rest);
        assert forall|j: int| 0 <= j < first_true(flags) implies !flags[j] by {
            if j > 0 {
                assert(rest[j - 1] == flags[j]);
            }
        }
        if first_true(flags) < flags.len() {
            assert(rest[first_true(rest)] == flags[first_true(flags)]);
        }
    }
}

/// A position that passes over `false` only, and holds `true` or is the end,
/// is the one that `first_true` gives.
pub proof fn lemma_first_true_at(flags: Seq<bool>, k: int)
    requires
        0 <= k <= flags.len(),
        forall|j: int| 0 <= j < k ==> !flags[j],
        k == flags.len() || flags[k],
    ensures
        first_true(flags) == k,
{
    lemma_first_true(flags);
}

} // verus!
