//! Reading command lines.
use vstd::prelude::*;

use crate::git::call::{CallView, Console};

verus! {

/// Whether a program is run with two words first and then with options, and nothing else is
/// arranged: nothing is added to its environment, and what it writes is captured.
pub open spec fn runs(
    c: CallView,
    program: Seq<char>,
    first: Seq<char>,
    second: Seq<char>,
) -> bool {
    &&& c.program == program
    &&& c.args.len() >= 2
    &&& c.args[0] == first
    &&& c.args[1] == second
    &&& c.env.len() == 0
    &&& c.console == Console::Captured
}

/// Whether an option stands at a place. The options follow two words, each with its value
/// after it.
pub open spec fn stands(args: Seq<Seq<char>>, flag: Seq<char>, i: int) -> bool {
    2 <= i && i % 2 == 0 && i + 1 < args.len() && args[i] == flag
}

/// Whether an option is given, and given this value alone.
pub open spec fn gives(c: CallView, flag: Seq<char>, value: Seq<char>) -> bool {
    &&& exists|i: int| #[trigger] stands(c.args, flag, i)
    &&& forall|i: int| #[trigger] stands(c.args, flag, i) ==> c.args[i + 1] == value
}

/// An option that stands in one place only.
pub proof fn lemma_gives(c: CallView, flag: Seq<char>, value: Seq<char>, at: int)
    requires
        stands(c.args, flag, at),
        c.args[at + 1] == value,
        forall|i: int|
            2 <= i && i % 2 == 0 && i + 1 < c.args.len() && i != at ==> #[trigger] c.args[i]
                != flag,
    ensures
        gives(c, flag, value),
{
    assert forall|i: int| #[trigger] stands(c.args, flag, i) implies c.args[i + 1] == value by {
        if i != at {
            assert(c.args[i] != flag);
        }
    }
}

} // verus!
