//! Command lines.
use vstd::prelude::*;

use super::views;

verus! {

broadcast use views::group_views;

/// The texts of a slice of string slices.
pub open spec fn texts(parts: Seq<&str>) -> Seq<Seq<char>> {
    parts.map_values(|s: &str| s@)
}

/// The arguments of a command.
pub fn args(parts: &[&str]) -> (r: Vec<String>)
    ensures
        views::strs(r@) == texts(parts@),
{
    let mut r: Vec<String> = Vec::new();
    let mut i: usize = 0;
    while i < parts.len()
        invariant
            i <= parts@.len(),
            views::strs(r@) == texts(parts@.take(i as int)),
        decreases parts.len() - i,
    {
        r.push(parts[i].to_owned());
        proof {
            assert(texts(parts@.take(i + 1)) =~= texts(parts@.take(i as int)).push(
                parts@[i as int]@,
            ));
        }
        i += 1;
    }
    proof {
        assert(parts@.take(i as int) =~= parts@);
    }
    r
}

} // verus!
