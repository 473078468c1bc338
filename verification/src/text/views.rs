//! The texts that strings, and vectors of strings, hold.
use vstd::prelude::*;

verus! {

/// The texts that a vector of strings holds.
pub open spec fn strs(v: Seq<String>) -> Seq<Seq<char>> {
    v.map_values(|s: String| s@)
}

/// The text of an optional string.
pub open spec fn opt(o: Option<String>) -> Option<Seq<char>> {
    match o {
        Some(s) => Some(s@),
        None => None,
    }
}

/// The text of a result and that of an error.
pub open spec fn res(r: Result<String, String>) -> Result<Seq<char>, Seq<char>> {
    match r {
        Ok(s) => Ok(s@),
        Err(e) => Err(e@),
    }
}

/// A result with the text of its error.
pub open spec fn err<T>(r: Result<T, String>) -> Result<T, Seq<char>> {
    match r {
        Ok(t) => Ok(t),
        Err(e) => Err(e@),
    }
}

/// The texts of a vector of pairs of strings.
pub open spec fn pairs(v: Seq<(String, String)>) -> Seq<(Seq<char>, Seq<char>)> {
    v.map_values(|e: (String, String)| (e.0@, e.1@))
}

/// The command lines that a vector holds.
pub open spec fn lists(v: Seq<Vec<String>>) -> Seq<Seq<Seq<char>>> {
    v.map_values(|l: Vec<String>| strs(l@))
}

/// Appending a string appends its text.
pub broadcast proof fn lemma_strs_push(v: Seq<String>, s: String)
    ensures
        #[trigger] strs(v.push(s)) == strs(v).push(s@),
{
    assert(strs(v.push(s)) =~= strs(v).push(s@));
}

/// No strings hold no texts.
pub broadcast proof fn lemma_strs_empty()
    ensures
        #[trigger] strs(Seq::<String>::empty()) == Seq::<Seq<char>>::empty(),
{
    assert(strs(Seq::<String>::empty()) =~= Seq::<Seq<char>>::empty());
}

/// Appending a pair appends its texts.
pub broadcast proof fn lemma_pairs_push(v: Seq<(String, String)>, e: (String, String))
    ensures
        #[trigger] pairs(v.push(e)) == pairs(v).push((e.0@, e.1@)),
{
    assert(pairs(v.push(e)) =~= pairs(v).push((e.0@, e.1@)));
}

/// No pairs hold no texts.
pub broadcast proof fn lemma_pairs_empty()
    ensures
        #[trigger] pairs(Seq::<(String, String)>::empty()) == Seq::<
            (Seq<char>, Seq<char>),
        >::empty(),
{
    assert(pairs(Seq::<(String, String)>::empty()) =~= Seq::<(Seq<char>, Seq<char>)>::empty());
}

/// Appending a command line appends its texts.
pub broadcast proof fn lemma_lists_push(v: Seq<Vec<String>>, l: Vec<String>)
    ensures
        #[trigger] lists(v.push(l)) == lists(v).push(strs(l@)),
{
    assert(lists(v.push(l)) =~= lists(v).push(strs(l@)));
}

/// No command lines hold no texts.
pub broadcast proof fn lemma_lists_empty()
    ensures
        #[trigger] lists(Seq::<Vec<String>>::empty()) == Seq::<Seq<Seq<char>>>::empty(),
{
    assert(lists(Seq::<Vec<String>>::empty()) =~= Seq::<Seq<Seq<char>>>::empty());
}

/// What is known of the texts of a growing vector.
pub broadcast group group_views {
    lemma_strs_push,
    lemma_strs_empty,
    lemma_pairs_push,
    lemma_pairs_empty,
    lemma_lists_push,
    lemma_lists_empty,
}

} // verus!
