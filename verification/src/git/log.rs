//! How the log of commits is read back.
use vstd::prelude::*;

use super::ops;
use crate::stack::{PatchStatus, PatchView};
use crate::text::chars;
use crate::text::lines;
use crate::text::pieces;
use crate::text::search;

verus! {

/// The record of a commit in the log: its hash, subject, body, author and date.
pub open spec fn record(c: PatchView) -> Seq<char> {
    c.hash + "\x1f"@ + (c.subject + "\x1f"@ + (c.body + "\x1f"@ + (c.author + "\x1f"@
        + c.timestamp)))
}

/// The log of commits: the record of each, a record separator and a line feed.
pub open spec fn logged(commits: Seq<PatchView>) -> Seq<char>
    decreases commits.len(),
{
    if commits.len() == 0 {
        seq![]
    } else {
        record(commits[0]) + "\x1e"@ + ("\n"@ + logged(commits.drop_first()))
    }
}

/// Whether a text is without a character.
pub open spec fn lacks(s: Seq<char>, c: char) -> bool {
    forall|i: int| 0 <= i < s.len() ==> #[trigger] s[i] != c
}

/// Whether a commit can be read back: its fields hold no separator, its hash does not
/// begin with white space, and its date does not begin or end with any.
pub open spec fn readable(c: PatchView) -> bool {
    &&& c.hash.len() > 0
    &&& !chars::is_white(c.hash[0])
    &&& lacks(c.hash, '\x1f')
    &&& lacks(c.subject, '\x1f')
    &&& lacks(c.body, '\x1f')
    &&& lacks(c.author, '\x1f')
    &&& lacks(record(c), '\x1e')
    &&& chars::trim(c.timestamp) == c.timestamp
}

/// A commit as it is read back: with its body trimmed, and nothing known of its review.
pub open spec fn as_read(c: PatchView) -> PatchView {
    PatchView {
        body: chars::trim(c.body),
        pr_branch: None,
        pr_number: None,
        pr_url: None,
        status: PatchStatus::Clean,
        ..c
    }
}

/// A character is not found in a text that is without it.
proof fn lemma_not_found(s: Seq<char>, c: char)
    requires
        lacks(s, c),
    ensures
        search::find(s, seq![c]) is None,
    decreases s.len(),
{
    if seq![c].is_prefix_of(s) {
        assert(seq![c][0] == s[0]);
    } else if s.len() > 0 {
        assert forall|i: int| 0 <= i < s.drop_first().len() implies #[trigger] s.drop_first()[i]
            != c by {
            assert(s.drop_first()[i] == s[i + 1]);
        }
        lemma_not_found(s.drop_first(), c);
    }
}

/// A character is found right behind a text that is without it.
proof fn lemma_found(a: Seq<char>, c: char, b: Seq<char>)
    requires
        lacks(a, c),
    ensures
        search::find(a + seq![c] + b, seq![c]) == Some(a.len() as int),
    decreases a.len(),
{
    let s = a + seq![c] + b;
    if a.len() == 0 {
        assert(seq![c].is_prefix_of(s));
    } else {
        assert(s[0] == a[0]);
        assert(!seq![c].is_prefix_of(s)) by {
            if seq![c].is_prefix_of(s) {
                assert(seq![c][0] == s[0]);
            }
        }
        let r = a.drop_first();
        assert forall|i: int| 0 <= i < r.len() implies #[trigger] r[i] != c by {
            assert(r[i] == a[i + 1]);
        }
        lemma_found(r, c, b);
        assert(s.drop_first() =~= r + seq![c] + b);
    }
}

/// The first part of a text, and the parts of the rest.
proof fn lemma_split(a: Seq<char>, c: char, b: Seq<char>)
    requires
        lacks(a, c),
    ensures
        pieces::split(a + seq![c] + b, seq![c]) == seq![a] + pieces::split(b, seq![c]),
{
    let s = a + seq![c] + b;
    lemma_found(a, c, b);
    assert(s.take(a.len() as int) =~= a);
    assert(s.skip(a.len() as int + 1) =~= b);
}

/// The first part of a text, and the parts of the rest, where they are counted.
proof fn lemma_splitn(a: Seq<char>, c: char, b: Seq<char>, n: nat)
    requires
        lacks(a, c),
        n >= 2,
    ensures
        pieces::splitn(a + seq![c] + b, n, seq![c]) == seq![a] + pieces::splitn(
            b,
            (n - 1) as nat,
            seq![c],
        ),
{
    let s = a + seq![c] + b;
    lemma_found(a, c, b);
    assert(s.take(a.len() as int) =~= a);
    assert(s.skip(a.len() as int + 1) =~= b);
}

/// A record is free of white space at both ends.
proof fn lemma_record_ends(c: PatchView)
    requires
        readable(c),
    ensures
        record(c).len() > 0,
        !chars::is_white(record(c)[0]),
        !chars::is_white(record(c).last()),
{
    reveal_strlit("\x1f");
    assert(record(c)[0] == c.hash[0]);
    let t = c.timestamp;
    if t.len() > 0 {
        assert(record(c).last() == t.last());
        lines::lemma_trimmed(t);
    } else {
        assert(record(c).last() == '\x1f');
    }
}

/// A record is read back, with or without a line feed in front.
proof fn lemma_record(lead: Seq<char>, c: PatchView)
    requires
        readable(c),
        lead == "\n"@ || lead.len() == 0,
    ensures
        ops::record_entry(lead + record(c)) == Some(as_read(c)),
{
    reveal_strlit("\x1f");
    reveal_strlit("\n");
    let r = record(c);
    let white = chars::CharSet::White;
    lemma_record_ends(c);
    assert(chars::trim(lead + r) == r) by {
        if lead.len() == 0 {
            assert(lead + r =~= r);
        } else {
            assert((lead + r)[0] == '\n');
            assert((lead + r).drop_first() =~= r);
        }
        assert(chars::trim_start_set(r, white) == r);
        assert(chars::trim_start_set(lead + r, white) == r);
        assert(chars::trim_end_set(r, white) == r);
    }
    let sep = seq!['\x1f'];
    assert("\x1f"@ =~= sep);
    let four = c.author + sep + c.timestamp;
    let three = c.body + sep + four;
    let two = c.subject + sep + three;
    assert(r == c.hash + sep + two);
    lemma_splitn(c.hash, '\x1f', two, 5);
    lemma_splitn(c.subject, '\x1f', three, 4);
    lemma_splitn(c.body, '\x1f', four, 3);
    lemma_splitn(c.author, '\x1f', c.timestamp, 2);
    let parts = pieces::splitn(r, 5, sep);
    assert(pieces::splitn(c.timestamp, 1, sep) == seq![c.timestamp]);
    assert(parts =~= seq![c.hash, c.subject, c.body, c.author, c.timestamp]);
}

/// The log of commits is read back, with or without a line feed in front.
proof fn lemma_logged(lead: Seq<char>, commits: Seq<PatchView>)
    requires
        lead == "\n"@ || lead.len() == 0,
        forall|i: int| 0 <= i < commits.len() ==> readable(#[trigger] commits[i]),
    ensures
        ops::record_entries(pieces::split(lead + logged(commits), "\x1e"@))
            == commits.map_values(|c: PatchView| as_read(c)),
    decreases commits.len(),
{
    reveal_strlit("\x1e");
    reveal_strlit("\n");
    let sep = seq!['\x1e'];
    assert("\x1e"@ =~= sep);
    let f = |c: PatchView| as_read(c);
    if commits.len() == 0 {
        assert(lead + logged(commits) =~= lead);
        lemma_not_found(lead, '\x1e');
        assert(pieces::split(lead, sep) == seq![lead]);
        assert(chars::trim(lead).len() == 0) by {
            reveal_with_fuel(chars::trim_start_set, 2);
            if lead.len() > 0 {
                assert(lead[0] == '\n');
                assert(lead.drop_first() =~= Seq::<char>::empty());
            }
            assert(chars::trim_start_set(lead, chars::CharSet::White).len() == 0);
        }
        assert(seq![lead].drop_first() =~= Seq::<Seq<char>>::empty());
        assert(ops::record_entry(lead) is None);
        assert(seq![lead][0] == lead);
        reveal_with_fuel(ops::record_entries, 2);
        assert(ops::record_entries(seq![lead]) =~= Seq::<PatchView>::empty());
        assert(commits.map_values(f) =~= Seq::<PatchView>::empty());
    } else {
        let c = commits[0];
        let rest = commits.drop_first();
        let tail = "\n"@ + logged(rest);
        assert forall|i: int| 0 <= i < rest.len() implies readable(#[trigger] rest[i]) by {
            assert(rest[i] == commits[i + 1]);
        }
        lemma_logged("\n"@, rest);
        lemma_record(lead, c);
        let a = lead + record(c);
        assert(lacks(a, '\x1e')) by {
            assert forall|i: int| 0 <= i < a.len() implies #[trigger] a[i] != '\x1e' by {
                if i >= lead.len() {
                    assert(a[i] == record(c)[i - lead.len()]);
                }
            }
        }
        lemma_split(a, '\x1e', tail);
        assert(lead + logged(commits) =~= a + sep + tail);
        let all = seq![a] + pieces::split(tail, sep);
        assert(all[0] == a);
        assert(all.drop_first() =~= pieces::split(tail, sep));
        assert(ops::record_entries(all) == seq![as_read(c)] + rest.map_values(f));
        assert(commits.map_values(f) =~= seq![as_read(c)] + rest.map_values(f));
    }
}

/// The log of commits is read back: every commit, in its order, with its hash, subject,
/// author and date as they are, and its body trimmed, however many lines that has.
pub proof fn law_log_read_back(commits: Seq<PatchView>)
    requires
        forall|i: int| 0 <= i < commits.len() ==> readable(#[trigger] commits[i]),
    ensures
        ops::record_entries(pieces::split(logged(commits), "\x1e"@)) == commits.map_values(
            |c: PatchView| as_read(c),
        ),
{
    lemma_logged(seq![], commits);
    assert(Seq::<char>::empty() + logged(commits) =~= logged(commits));
}

} // verus!
