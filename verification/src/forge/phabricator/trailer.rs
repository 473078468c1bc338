//! What rewriting a commit's message keeps, and what it changes.
use vstd::prelude::*;

use super::message;
use crate::text::chars;
use crate::text::lines;
use crate::text::number;
use crate::text::pieces;
use crate::text::search;

verus! {

/// The last line of a message that tells of a dependency on a revision.
pub open spec fn dependency_line(id: u32) -> Seq<char> {
    "Depends on D"@ + number::dec(id as nat)
}

/// A number is not empty, and all of it are leading digits.
proof fn lemma_leading(n: nat)
    ensures
        number::dec(n).len() > 0,
        number::leading_digits(number::dec(n)) == number::dec(n),
        !chars::is_white(number::dec(n).last()),
        lines::one_line(number::dec(n)),
{
    let d = number::dec(n);
    number::lemma_dec(n);
    assert(chars::is_digit(d.last()));
    lemma_run(d);
    assert(d.take(d.len() as int) =~= d);
    assert forall|i: int| 0 <= i < d.len() implies #[trigger] d[i] != '\n' by {
        assert(chars::is_digit(d[i]));
    }
}

/// Digits alone are one run.
proof fn lemma_run(s: Seq<char>)
    requires
        forall|i: int| 0 <= i < s.len() ==> chars::is_digit(#[trigger] s[i]),
    ensures
        number::digit_run(s) == s.len(),
    decreases s.len(),
{
    if s.len() > 0 {
        let t = s.drop_first();
        assert forall|i: int| 0 <= i < t.len() implies chars::is_digit(#[trigger] t[i]) by {
            assert(t[i] == s[i + 1]);
        }
        lemma_run(t);
    }
}

/// The last `D` stands right before the digits that end a text.
proof fn lemma_last_d(a: Seq<char>, digits: Seq<char>)
    requires
        forall|i: int| 0 <= i < digits.len() ==> chars::is_digit(#[trigger] digits[i]),
    ensures
        search::rfind(a + seq!['D'] + digits, seq!['D']) == Some(a.len() as int),
    decreases digits.len(),
{
    let s = a + seq!['D'] + digits;
    let d = seq!['D'];
    if digits.len() == 0 {
        assert(s =~= a + d);
        assert(d.is_suffix_of(s));
    } else {
        assert(s.last() == digits.last());
        assert(chars::is_digit(digits.last()));
        assert(!d.is_suffix_of(s)) by {
            if d.is_suffix_of(s) {
                assert(d.last() == s.subrange(s.len() - 1, s.len() as int)[0]);
            }
        }
        let t = digits.drop_last();
        assert forall|i: int| 0 <= i < t.len() implies chars::is_digit(#[trigger] t[i]) by {
            assert(t[i] == digits[i]);
        }
        lemma_last_d(a, t);
        assert(s.drop_last() =~= a + d + t);
    }
}

/// A trailer that names a revision, whatever link leads to it, is read as naming it.
pub proof fn law_trailer_read(link: Seq<char>, id: u32)
    ensures
        ({
            let line = "Differential Revision: "@ + link + "D"@ + number::dec(id as nat);
            message::line_revision(line) matches Some(r) && r.0 == id
        }),
{
    let digits = number::dec(id as nat);
    let head = "Differential Revision: "@ + link;
    let line = head + "D"@ + digits;
    reveal_strlit("Differential Revision: ");
    reveal_strlit("Differential Revision:");
    reveal_strlit("D");
    lemma_leading(id as nat);
    number::lemma_dec(id as nat);
    number::lemma_parse_dec(id);
    assert(line[0] == 'D');
    assert(line.last() == digits.last());
    lines::lemma_trim_same(line);
    assert("Differential Revision:"@.is_prefix_of(line)) by {
        let p = "Differential Revision:"@;
        assert(line.subrange(0, p.len() as int) =~= p);
    }
    assert("D"@ =~= seq!['D']);
    lemma_last_d(head, digits);
    assert(line.skip(head.len() as int + 1) =~= digits);
}

/// A line tells of a dependency, or names a revision, by what is left of it once it is
/// trimmed; and it never does both, nor either where it is blank.
proof fn lemma_line(line: Seq<char>)
    ensures
        message::is_dependency(chars::trim(line)) == message::is_dependency(line),
        message::line_revision(chars::trim(line)) == message::line_revision(line),
        message::is_dependency(line) ==> message::line_revision(line) is None,
        message::is_dependency(line) ==> chars::trim(line).len() > 0,
        message::line_revision(line) is Some ==> chars::trim(line).len() > 0,
{
    reveal_strlit("Differential Revision:");
    reveal_strlit("Depends on D");
    lines::lemma_trimmed(line);
    let l = chars::trim(line);
    if message::is_dependency(line) {
        assert("Depends on D"@[1] == l[1]);
        if message::is_trailer(line) {
            assert("Differential Revision:"@[1] == l[1]);
        }
    }
}

/// The revision that lines name is named by what they say.
proof fn lemma_said_revision(all: Seq<Seq<char>>)
    ensures
        message::lines_revision(lines::all_said(all)) == message::lines_revision(all),
    decreases all.len(),
{
    if all.len() > 0 {
        let rest = all.drop_first();
        lemma_said_revision(rest);
        lemma_line(all[0]);
        let said = lines::all_said(rest);
        if chars::trim(all[0]).len() > 0 {
            let whole = seq![chars::trim(all[0])] + said;
            assert(whole[0] == chars::trim(all[0]));
            assert(whole.drop_first() =~= said);
        } else {
            assert(Seq::<Seq<char>>::empty() + said =~= said);
        }
    }
}

/// Lines that name no revision do not matter behind others.
proof fn lemma_unnamed(a: Seq<Seq<char>>, b: Seq<Seq<char>>)
    requires
        message::lines_revision(b) is None,
    ensures
        message::lines_revision(a + b) == message::lines_revision(a),
    decreases a.len(),
{
    if a.len() == 0 {
        assert(a + b =~= b);
    } else {
        lemma_unnamed(a.drop_first(), b);
        assert((a + b)[0] == a[0]);
        assert((a + b).drop_first() =~= a.drop_first() + b);
    }
}

/// Lines that tell of a dependency do not matter to the revision.
proof fn lemma_filtered_revision(all: Seq<Seq<char>>)
    ensures
        message::lines_revision(all.filter(|l: Seq<char>| !message::is_dependency(l)))
            == message::lines_revision(all),
    decreases all.len(),
{
    let p = |l: Seq<char>| !message::is_dependency(l);
    reveal(Seq::filter);
    if all.len() > 0 {
        let first = seq![all[0]];
        let rest = all.drop_first();
        assert(all =~= first + rest);
        Seq::filter_distributes_over_add(first, rest, p);
        lemma_filtered_revision(rest);
        lemma_line(all[0]);
        pieces::lemma_filter_empty(p);
        assert(first =~= Seq::<Seq<char>>::empty().push(all[0]));
        pieces::lemma_filter_push(Seq::<Seq<char>>::empty(), all[0], p);
        if p(all[0]) {
            assert(first.filter(p) =~= first);
            let whole = first + rest.filter(p);
            assert(whole[0] == all[0]);
            assert(whole.drop_first() =~= rest.filter(p));
        } else {
            assert(first.filter(p) + rest.filter(p) =~= rest.filter(p));
        }
    }
}

/// The lines that are left of a message without those that tell of a dependency.
proof fn lemma_independent(m: Seq<char>)
    ensures
        lines::sayings(message::independent(m)) == lines::all_said(
            pieces::lines(m).filter(|l: Seq<char>| !message::is_dependency(l)),
        ),
{
    let p = |l: Seq<char>| !message::is_dependency(l);
    let kept = pieces::lines(m).filter(p);
    reveal_strlit("\n");
    assert("\n"@ =~= seq!['\n']);
    lines::lemma_lines_single(m);
    assert forall|i: int| 0 <= i < kept.len() implies lines::one_line(#[trigger] kept[i]) by {
        lemma_filter_from(pieces::lines(m), p, i);
    }
    lines::lemma_says_join(kept);
    lines::lemma_says_trim(pieces::join(kept, "\n"@));
}

/// What is left by a filter was there, and passed it.
proof fn lemma_filter_from(s: Seq<Seq<char>>, p: spec_fn(Seq<char>) -> bool, i: int)
    requires
        0 <= i < s.filter(p).len(),
    ensures
        s.contains(s.filter(p)[i]),
        p(s.filter(p)[i]),
    decreases s.len(),
{
    reveal(Seq::filter);
    if s.len() > 0 {
        let most = s.drop_last();
        if i < most.filter(p).len() {
            lemma_filter_from(most, p, i);
            let k = choose|k: int| 0 <= k < most.len() && most[k] == most.filter(p)[i];
            assert(s[k] == s.filter(p)[i]);
        } else {
            assert(s[s.len() - 1] == s.filter(p)[i]);
        }
    }
}

/// The dependency line neither begins nor ends with white space, is a single line, and
/// tells of a dependency.
proof fn lemma_dependency_line(id: u32)
    ensures
        message::is_dependency(dependency_line(id)),
        chars::trim(dependency_line(id)) == dependency_line(id),
        lines::one_line(dependency_line(id)),
        dependency_line(id).len() > 0,
{
    reveal_strlit("Depends on D");
    let d = dependency_line(id);
    let n = number::dec(id as nat);
    lemma_leading(id as nat);
    assert(d[0] == 'D');
    assert(d.last() == n.last());
    lines::lemma_trim_same(d);
    assert("Depends on D"@.is_prefix_of(d)) by {
        assert(d.subrange(0, "Depends on D"@.len() as int) =~= "Depends on D"@);
    }
    assert forall|i: int| 0 <= i < d.len() implies #[trigger] d[i] != '\n' by {
        if i >= 12 {
            assert(d[i] == n[i - 12]);
        }
    }
}

/// Rewriting a message for a dependency keeps the revision that it names, and the link
/// by which it names it.
pub proof fn law_revision_kept(m: Seq<char>, parent: Option<u32>)
    ensures
        message::revision(message::depending(m, parent)) == message::revision(m),
{
    let t = message::independent(m);
    let kept = pieces::lines(m).filter(|l: Seq<char>| !message::is_dependency(l));
    lemma_independent(m);
    lemma_filtered_revision(pieces::lines(m));
    lemma_said_revision(kept);
    lemma_said_revision(pieces::lines(t));
    assert(message::revision(t) == message::revision(m));
    match parent {
        Some(id) => {
            let d = dependency_line(id);
            let u = message::depending(m, parent);
            let nl = seq!['\n'];
            reveal_strlit("\n\nDepends on D");
            reveal_strlit("Depends on D");
            assert(u =~= t + nl + (Seq::<char>::empty() + nl + d));
            lines::lemma_parts(t, Seq::<char>::empty() + nl + d);
            lines::lemma_parts(Seq::<char>::empty(), d);
            lemma_dependency_line(id);
            lines::lemma_one_line(d);
            lines::lemma_one_line(Seq::<char>::empty());
            assert(chars::trim(Seq::<char>::empty()) =~= Seq::<char>::empty());
            assert(lines::sayings(u) =~= lines::sayings(t) + seq![d]);
            lemma_line(d);
            assert(seq![d].drop_first() =~= Seq::<Seq<char>>::empty());
            assert(message::lines_revision(Seq::<Seq<char>>::empty()) is None);
            assert(message::lines_revision(seq![d]) is None);
            lemma_unnamed(lines::sayings(t), seq![d]);
            lemma_said_revision(pieces::lines(u));
        },
        None => {},
    }
}

/// No line of lines tells of a dependency where nothing that they say does.
proof fn lemma_said_free(all: Seq<Seq<char>>)
    requires
        forall|i: int|
            0 <= i < lines::all_said(all).len() ==> !message::is_dependency(
                #[trigger] lines::all_said(all)[i],
            ),
    ensures
        forall|i: int| 0 <= i < all.len() ==> !message::is_dependency(#[trigger] all[i]),
    decreases all.len(),
{
    if all.len() > 0 {
        let rest = all.drop_first();
        let first = lines::said(all[0]);
        let said = lines::all_said(all);
        assert forall|i: int| 0 <= i < lines::all_said(rest).len() implies !message::is_dependency(
            #[trigger] lines::all_said(rest)[i],
        ) by {
            assert(said[i + first.len()] == lines::all_said(rest)[i]);
        }
        lemma_said_free(rest);
        lemma_line(all[0]);
        if first.len() > 0 {
            assert(said[0] == chars::trim(all[0]));
        }
        assert forall|i: int| 0 <= i < all.len() implies !message::is_dependency(
            #[trigger] all[i],
        ) by {
            if i > 0 {
                assert(all[i] == rest[i - 1]);
            }
        }
    }
}

/// What lines say tells of no dependency where none of them does.
proof fn lemma_free_said(all: Seq<Seq<char>>)
    requires
        forall|i: int| 0 <= i < all.len() ==> !message::is_dependency(#[trigger] all[i]),
    ensures
        forall|i: int|
            0 <= i < lines::all_said(all).len() ==> !message::is_dependency(
                #[trigger] lines::all_said(all)[i],
            ),
    decreases all.len(),
{
    if all.len() > 0 {
        let rest = all.drop_first();
        assert forall|i: int| 0 <= i < rest.len() implies !message::is_dependency(
            #[trigger] rest[i],
        ) by {
            assert(rest[i] == all[i + 1]);
        }
        lemma_free_said(rest);
        lemma_line(all[0]);
        let first = lines::said(all[0]);
        let said = lines::all_said(all);
        assert forall|i: int| 0 <= i < said.len() implies !message::is_dependency(
            #[trigger] said[i],
        ) by {
            if i >= first.len() {
                assert(said[i] == lines::all_said(rest)[i - first.len()]);
            }
        }
    }
}

/// No line of a message without its dependencies tells of one.
proof fn lemma_free(m: Seq<char>)
    ensures
        ({
            let all = pieces::lines(message::independent(m));
            forall|i: int| 0 <= i < all.len() ==> !message::is_dependency(#[trigger] all[i])
        }),
{
    let p = |l: Seq<char>| !message::is_dependency(l);
    let kept = pieces::lines(m).filter(p);
    lemma_independent(m);
    assert forall|i: int| 0 <= i < kept.len() implies !message::is_dependency(
        #[trigger] kept[i],
    ) by {
        lemma_filter_from(pieces::lines(m), p, i);
    }
    lemma_free_said(kept);
    lemma_said_free(pieces::lines(message::independent(m)));
}

/// The lines of a message with a dependency: those without it, a blank one, and the one
/// that tells of it. Where nothing else is left, one more blank line stands first.
proof fn lemma_depending_lines(m: Seq<char>, id: u32)
    ensures
        ({
            let t = message::independent(m);
            let u = message::depending(m, Some(id));
            pieces::lines(u) == (if t.len() > 0 {
                pieces::lines(t)
            } else {
                seq![seq![]]
            }) + seq![seq![], dependency_line(id)]
        }),
{
    let t = message::independent(m);
    let u = message::depending(m, Some(id));
    let d = dependency_line(id);
    let nl = seq!['\n'];
    let none = Seq::<char>::empty();
    reveal_strlit("\n\nDepends on D");
    reveal_strlit("Depends on D");
    lemma_dependency_line(id);
    let tail = none + nl + d;
    assert(u =~= t + nl + tail);
    pieces::lemma_line_end(d);
    assert(pieces::lines(d) == seq![d]);
    lines::lemma_first_end(none, d);
    assert(tail.take(0) =~= none);
    assert(tail.skip(1) =~= d);
    assert(pieces::lines(tail) =~= seq![none, d]);
    if t.len() > 0 {
        let kept = pieces::lines(m).filter(|l: Seq<char>| !message::is_dependency(l));
        lines::lemma_trimmed(pieces::join(kept, "\n"@));
        lines::lemma_lines_parts(t, tail);
    } else {
        assert(t =~= none);
        assert(u =~= none + nl + tail);
        lines::lemma_first_end(none, tail);
        assert(u.take(0) =~= none);
        assert(u.skip(1) =~= tail);
        assert(pieces::lines(u) =~= seq![none] + pieces::lines(tail));
    }
}

/// Keeping those of some lines that tell of a dependency, or the others, where none
/// tells of one.
proof fn lemma_all_free(all: Seq<Seq<char>>)
    requires
        forall|i: int| 0 <= i < all.len() ==> !message::is_dependency(#[trigger] all[i]),
    ensures
        all.filter(|l: Seq<char>| message::is_dependency(l)) == Seq::<Seq<char>>::empty(),
        all.filter(|l: Seq<char>| !message::is_dependency(l)) == all,
    decreases all.len(),
{
    reveal(Seq::filter);
    if all.len() > 0 {
        let most = all.drop_last();
        assert forall|i: int| 0 <= i < most.len() implies !message::is_dependency(
            #[trigger] most[i],
        ) by {
            assert(most[i] == all[i]);
        }
        lemma_all_free(most);
        assert(!message::is_dependency(all[all.len() - 1]));
        assert(most.push(all.last()) =~= all);
    }
}

/// A blank line tells of no dependency.
proof fn lemma_blank()
    ensures
        !message::is_dependency(seq![]),
{
    lemma_line(seq![]);
    assert(chars::trim(Seq::<char>::empty()) =~= Seq::<char>::empty());
}

/// The lines of a message with a dependency that stand before the one that tells of it.
spec fn before_last(t: Seq<char>) -> Seq<Seq<char>> {
    (if t.len() > 0 {
        pieces::lines(t)
    } else {
        seq![seq![]]
    }).push(seq![])
}

/// None of them tells of a dependency.
proof fn lemma_before_last(m: Seq<char>)
    ensures
        ({
            let front = before_last(message::independent(m));
            forall|i: int| 0 <= i < front.len() ==> !message::is_dependency(#[trigger] front[i])
        }),
{
    let t = message::independent(m);
    let front = before_last(t);
    lemma_free(m);
    lemma_blank();
    assert forall|i: int| 0 <= i < front.len() implies !message::is_dependency(
        #[trigger] front[i],
    ) by {
        if t.len() > 0 && i < pieces::lines(t).len() {
            assert(front[i] == pieces::lines(t)[i]);
        } else {
            assert(front[i] == Seq::<char>::empty());
        }
    }
}

/// Which lines of a message with a dependency tell of one, and which do not.
proof fn lemma_told(m: Seq<char>, id: u32)
    ensures
        ({
            let all = pieces::lines(message::depending(m, Some(id)));
            let front = before_last(message::independent(m));
            &&& all == front.push(dependency_line(id))
            &&& all.filter(|l: Seq<char>| message::is_dependency(l)) == seq![dependency_line(id)]
            &&& all.filter(|l: Seq<char>| !message::is_dependency(l)) == front
        }),
{
    let p = |l: Seq<char>| !message::is_dependency(l);
    let q = |l: Seq<char>| message::is_dependency(l);
    let all = pieces::lines(message::depending(m, Some(id)));
    let front = before_last(message::independent(m));
    let d = dependency_line(id);
    assert(all =~= front.push(d)) by {
        lemma_depending_lines(m, id);
    }
    lemma_before_last(m);
    lemma_all_free(front);
    lemma_dependency_line(id);
    pieces::lemma_filter_push(front, d, p);
    pieces::lemma_filter_push(front, d, q);
    assert(Seq::<Seq<char>>::empty().push(d) =~= seq![d]);
}

/// Of the lines of a message with a dependency, the last one alone tells of a
/// dependency: on the revision of the parent. Without a parent's revision none does.
pub proof fn law_one_dependency(m: Seq<char>, parent: Option<u32>)
    ensures
        pieces::lines(message::depending(m, parent)).filter(
            |l: Seq<char>| message::is_dependency(l),
        ) == match parent {
            Some(id) => seq![dependency_line(id)],
            None => seq![],
        },
        match parent {
            Some(id) => pieces::lines(message::depending(m, parent)).last() == dependency_line(id),
            None => true,
        },
{
    match parent {
        Some(id) => {
            lemma_told(m, id);
        },
        None => {
            lemma_free(m);
            lemma_all_free(pieces::lines(message::independent(m)));
        },
    }
}

/// Lines that tell of no dependency do not matter before others.
proof fn lemma_stated_behind(a: Seq<Seq<char>>, b: Seq<Seq<char>>)
    requires
        forall|i: int| 0 <= i < a.len() ==> !message::is_dependency(#[trigger] a[i]),
    ensures
        message::stated_lines(a + b) == message::stated_lines(b),
    decreases a.len(),
{
    if a.len() == 0 {
        assert(a + b =~= b);
    } else {
        let rest = a.drop_first();
        assert forall|i: int| 0 <= i < rest.len() implies !message::is_dependency(
            #[trigger] rest[i],
        ) by {
            assert(rest[i] == a[i + 1]);
        }
        lemma_stated_behind(rest, b);
        assert((a + b)[0] == a[0]);
        assert((a + b).drop_first() =~= rest + b);
    }
}

/// The dependency line states its revision.
proof fn lemma_line_states(id: u32)
    ensures
        message::stated_lines(seq![dependency_line(id)]) == Some(id),
{
    let d = dependency_line(id);
    let digits = number::dec(id as nat);
    lemma_dependency_line(id);
    lemma_leading(id as nat);
    number::lemma_parse_dec(id);
    assert(d.skip("Depends on D"@.len() as int) =~= digits);
    assert(seq![d][0] == d);
}

/// The dependency that was written into a message is the one that it states.
pub proof fn law_dependency_read(m: Seq<char>, parent: Option<u32>)
    ensures
        message::stated_lines(pieces::lines(message::depending(m, parent))) == parent,
{
    let all = pieces::lines(message::depending(m, parent));
    match parent {
        Some(id) => {
            let d = dependency_line(id);
            let front = before_last(message::independent(m));
            assert(all =~= front + seq![d]) by {
                lemma_told(m, id);
            }
            lemma_before_last(m);
            lemma_stated_behind(front, seq![d]);
            lemma_line_states(id);
        },
        None => {
            lemma_free(m);
            lemma_stated_behind(all, seq![]);
            assert(all + Seq::<Seq<char>>::empty() =~= all);
        },
    }
}

/// A message without its dependencies is free of white space at both ends.
proof fn lemma_independent_trimmed(m: Seq<char>)
    ensures
        ({
            let t = message::independent(m);
            &&& chars::trim(t) == t
            &&& t.len() > 0 ==> !chars::is_white(t.last())
        }),
{
    let kept = pieces::lines(m).filter(|l: Seq<char>| !message::is_dependency(l));
    lines::lemma_trimmed(pieces::join(kept, "\n"@));
}

/// The lines before the last one, put together.
proof fn lemma_before_last_joined(t: Seq<char>)
    requires
        lines::plain(t),
        t.len() > 0 ==> !chars::is_white(t.last()),
    ensures
        pieces::join(before_last(t), seq!['\n']) == t + seq!['\n'],
{
    let nl = seq!['\n'];
    let front = before_last(t);
    let head = front.drop_last();
    assert(front.last() == Seq::<char>::empty());
    if t.len() > 0 {
        lines::lemma_lines_joined(t);
        assert(head =~= pieces::lines(t));
    } else {
        assert(head =~= seq![Seq::<char>::empty()]);
        assert(pieces::join(head, nl) =~= t);
    }
    assert(pieces::join(head, nl) + nl + front.last() =~= t + nl);
}

/// Rewriting a message again replaces the dependency that it tells of, and changes
/// nothing else: it is as if the message had been rewritten once.
pub proof fn law_dependency_replaced(m: Seq<char>, before: Option<u32>, after: Option<u32>)
    requires
        lines::plain(message::independent(m)),
    ensures
        message::depending(message::depending(m, before), after) == message::depending(m, after),
{
    let t = message::independent(m);
    let u = message::depending(m, before);
    let nl = seq!['\n'];
    reveal_strlit("\n");
    assert("\n"@ =~= nl);
    lemma_independent_trimmed(m);
    match before {
        None => {
            lemma_free(m);
            lemma_all_free(pieces::lines(t));
            if t.len() > 0 {
                lines::lemma_lines_joined(t);
            } else {
                assert(pieces::join(pieces::lines(t), nl) =~= t);
            }
        },
        Some(id) => {
            lemma_told(m, id);
            lemma_before_last_joined(t);
            assert((t + nl).last() == '\n');
            assert((t + nl).drop_last() =~= t);
            lines::lemma_trim_last(t + nl);
        },
    }
    assert(message::independent(u) == t);
}

} // verus!
