//! Commit messages: the revision that a commit belongs to, and the one it depends on.
use vstd::prelude::*;

use crate::stack;
use crate::stack::{PatchEntry, PatchStatus, PatchView};
use crate::text::chars;
use crate::text::args::args;
use crate::text::chars::{concat2, concat3, hex, piece, same, to_chars, trimmed};
use crate::text::number;
use crate::text::number::{decimal, digits_at, to_u32};
use crate::text::pieces;
use crate::text::pieces::{joined, lines_of, split_text};
use crate::text::search;
use crate::text::search::{after_prefix, dropped_prefixes, occurs, rfind_in, starts};
use crate::text::views;

verus! {

broadcast use views::group_views;

/// Whether a line is a trailer that names a revision.
pub open spec fn is_trailer(line: Seq<char>) -> bool {
    "Differential Revision:"@.is_prefix_of(chars::trim(line))
}

/// The trailers of a text that name a revision, each without white space around it.
pub open spec fn revision_trailers(body: Seq<char>) -> Seq<Seq<char>> {
    pieces::trim_all(pieces::lines(body).filter(|l: Seq<char>| is_trailer(l)))
}

/// The trailers of a text that name a revision.
pub fn read_trailers(body: &str) -> (r: Vec<String>)
    ensures
        views::strs(r@) == revision_trailers(body@),
{
    let lines = lines_of(body);
    let ghost all = pieces::lines(body@);
    let ghost p = |l: Seq<char>| is_trailer(l);
    let mut found: Vec<String> = Vec::new();
    let mut i: usize = 0;
    proof {
        assert(all.take(0) =~= Seq::<Seq<char>>::empty());
        pieces::lemma_filter_empty(p);
        assert(pieces::trim_all(Seq::empty()) =~= Seq::<Seq<char>>::empty());
    }
    while i < lines.len()
        invariant
            i <= lines@.len(),
            all == views::strs(lines@),
            p == (|l: Seq<char>| is_trailer(l)),
            views::strs(found@) == pieces::trim_all(all.take(i as int).filter(p)),
        decreases lines.len() - i,
    {
        let ghost before = all.take(i as int).filter(p);
        proof {
            assert(all.take(i + 1) =~= all.take(i as int).push(all[i as int]));
            pieces::lemma_filter_push(all.take(i as int), all[i as int], p);
            assert(all[i as int] == lines@[i as int]@);
            assert(pieces::trim_all(before.push(all[i as int])) =~= pieces::trim_all(before).push(
                chars::trim(all[i as int]),
            ));
        }
        let t = trimmed(lines[i].as_str());
        if starts(t.as_str(), "Differential Revision:") {
            found.push(t);
        }
        i += 1;
    }
    proof {
        assert(all.take(i as int) =~= all);
    }
    found
}

/// The revision that a trailer names, and how it names it: the number behind the last
/// `D`, and what stands behind the trailer's key.
pub open spec fn line_revision(line: Seq<char>) -> Option<(u32, Seq<char>)> {
    let l = chars::trim(line);
    if is_trailer(line) {
        match search::rfind(l, "D"@) {
            Some(at) => match number::parse_u32(number::leading_digits(l.skip(at + 1))) {
                Some(id) => Some(
                    (id, chars::trim(search::without_prefixes(l, "Differential Revision:"@))),
                ),
                None => None,
            },
            None => None,
        }
    } else {
        None
    }
}

/// The revision that the first line names that names one.
pub open spec fn lines_revision(lines: Seq<Seq<char>>) -> Option<(u32, Seq<char>)>
    decreases lines.len(),
{
    if lines.len() == 0 {
        None
    } else {
        match line_revision(lines[0]) {
            Some(r) => Some(r),
            None => lines_revision(lines.drop_first()),
        }
    }
}

/// The revision that a message names, and how.
pub open spec fn revision(message: Seq<char>) -> Option<(u32, Seq<char>)> {
    lines_revision(pieces::lines(message))
}

/// The number of the revision that a message names.
pub open spec fn revision_id(message: Seq<char>) -> Option<u32> {
    match revision(message) {
        Some(r) => Some(r.0),
        None => None,
    }
}

/// The revision that a trailer names, and how it names it.
fn read_line(line: &str) -> (r: Option<(u32, String)>)
    ensures
        match r {
            Some(x) => line_revision(line@) == Some((x.0, x.1@)),
            None => line_revision(line@) is None,
        },
{
    let l = trimmed(line);
    if !starts(l.as_str(), "Differential Revision:") {
        return None;
    }
    proof {
        reveal_strlit("D");
        reveal_strlit("Differential Revision:");
    }
    match rfind_in(l.as_str(), "D") {
        Some(at) => {
            proof {
                search::lemma_rfind(l@, "D"@);
            }
            let digits = digits_at(l.as_str(), at + 1);
            match to_u32(digits.as_str()) {
                Some(id) => {
                    let rest = dropped_prefixes(l.as_str(), "Differential Revision:");
                    Some((id, trimmed(rest.as_str())))
                },
                None => None,
            }
        },
        None => None,
    }
}

/// Parse both revision ID and URL from a commit message.
/// Returns (id, url) where url is the full "Differential Revision:" value.
pub fn parse_revision_id_and_url(message: &str) -> (r: Option<(u32, String)>)
    ensures
        match r {
            Some(x) => revision(message@) == Some((x.0, x.1@)),
            None => revision(message@) is None,
        },
{
    let lines = lines_of(message);
    let ghost all = pieces::lines(message@);
    let mut i: usize = 0;
    proof {
        assert(all.skip(0) =~= all);
    }
    while i < lines.len()
        invariant
            i <= lines@.len(),
            all == views::strs(lines@),
            all == pieces::lines(message@),
            lines_revision(all) == lines_revision(all.skip(i as int)),
        decreases lines.len() - i,
    {
        proof {
            assert(all.skip(i as int)[0] == lines@[i as int]@);
            assert(all.skip(i as int).drop_first() =~= all.skip(i + 1));
        }
        let found = read_line(lines[i].as_str());
        if found.is_some() {
            return found;
        }
        i += 1;
    }
    None
}

/// Parse a Phabricator revision ID from a commit message.
/// Looks for "Differential Revision: .../DXXXX" or just "D" followed by digits.
pub fn parse_revision_id(message: &str) -> (r: Option<u32>)
    ensures
        r == revision_id(message@),
{
    match parse_revision_id_and_url(message) {
        Some(x) => Some(x.0),
        None => None,
    }
}

/// The revision that a line of arc's output names: the number behind the last `/D`.
pub open spec fn arc_line(line: Seq<char>) -> Option<u32> {
    let l = chars::trim(line);
    if search::contains(l, "Revision URI:"@) || search::contains(l, "revision/"@) {
        match search::rfind(l, "/D"@) {
            Some(at) => number::parse_u32(number::leading_digits(l.skip(at + 2))),
            None => None,
        }
    } else {
        None
    }
}

/// The revision that the first line names that names one.
pub open spec fn arc_lines(lines: Seq<Seq<char>>) -> Option<u32>
    decreases lines.len(),
{
    if lines.len() == 0 {
        None
    } else {
        match arc_line(lines[0]) {
            Some(id) => Some(id),
            None => arc_lines(lines.drop_first()),
        }
    }
}

/// The revision that a line of arc's output names.
fn read_arc_line(line: &str) -> (r: Option<u32>)
    ensures
        r == arc_line(line@),
{
    let l = trimmed(line);
    if occurs(l.as_str(), "Revision URI:") || occurs(l.as_str(), "revision/") {
        proof {
            reveal_strlit("/D");
        }
        match rfind_in(l.as_str(), "/D") {
            Some(at) => {
                proof {
                    search::lemma_rfind(l@, "/D"@);
                }
                let digits = digits_at(l.as_str(), at + 2);
                to_u32(digits.as_str())
            },
            None => None,
        }
    } else {
        None
    }
}

/// Parse a Phabricator revision ID from arc's stdout output.
/// Looks for "Revision URI: .../DXXXX" patterns in arc's output.
pub fn parse_revision_from_arc_output(output: &str) -> (r: Option<u32>)
    ensures
        r == arc_lines(pieces::lines(output@)),
{
    let lines = lines_of(output);
    let ghost all = pieces::lines(output@);
    let mut i: usize = 0;
    proof {
        assert(all.skip(0) =~= all);
    }
    while i < lines.len()
        invariant
            i <= lines@.len(),
            all == views::strs(lines@),
            all == pieces::lines(output@),
            arc_lines(all) == arc_lines(all.skip(i as int)),
        decreases lines.len() - i,
    {
        proof {
            assert(all.skip(i as int)[0] == lines@[i as int]@);
            assert(all.skip(i as int).drop_first() =~= all.skip(i + 1));
        }
        let found = read_arc_line(lines[i].as_str());
        if found.is_some() {
            return found;
        }
        i += 1;
    }
    None
}

/// Whether a line tells of a dependency.
pub open spec fn is_dependency(line: Seq<char>) -> bool {
    "Depends on D"@.is_prefix_of(chars::trim(line))
}

/// The message without the lines that tell of a dependency.
pub open spec fn independent(message: Seq<char>) -> Seq<char> {
    chars::trim(
        pieces::join(pieces::lines(message).filter(|l: Seq<char>| !is_dependency(l)), "\n"@),
    )
}

/// The message that tells of a dependency on the parent's revision, if it has one, and
/// on no other.
pub open spec fn depending(message: Seq<char>, parent: Option<u32>) -> Seq<char> {
    match parent {
        Some(id) => independent(message) + "\n\nDepends on D"@ + number::dec(id as nat),
        None => independent(message),
    }
}

/// The message that tells of a dependency on the parent's revision, if it has one, and
/// on no other.
pub fn with_dependency(message: &str, parent: Option<u32>) -> (r: String)
    ensures
        r@ == depending(message@, parent),
{
    let lines = lines_of(message);
    let ghost all = pieces::lines(message@);
    let ghost p = |l: Seq<char>| !is_dependency(l);
    let mut kept: Vec<String> = Vec::new();
    let mut i: usize = 0;
    proof {
        assert(all.take(0) =~= Seq::<Seq<char>>::empty());
        pieces::lemma_filter_empty(p);
    }
    while i < lines.len()
        invariant
            i <= lines@.len(),
            all == views::strs(lines@),
            p == (|l: Seq<char>| !is_dependency(l)),
            views::strs(kept@) == all.take(i as int).filter(p),
        decreases lines.len() - i,
    {
        proof {
            assert(all.take(i + 1) =~= all.take(i as int).push(all[i as int]));
            pieces::lemma_filter_push(all.take(i as int), all[i as int], p);
            assert(all[i as int] == lines@[i as int]@);
        }
        let t = trimmed(lines[i].as_str());
        if !starts(t.as_str(), "Depends on D") {
            kept.push(lines[i].clone());
        }
        i += 1;
    }
    proof {
        assert(all.take(i as int) =~= all);
    }
    let text = joined(&kept, "\n");
    let text = trimmed(text.as_str());
    match parent {
        Some(id) => {
            let d = decimal(id as u64);
            concat3(text.as_str(), "\n\nDepends on D", d.as_str())
        },
        None => text,
    }
}

/// The revision on which a line that tells of a dependency says its commit depends.
pub open spec fn line_dependency(line: Seq<char>) -> Option<u32> {
    number::parse_u32(
        number::leading_digits(chars::trim(line).skip("Depends on D"@.len() as int)),
    )
}

/// The revision that the first line that tells of a dependency tells of.
pub open spec fn stated_lines(lines: Seq<Seq<char>>) -> Option<u32>
    decreases lines.len(),
{
    if lines.len() == 0 {
        None
    } else if is_dependency(lines[0]) {
        line_dependency(lines[0])
    } else {
        stated_lines(lines.drop_first())
    }
}

/// The revision on which a message says its commit depends.
pub fn stated_dependency(message: &str) -> (r: Option<u32>)
    ensures
        r == stated_lines(pieces::lines(message@)),
{
    let lines = lines_of(message);
    let ghost all = pieces::lines(message@);
    let mut i: usize = 0;
    proof {
        assert(all.skip(0) =~= all);
    }
    while i < lines.len()
        invariant
            i <= lines@.len(),
            all == views::strs(lines@),
            all == pieces::lines(message@),
            stated_lines(all) == stated_lines(all.skip(i as int)),
        decreases lines.len() - i,
    {
        proof {
            assert(all.skip(i as int)[0] == lines@[i as int]@);
            assert(all.skip(i as int).drop_first() =~= all.skip(i + 1));
        }
        let t = trimmed(lines[i].as_str());
        if let Some(rest) = after_prefix(t.as_str(), "Depends on D") {
            let digits = digits_at(rest.as_str(), 0);
            proof {
                assert(rest@.skip(0) =~= rest@);
            }
            return to_u32(digits.as_str());
        }
        i += 1;
    }
    None
}

/// Whether a line of the log begins a commit: with forty hexadecimal digits, and then
/// nothing or a space.
pub open spec fn begins_commit(line: Seq<char>) -> bool {
    line.len() >= 40 && (forall|i: int| 0 <= i < 40 ==> chars::is_hex(#[trigger] line[i])) && (
    line.len() == 40 || line[40] == ' ')
}

/// Whether a commit, if there is one, belongs to the revision.
pub open spec fn belongs(commit: Option<(Seq<char>, Seq<char>)>, id: u32) -> bool {
    match commit {
        Some(c) => revision_id(c.1) == Some(id),
        None => false,
    }
}

/// The hash of a commit, if there is one.
pub open spec fn commit_hash(commit: Option<(Seq<char>, Seq<char>)>) -> Option<Seq<char>> {
    match commit {
        Some(c) => Some(c.0),
        None => None,
    }
}

/// The first commit of a log that belongs to the revision; `commit` is the one whose
/// message is being read, with as much of it as was read.
pub open spec fn commit_of(
    lines: Seq<Seq<char>>,
    commit: Option<(Seq<char>, Seq<char>)>,
    id: u32,
) -> Option<Seq<char>>
    decreases lines.len(),
{
    if lines.len() == 0 {
        if belongs(commit, id) {
            commit_hash(commit)
        } else {
            None
        }
    } else if begins_commit(lines[0]) {
        if belongs(commit, id) {
            commit_hash(commit)
        } else {
            commit_of(
                lines.drop_first(),
                Some((lines[0].take(40), chars::trim(lines[0].skip(40)) + "\n"@)),
                id,
            )
        }
    } else {
        commit_of(
            lines.drop_first(),
            match commit {
                Some(c) => Some((c.0, c.1 + lines[0] + "\n"@)),
                None => None,
            },
            id,
        )
    }
}

/// Whether a line of the log begins a commit.
fn is_commit_line(v: &Vec<char>) -> (r: bool)
    ensures
        r == begins_commit(v@),
{
    if v.len() < 40 || (v.len() > 40 && v[40] != ' ') {
        return false;
    }
    let mut i: usize = 0;
    while i < 40
        invariant
            i <= 40 <= v@.len(),
            forall|j: int| 0 <= j < i ==> chars::is_hex(#[trigger] v@[j]),
        decreases 40 - i,
    {
        if !hex(v[i]) {
            return false;
        }
        i += 1;
    }
    true
}

/// The commit whose message is being read.
struct Reading {
    hash: String,
    body: String,
}

/// The commit whose message is being read, as it is seen in contracts.
spec fn reading(r: Option<Reading>) -> Option<(Seq<char>, Seq<char>)> {
    match r {
        Some(c) => Some((c.hash@, c.body@)),
        None => None,
    }
}

/// Whether the commit belongs to the revision.
fn matches_revision(c: &Option<Reading>, id: u32) -> (r: bool)
    ensures
        r == belongs(reading(*c), id),
{
    match c {
        Some(c) => match parse_revision_id(c.body.as_str()) {
            Some(n) => n == id,
            None => false,
        },
        None => false,
    }
}

/// The commit hash in a log of hashes and messages that has the given revision ID
/// in its Differential Revision trailer. Used after rebase when hashes change.
pub fn find_commit_with_revision(log: &str, id: u32) -> (r: Option<String>)
    ensures
        views::opt(r) == commit_of(pieces::lines(log@), None, id),
{
    let lines = lines_of(log);
    let ghost all = pieces::lines(log@);
    let mut commit: Option<Reading> = None;
    let mut i: usize = 0;
    proof {
        assert(all.skip(0) =~= all);
    }
    while i < lines.len()
        invariant
            i <= lines@.len(),
            all == views::strs(lines@),
            all == pieces::lines(log@),
            commit_of(all, None, id) == commit_of(all.skip(i as int), reading(commit), id),
        decreases lines.len() - i,
    {
        proof {
            assert(all.skip(i as int)[0] == lines@[i as int]@);
            assert(all.skip(i as int).drop_first() =~= all.skip(i + 1));
        }
        let v = to_chars(lines[i].as_str());
        if is_commit_line(&v) {
            if matches_revision(&commit, id) {
                return match commit {
                    Some(c) => Some(c.hash),
                    None => None,
                };
            }
            proof {
                assert(v@.subrange(0, 40) =~= v@.take(40));
                assert(v@.subrange(40, v@.len() as int) =~= v@.skip(40));
            }
            let rest = piece(&v, 40, v.len());
            let rest = trimmed(rest.as_str());
            commit = Some(
                Reading { hash: piece(&v, 0, 40), body: concat2(rest.as_str(), "\n") },
            );
        } else {
            commit = match commit {
                Some(c) => Some(
                    Reading {
                        hash: c.hash,
                        body: concat3(c.body.as_str(), lines[i].as_str(), "\n"),
                    },
                ),
                None => None,
            };
        }
        i += 1;
    }
    proof {
        assert(all.skip(i as int) =~= Seq::<Seq<char>>::empty());
    }
    if matches_revision(&commit, id) {
        match commit {
            Some(c) => Some(c.hash),
            None => None,
        }
    } else {
        None
    }
}

/// The revision of the closest submitted commit below place `n`.
pub open spec fn parent_revision(p: Seq<PatchView>, n: int) -> Option<u32>
    decreases n,
{
    if n <= 0 {
        None
    } else if p[n - 1].pr_number is Some && p[n - 1].status == PatchStatus::Submitted {
        p[n - 1].pr_number
    } else {
        parent_revision(p, n - 1)
    }
}

/// Find the revision ID of the closest submitted parent in the stack.
pub fn find_parent_revision(patches: &Vec<PatchEntry>, index: usize) -> (r: Option<u32>)
    requires
        index <= patches@.len(),
    ensures
        r == parent_revision(stack::patches(patches@), index as int),
{
    let ghost p = stack::patches(patches@);
    let mut i: usize = index;
    while i > 0
        invariant
            i <= index <= patches@.len(),
            p == stack::patches(patches@),
            parent_revision(p, index as int) == parent_revision(p, i as int),
        decreases i,
    {
        i -= 1;
        proof {
            assert(p[i as int] == patches@[i as int]@);
        }
        if patches[i].pr_number.is_some() && patches[i].status == PatchStatus::Submitted {
            return patches[i].pr_number;
        }
    }
    None
}

/// An entry marked as submitted where its commit's message names a revision.
pub open spec fn marked(e: PatchView, message: Seq<char>) -> PatchView {
    match revision(message) {
        Some(r) => PatchView {
            status: PatchStatus::Submitted,
            pr_number: Some(r.0),
            pr_url: Some(r.1),
            ..e
        },
        None => e,
    }
}

/// Mark submitted patches: those whose commit's message names a revision. The trailers
/// are added by arc diff during submit and preserved through rebases.
pub fn mark_submitted(patches: &mut Vec<PatchEntry>, messages: &Vec<String>)
    requires
        messages@.len() == old(patches)@.len(),
    ensures
        stack::patches(final(patches)@) == Seq::new(
            old(patches)@.len(),
            |i: int| marked(stack::patches(old(patches)@)[i], views::strs(messages@)[i]),
        ),
{
    let ghost p = stack::patches(patches@);
    let ghost ms = views::strs(messages@);
    let ghost all = Seq::new(p.len(), |i: int| marked(p[i], ms[i]));
    let n: usize = patches.len();
    let mut i: usize = 0;
    while i < n
        invariant
            i <= n == patches@.len() == p.len(),
            messages@.len() == n,
            ms == views::strs(messages@),
            all == Seq::new(p.len(), |i: int| marked(p[i], ms[i])),
            forall|j: int| 0 <= j < i ==> (#[trigger] patches@[j])@ == all[j],
            forall|j: int| i <= j < n ==> (#[trigger] patches@[j])@ == p[j],
        decreases n - i,
    {
        proof {
            assert(ms[i as int] == messages@[i as int]@);
        }
        let mut e = patches[i].clone();
        if let Some(x) = parse_revision_id_and_url(messages[i].as_str()) {
            e.status = PatchStatus::Submitted;
            e.pr_number = Some(x.0);
            e.pr_url = Some(x.1);
        }
        patches.set(i, e);
        i += 1;
    }
    proof {
        assert(stack::patches(patches@) =~= all);
    }
}

/// What a trailer says behind its key.
pub open spec fn trailer_value(line: Seq<char>) -> Seq<char> {
    chars::trim(chars::trim(line).skip("Differential Revision:"@.len() as int))
}

/// What the trailers of a message that name a revision say.
pub open spec fn trailer_values(message: Seq<char>) -> Seq<Seq<char>> {
    pieces::lines(message).filter(|l: Seq<char>| is_trailer(l)).map_values(
        |l: Seq<char>| trailer_value(l),
    )
}

/// What the trailers of a branch's message say, each to be looked for in the base branch:
/// arc land squashes commits into a new hash but preserves the trailer.
pub fn landing_trailers(message: &str) -> (r: Vec<String>)
    ensures
        views::strs(r@) == trailer_values(message@),
{
    let lines = lines_of(message);
    let ghost all = pieces::lines(message@);
    let ghost p = |l: Seq<char>| is_trailer(l);
    let ghost f = |l: Seq<char>| trailer_value(l);
    let mut found: Vec<String> = Vec::new();
    let mut i: usize = 0;
    proof {
        assert(all.take(0) =~= Seq::<Seq<char>>::empty());
        pieces::lemma_filter_empty(p);
        assert(Seq::<Seq<char>>::empty().map_values(f) =~= Seq::<Seq<char>>::empty());
    }
    while i < lines.len()
        invariant
            i <= lines@.len(),
            all == views::strs(lines@),
            p == (|l: Seq<char>| is_trailer(l)),
            f == (|l: Seq<char>| trailer_value(l)),
            views::strs(found@) == all.take(i as int).filter(p).map_values(f),
        decreases lines.len() - i,
    {
        let ghost before = all.take(i as int).filter(p);
        proof {
            assert(all.take(i + 1) =~= all.take(i as int).push(all[i as int]));
            pieces::lemma_filter_push(all.take(i as int), all[i as int], p);
            assert(all[i as int] == lines@[i as int]@);
            assert(before.push(all[i as int]).map_values(f) =~= before.map_values(f).push(
                trailer_value(all[i as int]),
            ));
        }
        let t = trimmed(lines[i].as_str());
        if let Some(rest) = after_prefix(t.as_str(), "Differential Revision:") {
            found.push(trimmed(rest.as_str()));
        }
        i += 1;
    }
    proof {
        assert(all.take(i as int) =~= all);
    }
    found
}

/// The base branch in which landed commits are looked for: the detected one, or
/// `origin/main` where there is none.
pub fn landing_base(detected: Result<String, String>) -> (r: String)
    ensures
        r@ == match views::res(detected) {
            Ok(b) => b,
            Err(e) => "origin/main"@,
        },
{
    match detected {
        Ok(b) => b,
        Err(e) => "origin/main".to_owned(),
    }
}

/// The command that prints the messages of the base branch in which a text occurs, each
/// followed by a record separator (%x1e).
pub fn landing_search(base: &str, value: &str) -> (r: Vec<String>)
    ensures
        views::strs(r@) == seq![
            "log"@,
            base@,
            "--fixed-strings"@,
            "--grep"@,
            value@,
            "--format=%B%x1e"@,
        ],
{
    args(&["log", base, "--fixed-strings", "--grep", value, "--format=%B%x1e"])
}

/// The messages that a search printed.
pub open spec fn printed(output: Seq<char>) -> Seq<Seq<char>> {
    pieces::split(output, "\x1e"@)
}

/// Whether a trailer of one message that names a revision says the same as one of the
/// other: all of it, so that D12 is not taken for D123.
pub open spec fn share_trailer(a: Seq<char>, b: Seq<char>) -> bool {
    exists|v: Seq<char>| #[trigger] trailer_values(a).contains(v) && trailer_values(b).contains(v)
}

/// Whether a message that a search printed shares a trailer with the branch's.
pub open spec fn has_landed(tip: Seq<char>, outputs: Seq<Seq<char>>) -> bool {
    exists|i: int, k: int|
        0 <= i < outputs.len() && 0 <= k < printed(outputs[i]).len() && share_trailer(
            tip,
            #[trigger] printed(outputs[i])[k],
        )
}

/// Whether one of the texts is the other one.
fn among(texts: &Vec<String>, s: &str) -> (r: bool)
    ensures
        r == views::strs(texts@).contains(s@),
{
    let ghost all = views::strs(texts@);
    let mut i: usize = 0;
    while i < texts.len()
        invariant
            i <= texts@.len() == all.len(),
            all == views::strs(texts@),
            forall|j: int| 0 <= j < i ==> #[trigger] all[j] != s@,
        decreases texts.len() - i,
    {
        proof {
            assert(all[i as int] == texts@[i as int]@);
        }
        if same(texts[i].as_str(), s) {
            proof {
                assert(all.contains(s@));
            }
            return true;
        }
        i += 1;
    }
    false
}

/// Whether a message shares a trailer with one whose trailers say `values`.
fn shares(values: &Vec<String>, Ghost(tip): Ghost<Seq<char>>, message: &str) -> (r: bool)
    requires
        views::strs(values@) == trailer_values(tip),
    ensures
        r == share_trailer(tip, message@),
{
    let own = landing_trailers(message);
    let ghost a = trailer_values(tip);
    let ghost b = trailer_values(message@);
    let mut i: usize = 0;
    while i < own.len()
        invariant
            i <= own@.len() == b.len(),
            b == views::strs(own@),
            b == trailer_values(message@),
            a == views::strs(values@),
            a == trailer_values(tip),
            forall|j: int| 0 <= j < i ==> !a.contains(#[trigger] b[j]),
        decreases own.len() - i,
    {
        proof {
            assert(b[i as int] == own@[i as int]@);
        }
        if among(values, own[i].as_str()) {
            proof {
                assert(b.contains(b[i as int]));
                assert(trailer_values(tip).contains(b[i as int]));
            }
            return true;
        }
        i += 1;
    }
    false
}

/// Whether a message that a search printed shares a trailer with the branch's.
fn is_landed(tip: &str, outputs: &Vec<String>) -> (r: bool)
    ensures
        r == has_landed(tip@, views::strs(outputs@)),
{
    let values = landing_trailers(tip);
    let ghost outs = views::strs(outputs@);
    let mut i: usize = 0;
    while i < outputs.len()
        invariant
            i <= outputs@.len() == outs.len(),
            outs == views::strs(outputs@),
            views::strs(values@) == trailer_values(tip@),
            forall|j: int, k: int|
                0 <= j < i && 0 <= k < printed(outs[j]).len() ==> !share_trailer(
                    tip@,
                    #[trigger] printed(outs[j])[k],
                ),
        decreases outputs.len() - i,
    {
        proof {
            reveal_strlit("\x1e");
            assert(outs[i as int] == outputs@[i as int]@);
        }
        let messages = split_text(outputs[i].as_str(), "\x1e");
        let ghost ms = printed(outs[i as int]);
        let mut k: usize = 0;
        while k < messages.len()
            invariant
                i < outs.len(),
                outs == views::strs(outputs@),
                ms == printed(outs[i as int]),
                k <= messages@.len() == ms.len(),
                ms == views::strs(messages@),
                views::strs(values@) == trailer_values(tip@),
                forall|j: int| 0 <= j < k ==> !share_trailer(tip@, #[trigger] ms[j]),
            decreases messages.len() - k,
        {
            proof {
                assert(ms[k as int] == messages@[k as int]@);
            }
            if shares(&values, Ghost(tip@), messages[k].as_str()) {
                proof {
                    assert(share_trailer(tip@, printed(outs[i as int])[k as int]));
                }
                return true;
            }
            k += 1;
        }
        i += 1;
    }
    false
}

/// The branches that have landed: those of which a trailer stands in the base branch.
pub open spec fn landed(
    branches: Seq<Seq<char>>,
    tips: Seq<Seq<char>>,
    outputs: Seq<Seq<Seq<char>>>,
) -> Seq<Seq<char>>
    decreases branches.len(),
{
    if branches.len() == 0 {
        seq![]
    } else {
        let before = landed(branches.drop_last(), tips, outputs);
        if has_landed(tips[branches.len() - 1], outputs[branches.len() - 1]) {
            before.push(branches.last())
        } else {
            before
        }
    }
}

/// The branches that have landed: for each branch, `tips` holds the message of its
/// commit, and `outputs` what the searches of the base branch for its trailers printed.
pub fn find_landed_branches(
    branches: &Vec<String>,
    tips: &Vec<String>,
    outputs: &Vec<Vec<String>>,
) -> (r: Vec<String>)
    requires
        tips@.len() == branches@.len(),
        outputs@.len() == branches@.len(),
    ensures
        views::strs(r@) == landed(
            views::strs(branches@),
            views::strs(tips@),
            views::lists(outputs@),
        ),
{
    let ghost all = views::strs(branches@);
    let ghost ts = views::strs(tips@);
    let ghost outs = views::lists(outputs@);
    let mut found: Vec<String> = Vec::new();
    let mut i: usize = 0;
    proof {
        assert(all.take(0) =~= Seq::<Seq<char>>::empty());
    }
    while i < branches.len()
        invariant
            i <= branches@.len() == outputs@.len(),
            tips@.len() == branches@.len(),
            all == views::strs(branches@),
            ts == views::strs(tips@),
            outs == views::lists(outputs@),
            views::strs(found@) == landed(all.take(i as int), ts, outs),
        decreases branches.len() - i,
    {
        proof {
            assert(all.take(i + 1).drop_last() =~= all.take(i as int));
            assert(all.take(i + 1).last() == branches@[i as int]@);
            assert(ts[i as int] == tips@[i as int]@);
            assert(outs[i as int] == views::strs(outputs@[i as int]@));
        }
        if is_landed(tips[i].as_str(), &outputs[i]) {
            found.push(branches[i].clone());
        }
        i += 1;
    }
    proof {
        assert(all.take(i as int) =~= all);
    }
    found
}

/// A branch is taken for landed if and only if some message that the searches for it
/// printed holds one of its trailers, word for word.
pub proof fn law_landed_by_trailer(
    branches: Seq<Seq<char>>,
    tips: Seq<Seq<char>>,
    outputs: Seq<Seq<Seq<char>>>,
    b: Seq<char>,
)
    ensures
        landed(branches, tips, outputs).contains(b) <==> exists|i: int|
            0 <= i < branches.len() && #[trigger] branches[i] == b && has_landed(
                tips[i],
                outputs[i],
            ),
    decreases branches.len(),
{
    if branches.len() > 0 {
        let n = branches.len() - 1;
        let most = branches.drop_last();
        let before = landed(most, tips, outputs);
        let all = landed(branches, tips, outputs);
        law_landed_by_trailer(most, tips, outputs, b);
        if before.contains(b) {
            let k = choose|k: int| 0 <= k < before.len() && before[k] == b;
            assert(all[k] == b);
            let i = choose|i: int|
                0 <= i < most.len() && #[trigger] most[i] == b && has_landed(tips[i], outputs[i]);
            assert(branches[i] == b);
        }
        if has_landed(tips[n], outputs[n]) && branches[n] == b {
            assert(all[all.len() - 1] == b);
        }
        if all.contains(b) && !before.contains(b) {
            let k = choose|k: int| 0 <= k < all.len() && all[k] == b;
            if k < before.len() {
                assert(before[k] == b);
            }
            assert(branches[n] == b);
        }
        if exists|i: int|
            0 <= i < branches.len() && #[trigger] branches[i] == b && has_landed(
                tips[i],
                outputs[i],
            ) {
            let i = choose|i: int|
                0 <= i < branches.len() && #[trigger] branches[i] == b && has_landed(
                    tips[i],
                    outputs[i],
                );
            if i < n {
                assert(most[i] == b);
            }
        }
    }
}

} // verus!
