//! Squashing commits.
use vstd::prelude::*;

use super::super::app;
use super::super::app::{App, AppView, SuspendReason, SuspendView};
use super::super::term;
use super::super::term::{heading_text, print_box};
use super::{ended, Ask, AskView, Edited, EditedView, Reply, ReplyView};
use crate::text::args::args;
use crate::text::chars;
use crate::text::chars::{concat2, concat3, concat4, copy_strs, trimmed};
use crate::text::number;
use crate::text::number::decimal;
use crate::text::pieces;
use crate::text::pieces::{ended_text, joined, lines_of};
use crate::text::search;
use crate::text::search::{occurs, starts};
use crate::text::views;

verus! {

broadcast use views::group_views;

/// Which answer a squash waits for.
#[derive(Debug, Clone, Copy, PartialEq, Eq, Structural)]
pub enum Stage {
    /// The editor's name.
    Editor,
    /// The message.
    Message,
    /// The repository.
    Open,
    /// The rebase.
    Rebase,
    /// The stack.
    Reload,
    /// Nothing more.
    Over,
}

/// A squash under way.
pub struct Squash {
    pub hashes: Vec<String>,
    pub default_body: String,
    pub trailers: Vec<String>,
    pub editor: String,
    pub message: String,
    pub stage: Stage,
}

/// A squash as it is seen in contracts.
#[verifier::ext_equal]
pub struct SquashView {
    pub hashes: Seq<Seq<char>>,
    pub default_body: Seq<char>,
    pub trailers: Seq<Seq<char>>,
    pub editor: Seq<char>,
    pub message: Seq<char>,
    pub stage: Stage,
}

impl View for Squash {
    type V = SquashView;

    open spec fn view(&self) -> SquashView {
        SquashView {
            hashes: views::strs(self.hashes@),
            default_body: self.default_body@,
            trailers: views::strs(self.trailers@),
            editor: self.editor@,
            message: self.message@,
            stage: self.stage,
        }
    }
}

/// What stands above the messages in the editor.
pub const INSTRUCTIONS: &'static str =
    "# Pick or combine the commit messages below.\n# The first line becomes the commit subject.\n# Lines starting with # are ignored.\n\n";

/// What the editor starts from: the commits' subjects, and then the trailers.
pub open spec fn initial_message(body: Seq<char>, trailers: Seq<Seq<char>>) -> Seq<char> {
    let start = INSTRUCTIONS@ + body + "\n"@;
    if trailers.len() == 0 {
        start
    } else {
        start + "\n"@ + pieces::ended(trailers, "\n"@)
    }
}

/// What the editor starts from.
pub fn squash_draft(body: &str, trailers: &Vec<String>) -> (r: String)
    ensures
        r@ == initial_message(body@, views::strs(trailers@)),
{
    let mut text = concat3(INSTRUCTIONS, body, "\n");
    proof {
        assert(views::strs(trailers@).len() == trailers@.len());
    }
    if trailers.len() > 0 {
        text.append("\n");
        let tail = ended_text(trailers, "\n");
        text.append(tail.as_str());
    }
    text
}

/// The message without the lines that begin with `#`, and without white space around it.
pub open spec fn without_comments(edited: Seq<char>) -> Seq<char> {
    chars::trim(
        pieces::join(pieces::lines(edited).filter(|l: Seq<char>| !"#"@.is_prefix_of(l)), "\n"@),
    )
}

/// The message with the first `n` trailers, each appended where it is missing.
pub open spec fn with_trailers(message: Seq<char>, trailers: Seq<Seq<char>>, n: int) -> Seq<char>
    decreases n,
{
    if n <= 0 {
        message
    } else {
        let before = with_trailers(message, trailers, n - 1);
        if search::contains(before, trailers[n - 1]) {
            before
        } else {
            before + "\n\n"@ + trailers[n - 1]
        }
    }
}

/// The message that an edited text gives, if any.
pub open spec fn final_message(edited: Seq<char>, trailers: Seq<Seq<char>>) -> Option<Seq<char>> {
    let m = without_comments(edited);
    if m.len() == 0 {
        None
    } else {
        Some(with_trailers(m, trailers, trailers.len() as int))
    }
}

/// The message that an edited text gives: without comment lines, and with the trailers
/// that were removed during editing. None where nothing is left.
pub fn squash_message(edited: &str, trailers: &Vec<String>) -> (r: Option<String>)
    ensures
        views::opt(r) == final_message(edited@, views::strs(trailers@)),
{
    let lines = lines_of(edited);
    let ghost all = pieces::lines(edited@);
    let ghost p = |l: Seq<char>| !"#"@.is_prefix_of(l);
    let mut kept: Vec<String> = Vec::new();
    let mut i: usize = 0;
    proof {
        assert(all.take(0) =~= Seq::<Seq<char>>::empty());
        pieces::lemma_filter_empty(p);
    }
    while i < lines.len()
        invariant
            i <= lines@.len(),
            all == views::strs(lines@),
            p == (|l: Seq<char>| !"#"@.is_prefix_of(l)),
            views::strs(kept@) == all.take(i as int).filter(p),
        decreases lines.len() - i,
    {
        proof {
            assert(all.take(i + 1) =~= all.take(i as int).push(all[i as int]));
            pieces::lemma_filter_push(all.take(i as int), all[i as int], p);
            assert(all[i as int] == lines@[i as int]@);
        }
        if !starts(lines[i].as_str(), "#") {
            kept.push(lines[i].clone());
        }
        i += 1;
    }
    proof {
        assert(all.take(i as int) =~= all);
    }
    let text = joined(&kept, "\n");
    let mut message = trimmed(text.as_str());
    if message.as_str().is_empty() {
        return None;
    }
    let ghost start = message@;
    let ghost ts = views::strs(trailers@);
    let mut k: usize = 0;
    while k < trailers.len()
        invariant
            k <= trailers@.len(),
            ts == views::strs(trailers@),
            message@ == with_trailers(start, ts, k as int),
        decreases trailers.len() - k,
    {
        proof {
            assert(ts[k as int] == trailers@[k as int]@);
        }
        if !occurs(message.as_str(), trailers[k].as_str()) {
            message.append("\n\n");
            message.append(trailers[k].as_str());
        }
        k += 1;
    }
    Some(message)
}

/// The lines that are said before the editor opens.
pub open spec fn squash_lines(count: nat, editor: Seq<char>) -> Seq<Seq<char>> {
    seq![
        "Squashing "@ + number::dec(count) + " commits. Edit the combined commit message."@,
        ""@,
        "  Editor: \x1b[1;33m"@ + editor + "\x1b[0m"@,
        ""@,
        "  First line = commit subject"@,
        "  Remaining lines = commit body"@,
        ""@,
        "  Save and close the editor when done."@,
    ]
}

/// What is said before the editor opens.
pub open spec fn squash_box(count: nat, editor: Seq<char>) -> Seq<char> {
    "\n"@ + term::box_text("36"@, "pilegit: edit squash message"@, squash_lines(count, editor))
}

/// What is said before the editor opens.
fn squash_text(count: usize, editor: &str) -> (r: String)
    ensures
        r@ == squash_box(count as nat, editor@),
{
    let n = decimal(count as u64);
    let first = concat3(
        "Squashing ",
        n.as_str(),
        " commits. Edit the combined commit message.",
    );
    let second = concat3("  Editor: \x1b[1;33m", editor, "\x1b[0m");
    let lines = args(
        &[
            first.as_str(),
            "",
            second.as_str(),
            "",
            "  First line = commit subject",
            "  Remaining lines = commit body",
            "",
            "  Save and close the editor when done.",
        ],
    );
    proof {
        assert(views::strs(lines@) =~= squash_lines(count as nat, editor@));
    }
    let b = print_box("36", "pilegit: edit squash message", &lines);
    concat2("\n", b.as_str())
}

/// Squash commits: the first step.
pub fn handle_squash_commits(
    hashes: Vec<String>,
    default_body: String,
    trailers: Vec<String>,
) -> (r: (Squash, Ask))
    ensures
        r.0@ == (SquashView {
            hashes: views::strs(hashes@),
            default_body: default_body@,
            trailers: views::strs(trailers@),
            editor: seq![],
            message: seq![],
            stage: Stage::Editor,
        }),
        r.1@ == AskView::Editor,
{
    (
        Squash {
            hashes,
            default_body,
            trailers,
            editor: String::new(),
            message: String::new(),
            stage: Stage::Editor,
        },
        Ask::Editor,
    )
}

/// What follows an answer. The message is edited, and then git does the actual squash.
pub open spec fn squash_step(a: AppView, s: SquashView, reply: ReplyView) -> (
    AppView,
    SquashView,
    Seq<char>,
    AskView,
) {
    let over = SquashView { stage: Stage::Over, ..s };
    let quiet = super::silence();
    let count = number::dec(s.hashes.len());
    match (s.stage, reply) {
        (Stage::Editor, ReplyView::Text(editor)) => (
            a,
            SquashView { editor, stage: Stage::Message, ..s },
            squash_box(s.hashes.len(), editor),
            AskView::Edit {
                name: "pgit-squash-msg-"@,
                content: initial_message(s.default_body, s.trailers),
                editor,
            },
        ),
        (Stage::Message, ReplyView::Edited(e)) => match e {
            EditedView::Saved(text) => match final_message(text, s.trailers) {
                Some(message) => (
                    a,
                    SquashView { message, stage: Stage::Open, ..s },
                    term::CLEAR@ + term::heading("Squashing "@ + count + " commits..."@),
                    AskView::Open,
                ),
                None => (
                    a.notified("Empty message — squash cancelled."@),
                    over,
                    quiet,
                    super::end(),
                ),
            },
            EditedView::Failed => (
                a.notified("Editor exited with error — squash cancelled."@),
                over,
                quiet,
                super::end(),
            ),
            EditedView::Lost(why) => (
                a.notified("Could not open "@ + s.editor + ": "@ + why),
                over,
                quiet,
                super::end(),
            ),
        },
        (Stage::Open, ReplyView::Done(r)) => match r {
            Ok(u) => (
                a,
                SquashView { stage: Stage::Rebase, ..s },
                quiet,
                AskView::Squash { hashes: s.hashes, message: s.message },
            ),
            Err(e) => (a, over, quiet, super::fail(e)),
        },
        (Stage::Rebase, ReplyView::Rebase(r)) => match r {
            Ok(complete) => if complete {
                (a, SquashView { stage: Stage::Reload, ..s }, quiet, AskView::Reload)
            } else {
                (
                    a.notified("Conflict during squash."@).suspended(SuspendView::RebaseConflict),
                    over,
                    quiet,
                    super::end(),
                )
            },
            Err(e) => (a.notified("Squash failed: "@ + e), over, quiet, super::end()),
        },
        (Stage::Reload, ReplyView::Stack(r)) => match r.commits {
            Ok(p) => (
                a.reloaded(p).recorded("squash "@ + count + " commits"@, r.head, r.now).notified(
                    "Squashed "@ + count + " commits."@,
                ),
                over,
                quiet,
                super::end(),
            ),
            Err(e) => (a, over, quiet, super::fail(e)),
        },
        _ => (a, over, quiet, super::end()),
    }
}

impl Squash {
    /// The same squash, which waits for another answer.
    fn at(self, stage: Stage) -> (r: Squash)
        ensures
            r@ == (SquashView { stage, ..self@ }),
    {
        Squash { stage, ..self }
    }

    /// What follows an answer.
    pub fn step(self, app: &mut App, reply: Reply) -> (r: (Squash, String, Ask))
        requires
            old(app)@.wf(),
            !old(app)@.selecting(),
        ensures
            final(app)@ == squash_step(old(app)@, self@, reply@).0,
            r.0@ == squash_step(old(app)@, self@, reply@).1,
            r.1@ == squash_step(old(app)@, self@, reply@).2,
            r.2@ == squash_step(old(app)@, self@, reply@).3,
            final(app)@.wf(),
            !final(app)@.selecting(),
    {
        let quiet = String::new();
        proof {
            assert(self@.hashes.len() == self.hashes@.len());
        }
        let count = decimal(self.hashes.len() as u64);
        match (self.stage, reply) {
            (Stage::Editor, Reply::Text(editor)) => {
                let text = squash_text(self.hashes.len(), editor.as_str());
                let ask = Ask::Edit {
                    name: "pgit-squash-msg-".to_owned(),
                    content: squash_draft(self.default_body.as_str(), &self.trailers),
                    editor: editor.clone(),
                };
                (Squash { editor, stage: Stage::Message, ..self }, text, ask)
            },
            (Stage::Message, Reply::Edited(e)) => match e {
                Edited::Saved(text) => match squash_message(text.as_str(), &self.trailers) {
                    Some(message) => {
                        let what = concat3("Squashing ", count.as_str(), " commits...");
                        let head = heading_text(what.as_str());
                        let say = concat2(term::CLEAR, head.as_str());
                        (Squash { message, stage: Stage::Open, ..self }, say, Ask::Open)
                    },
                    None => {
                        app.tell("Empty message — squash cancelled.");
                        (self.at(Stage::Over), quiet, ended())
                    },
                },
                Edited::Failed => {
                    app.tell("Editor exited with error — squash cancelled.");
                    (self.at(Stage::Over), quiet, ended())
                },
                Edited::Lost(why) => {
                    app.notify(
                        concat4("Could not open ", self.editor.as_str(), ": ", why.as_str()),
                    );
                    (self.at(Stage::Over), quiet, ended())
                },
            },
            (Stage::Open, Reply::Done(r)) => match r {
                Ok(u) => {
                    let ask = Ask::Squash {
                        hashes: copy_strs(&self.hashes),
                        message: self.message.clone(),
                    };
                    (self.at(Stage::Rebase), quiet, ask)
                },
                Err(e) => (self.at(Stage::Over), quiet, Ask::End(Err(e))),
            },
            (Stage::Rebase, Reply::Rebase(r)) => match r {
                Ok(complete) => {
                    if complete {
                        (self.at(Stage::Reload), quiet, Ask::Reload)
                    } else {
                        app.tell("Conflict during squash.");
                        app.wants_suspend = Some(SuspendReason::RebaseConflict);
                        (self.at(Stage::Over), quiet, ended())
                    }
                },
                Err(e) => {
                    app.notify(concat2("Squash failed: ", e.as_str()));
                    (self.at(Stage::Over), quiet, ended())
                },
            },
            (Stage::Reload, Reply::Stack(r)) => match r.commits {
                Ok(commits) => {
                    app.reload_stack(commits);
                    let what = concat3("squash ", count.as_str(), " commits");
                    app.record_reload(what.as_str(), r.head.as_str(), r.now);
                    app.notify(concat3("Squashed ", count.as_str(), " commits."));
                    (self.at(Stage::Over), quiet, ended())
                },
                Err(e) => (self.at(Stage::Over), quiet, Ask::End(Err(e))),
            },
            _ => (self.at(Stage::Over), quiet, ended()),
        }
    }
}

/// A text contains what it ends with.
proof fn lemma_contains_end(s: Seq<char>, t: Seq<char>)
    ensures
        search::contains(s + t, t),
{
    let w = s + t;
    let k = s.len() as int;
    assert(w.subrange(k, k + t.len()) =~= t);
    search::lemma_contains(w, t);
}

/// Appending text keeps what a text contains.
proof fn lemma_contains_append(s: Seq<char>, t: Seq<char>, pat: Seq<char>)
    requires
        search::contains(s, pat),
    ensures
        search::contains(s + t, pat),
{
    search::lemma_find(s, pat);
    let i = search::find(s, pat)->0;
    let w = s + t;
    assert(w.subrange(i, i + pat.len()) =~= s.subrange(i, i + pat.len()));
    search::lemma_contains(w, pat);
}

/// The message of a squash holds every trailer of the squashed commits, whatever was done
/// to it in the editor.
pub proof fn law_trailers_kept(message: Seq<char>, trailers: Seq<Seq<char>>, n: int, i: int)
    requires
        0 <= i < n <= trailers.len(),
    ensures
        search::contains(with_trailers(message, trailers, n), trailers[i]),
    decreases n,
{
    let before = with_trailers(message, trailers, n - 1);
    let t = trailers[n - 1];
    let gap = before + "\n\n"@;
    if i < n - 1 {
        law_trailers_kept(message, trailers, n - 1, i);
        lemma_contains_append(before, "\n\n"@, trailers[i]);
        lemma_contains_append(gap, t, trailers[i]);
    } else {
        lemma_contains_end(gap, t);
    }
}

} // verus!
