//! Bringing all reviews up to date.
use vstd::prelude::*;

use super::super::app;
use super::super::app::{App, AppView};
use super::super::term;
use super::super::term::{bad_text, each_text, good_text, heading_text, seconds};
use super::rebase;
use super::rebase::reload_if_read;
use super::{ended, Ask, AskView, Reply, ReplyView};
use crate::git::ops;
use crate::text::chars::{concat2, concat3, concat4, concat5, concat6};
use crate::text::number;
use crate::text::number::decimal;
use crate::text::pieces;
use crate::text::pieces::split_text;
use crate::text::search;
use crate::text::search::{dropped_prefix, dropped_prefixes, ends, starts};
use crate::text::views;

verus! {

broadcast use views::group_views;

/// Which answer the operation waits for.
#[derive(Debug, Clone, Copy, PartialEq, Eq, Structural)]
pub enum Stage {
    /// The repository.
    Open,
    /// The reviews that were changed by someone else.
    Diverged,
    /// Enter, where there are such.
    Refused,
    /// The dependencies.
    Fix,
    /// The stack, with its dependencies fixed.
    Fixed,
    /// The repository, once more.
    Reopen,
    /// The base.
    Base,
    /// The reviews.
    Sync,
    /// The stack.
    Reload,
    /// The record of what was pushed.
    Save,
    /// The stale branches.
    Cleanup,
    /// Enter.
    Enter,
    /// Nothing more.
    Over,
}

/// The operation under way.
pub struct SyncAll {
    /// The branch that the stack goes into.
    pub base: String,
    /// How many reviews are up to date.
    pub count: u64,
    pub stage: Stage,
}

/// The operation as it is seen in contracts.
#[verifier::ext_equal]
pub struct SyncAllView {
    pub base: Seq<char>,
    pub count: u64,
    pub stage: Stage,
}

impl View for SyncAll {
    type V = SyncAllView;

    open spec fn view(&self) -> SyncAllView {
        SyncAllView { base: self.base@, count: self.count, stage: self.stage }
    }
}

/// Whether a line tells of a review that goes straight into the base.
pub open spec fn is_ready(line: Seq<char>, base: Seq<char>) -> bool {
    "✓"@.is_prefix_of(line) && ("→ "@ + base).is_suffix_of(line)
}

/// The branch that a line tells of.
pub open spec fn told_branch(line: Seq<char>) -> Seq<char> {
    pieces::split(search::without_prefixes(line, "✓ "@), " → "@)[0]
}

/// The branches that can be merged into the base, out of what is said of each review.
pub open spec fn ready(lines: Seq<Seq<char>>, base: Seq<char>) -> Seq<Seq<char>>
    decreases lines.len(),
{
    if lines.len() == 0 {
        seq![]
    } else {
        let before = ready(lines.drop_last(), base);
        if is_ready(lines.last(), base) {
            before.push(told_branch(lines.last()))
        } else {
            before
        }
    }
}

/// The lines that tell of failures.
pub open spec fn failed(lines: Seq<Seq<char>>) -> Seq<Seq<char>>
    decreases lines.len(),
{
    if lines.len() == 0 {
        seq![]
    } else {
        let before = failed(lines.drop_last());
        if "⚠"@.is_prefix_of(lines.last()) {
            before.push(lines.last())
        } else {
            before
        }
    }
}

/// What is said of the reviews that are up to date.
pub open spec fn report(lines: Seq<Seq<char>>, base: Seq<char>) -> Seq<char> {
    if lines.len() == 0 {
        term::CLEAR@ + "\n"@ + term::good_line("No open PRs to sync."@)
    } else {
        term::CLEAR@ + "\n"@ + term::good_line(
            "Synced "@ + number::dec(lines.len()) + " PRs:"@,
        ) + "\n"@ + term::each("    "@, lines, "\n"@) + (ready_part(ready(lines, base), base)
            + failed_part(failed(lines)))
    }
}

/// What is said of the branches that can be merged.
pub open spec fn ready_part(names: Seq<Seq<char>>, base: Seq<char>) -> Seq<char> {
    if names.len() == 0 {
        seq![]
    } else {
        "\n  \x1b[1;32m▸ Ready to merge into "@ + base + ":\x1b[0m\n"@ + term::each(
            "    \x1b[1;33m"@,
            names,
            "\x1b[0m\n"@,
        )
    }
}

/// What is said of failures.
pub open spec fn failed_part(lines: Seq<Seq<char>>) -> Seq<char> {
    if lines.len() == 0 {
        seq![]
    } else {
        "\n  \x1b[1;31m⚠ Failed:\x1b[0m\n"@ + term::each("    "@, lines, "\n"@)
    }
}

/// What is said where reviews were changed by someone else.
pub open spec fn refusal(diverged: Seq<(Seq<char>, Seq<char>)>) -> Seq<char> {
    term::CLEAR@
        + "\n  \x1b[1;31m⚠ Remote has newer changes that would be overwritten:\x1b[0m\n\n"@
        + term::each("    \x1b[33m"@, term::second_of(diverged), "\x1b[0m\n"@)
        + "\n  Press \x1b[1;32mP\x1b[0m to pull remote changes first, then sync.\n"@
        + term::PRESS_ENTER@
}

/// The branches that can be merged into the base.
pub fn ready_branches(lines: &Vec<String>, base: &str) -> (r: Vec<String>)
    ensures
        views::strs(r@) == ready(views::strs(lines@), base@),
{
    let ghost all = views::strs(lines@);
    let end = concat2("→ ", base);
    let mut r: Vec<String> = Vec::new();
    let mut i: usize = 0;
    proof {
        assert(all.take(0) =~= Seq::<Seq<char>>::empty());
    }
    while i < lines.len()
        invariant
            i <= lines@.len(),
            all == views::strs(lines@),
            end@ == "→ "@ + base@,
            views::strs(r@) == ready(all.take(i as int), base@),
        decreases lines.len() - i,
    {
        proof {
            assert(all.take(i + 1).drop_last() =~= all.take(i as int));
            assert(all.take(i + 1).last() == lines@[i as int]@);
        }
        if starts(lines[i].as_str(), "✓") && ends(lines[i].as_str(), end.as_str()) {
            proof {
                reveal_strlit("✓ ");
                reveal_strlit(" → ");
            }
            let rest = dropped_prefixes(lines[i].as_str(), "✓ ");
            let parts = split_text(rest.as_str(), " → ");
            proof {
                assert(pieces::split(rest@, " → "@).len() > 0);
                assert(views::strs(parts@).len() == parts@.len());
            }
            r.push(parts[0].clone());
        }
        i += 1;
    }
    proof {
        assert(all.take(i as int) =~= all);
    }
    r
}

/// The lines that tell of failures.
pub fn failed_lines(lines: &Vec<String>) -> (r: Vec<String>)
    ensures
        views::strs(r@) == failed(views::strs(lines@)),
{
    let ghost all = views::strs(lines@);
    let mut r: Vec<String> = Vec::new();
    let mut i: usize = 0;
    proof {
        assert(all.take(0) =~= Seq::<Seq<char>>::empty());
    }
    while i < lines.len()
        invariant
            i <= lines@.len(),
            all == views::strs(lines@),
            views::strs(r@) == failed(all.take(i as int)),
        decreases lines.len() - i,
    {
        proof {
            assert(all.take(i + 1).drop_last() =~= all.take(i as int));
            assert(all.take(i + 1).last() == lines@[i as int]@);
        }
        if starts(lines[i].as_str(), "⚠") {
            r.push(lines[i].clone());
        }
        i += 1;
    }
    proof {
        assert(all.take(i as int) =~= all);
    }
    r
}

/// What is said of the branches that can be merged.
fn ready_text(names: &Vec<String>, base: &str) -> (r: String)
    ensures
        r@ == ready_part(views::strs(names@), base@),
{
    proof {
        assert(views::strs(names@).len() == names@.len());
    }
    if names.len() == 0 {
        String::new()
    } else {
        let list = each_text("    \x1b[1;33m", names, "\x1b[0m\n");
        concat4(
            "\n  \x1b[1;32m▸ Ready to merge into ",
            base,
            ":\x1b[0m\n",
            list.as_str(),
        )
    }
}

/// What is said of failures.
fn failed_text(lines: &Vec<String>) -> (r: String)
    ensures
        r@ == failed_part(views::strs(lines@)),
{
    proof {
        assert(views::strs(lines@).len() == lines@.len());
    }
    if lines.len() == 0 {
        String::new()
    } else {
        let list = each_text("    ", lines, "\n");
        concat2("\n  \x1b[1;31m⚠ Failed:\x1b[0m\n", list.as_str())
    }
}

/// What is said of the reviews that are up to date.
pub fn sync_report(lines: &Vec<String>, base: &str) -> (r: String)
    ensures
        r@ == report(views::strs(lines@), base@),
{
    proof {
        assert(views::strs(lines@).len() == lines@.len());
    }
    if lines.len() == 0 {
        let line = good_text("No open PRs to sync.");
        concat3(term::CLEAR, "\n", line.as_str())
    } else {
        let n = decimal(lines.len() as u64);
        let text = concat3("Synced ", n.as_str(), " PRs:");
        let line = good_text(text.as_str());
        let list = each_text("    ", lines, "\n");
        let names = ready_branches(lines, base);
        let ready = ready_text(&names, base);
        let bad = failed_lines(lines);
        let bad = failed_text(&bad);
        let tail = concat2(ready.as_str(), bad.as_str());
        concat6(term::CLEAR, "\n", line.as_str(), "\n", list.as_str(), tail.as_str())
    }
}

/// What is said where reviews were changed by someone else.
fn refusal_text(diverged: &Vec<(String, String)>) -> (r: String)
    ensures
        r@ == refusal(views::pairs(diverged@)),
{
    let list = seconds(diverged);
    let list = each_text("    \x1b[33m", &list, "\x1b[0m\n");
    concat5(
        term::CLEAR,
        "\n  \x1b[1;31m⚠ Remote has newer changes that would be overwritten:\x1b[0m\n\n",
        list.as_str(),
        "\n  Press \x1b[1;32mP\x1b[0m to pull remote changes first, then sync.\n",
        term::PRESS_ENTER,
    )
}

/// Sync all submitted PRs with progress display: the first step.
pub fn handle_sync_prs() -> (r: (SyncAll, String, Ask))
    ensures
        r.0@ == (SyncAllView { base: seq![], count: 0, stage: Stage::Open }),
        r.1@ == term::CLEAR@ + term::heading("Syncing PRs..."@),
        r.2@ == AskView::Open,
{
    let head = heading_text("Syncing PRs...");
    (
        SyncAll { base: String::new(), count: 0, stage: Stage::Open },
        concat2(term::CLEAR, head.as_str()),
        Ask::Open,
    )
}

/// What follows an answer. Where someone else changed a review nothing is brought up to
/// date.
pub open spec fn sync_step(a: AppView, s: SyncAllView, reply: ReplyView) -> (
    AppView,
    SyncAllView,
    Seq<char>,
    AskView,
) {
    let over = SyncAllView { stage: Stage::Over, ..s };
    let quiet = super::silence();
    match (s.stage, reply) {
        (Stage::Open, ReplyView::Done(r)) => match r {
            Ok(u) => (a, SyncAllView { stage: Stage::Diverged, ..s }, quiet, AskView::Diverged),
            Err(e) => (a, over, quiet, super::fail(e)),
        },
        (Stage::Diverged, ReplyView::Diverged(Some(v))) => if v.len() > 0 {
            (a, SyncAllView { stage: Stage::Refused, ..s }, refusal(v), AskView::Enter)
        } else {
            (a, SyncAllView { stage: Stage::Fix, ..s }, quiet, AskView::FixDependencies)
        },
        (Stage::Refused, ReplyView::Nothing) => (
            a.notified("Sync aborted — remote has newer changes. Press P to pull."@),
            over,
            quiet,
            super::end(),
        ),
        (Stage::Fix, ReplyView::Flag(opened)) => (
            a,
            SyncAllView { stage: Stage::Fixed, ..s },
            quiet,
            AskView::Reload,
        ),
        (Stage::Fixed, ReplyView::Stack(r)) => (
            rebase::maybe_reloaded(a, r.commits),
            SyncAllView { stage: Stage::Reopen, ..s },
            quiet,
            AskView::Open,
        ),
        (Stage::Reopen, ReplyView::Done(r)) => match r {
            Ok(u) => (a, SyncAllView { stage: Stage::Base, ..s }, quiet, AskView::Base),
            Err(e) => (a, over, quiet, super::fail(e)),
        },
        (Stage::Base, ReplyView::Answer(r)) => match r {
            Ok(base) => (
                a,
                SyncAllView { base: ops::plain_base(base), stage: Stage::Sync, ..s },
                quiet,
                AskView::Sync,
            ),
            Err(e) => (a, over, quiet, super::fail(e)),
        },
        (Stage::Sync, ReplyView::Synced(Some(r))) => match r {
            Ok(lines) => (
                a,
                SyncAllView { count: lines.len() as u64, stage: Stage::Reload, ..s },
                report(lines, s.base),
                AskView::Reload,
            ),
            Err(e) => (
                a.notified("Sync failed: "@ + e),
                SyncAllView { stage: Stage::Cleanup, ..s },
                term::CLEAR@ + "\n"@ + term::bad_line("Sync failed: "@, e),
                AskView::Cleanup,
            ),
        },
        (Stage::Reload, ReplyView::Stack(r)) => (
            rebase::maybe_reloaded(a, r.commits),
            SyncAllView { stage: Stage::Save, ..s },
            quiet,
            AskView::SaveState,
        ),
        (Stage::Save, ReplyView::Nothing) => (
            a.notified("Synced "@ + number::dec(s.count as nat) + " PRs."@),
            SyncAllView { stage: Stage::Cleanup, ..s },
            quiet,
            AskView::Cleanup,
        ),
        (Stage::Cleanup, ReplyView::Nothing) => (
            a,
            SyncAllView { stage: Stage::Enter, ..s },
            term::PRESS_ENTER@,
            AskView::Enter,
        ),
        _ => (a, over, quiet, super::end()),
    }
}

impl SyncAll {
    /// The same operation, which waits for another answer.
    fn at(self, stage: Stage) -> (r: SyncAll)
        ensures
            r@ == (SyncAllView { stage, ..self@ }),
    {
        SyncAll { stage, ..self }
    }

    /// What follows an answer.
    pub fn step(self, app: &mut App, reply: Reply) -> (r: (SyncAll, String, Ask))
        requires
            old(app)@.wf(),
            !old(app)@.selecting(),
        ensures
            final(app)@ == sync_step(old(app)@, self@, reply@).0,
            r.0@ == sync_step(old(app)@, self@, reply@).1,
            r.1@ == sync_step(old(app)@, self@, reply@).2,
            r.2@ == sync_step(old(app)@, self@, reply@).3,
            final(app)@.wf(),
            !final(app)@.selecting(),
    {
        let quiet = String::new();
        match (self.stage, reply) {
            (Stage::Open, Reply::Done(r)) => match r {
                Ok(u) => (self.at(Stage::Diverged), quiet, Ask::Diverged),
                Err(e) => (self.at(Stage::Over), quiet, Ask::End(Err(e))),
            },
            (Stage::Diverged, Reply::Diverged(Some(v))) => {
                proof {
                    assert(views::pairs(v@).len() == v@.len());
                }
                if v.len() > 0 {
                    (self.at(Stage::Refused), refusal_text(&v), Ask::Enter)
                } else {
                    (self.at(Stage::Fix), quiet, Ask::FixDependencies)
                }
            },
            (Stage::Refused, Reply::Nothing) => {
                app.tell("Sync aborted — remote has newer changes. Press P to pull.");
                (self.at(Stage::Over), quiet, ended())
            },
            (Stage::Fix, Reply::Flag(opened)) => (self.at(Stage::Fixed), quiet, Ask::Reload),
            (Stage::Fixed, Reply::Stack(r)) => {
                reload_if_read(app, r.commits);
                (self.at(Stage::Reopen), quiet, Ask::Open)
            },
            (Stage::Reopen, Reply::Done(r)) => match r {
                Ok(u) => (self.at(Stage::Base), quiet, Ask::Base),
                Err(e) => (self.at(Stage::Over), quiet, Ask::End(Err(e))),
            },
            (Stage::Base, Reply::Answer(r)) => match r {
                Ok(base) => {
                    let base = dropped_prefix(base.as_str(), "origin/");
                    (SyncAll { base, stage: Stage::Sync, ..self }, quiet, Ask::Sync)
                },
                Err(e) => (self.at(Stage::Over), quiet, Ask::End(Err(e))),
            },
            (Stage::Sync, Reply::Synced(Some(r))) => match r {
                Ok(lines) => {
                    proof {
                        assert(views::strs(lines@).len() == lines@.len());
                    }
                    let say = sync_report(&lines, self.base.as_str());
                    let count = lines.len() as u64;
                    (SyncAll { count, stage: Stage::Reload, ..self }, say, Ask::Reload)
                },
                Err(e) => {
                    app.notify(concat2("Sync failed: ", e.as_str()));
                    let line = bad_text("Sync failed: ", e.as_str());
                    let say = concat3(term::CLEAR, "\n", line.as_str());
                    (self.at(Stage::Cleanup), say, Ask::Cleanup)
                },
            },
            (Stage::Reload, Reply::Stack(r)) => {
                reload_if_read(app, r.commits);
                (self.at(Stage::Save), quiet, Ask::SaveState)
            },
            (Stage::Save, Reply::Nothing) => {
                let n = decimal(self.count);
                app.notify(concat3("Synced ", n.as_str(), " PRs."));
                (self.at(Stage::Cleanup), quiet, Ask::Cleanup)
            },
            (Stage::Cleanup, Reply::Nothing) => (
                self.at(Stage::Enter),
                term::PRESS_ENTER.to_owned(),
                Ask::Enter,
            ),
            _ => (self.at(Stage::Over), quiet, ended()),
        }
    }
}

/// Reviews that someone else changed are not overwritten: where there are any, the user
/// is told so, and then the operation is over.
pub proof fn law_sync_never_overwrites(
    a: AppView,
    s: SyncAllView,
    d: Seq<(Seq<char>, Seq<char>)>,
    reply: ReplyView,
)
    requires
        s.stage == Stage::Diverged,
        d.len() > 0,
    ensures
        ({
            let one = sync_step(a, s, ReplyView::Diverged(Some(d)));
            let two = sync_step(one.0, one.1, reply);
            one.0 == a && one.3 == AskView::Enter && two.3 == super::end() && two.1.stage
                == Stage::Over
        }),
{
}

/// Every review that is ready to merge is told of, and so is every failure.
pub proof fn law_told_of(lines: Seq<Seq<char>>, base: Seq<char>, i: int)
    requires
        0 <= i < lines.len(),
    ensures
        is_ready(lines[i], base) ==> ready(lines, base).contains(told_branch(lines[i])),
        "⚠"@.is_prefix_of(lines[i]) ==> failed(lines).contains(lines[i]),
    decreases lines.len(),
{
    let n = lines.len() - 1;
    let rest = lines.drop_last();
    if i < n {
        law_told_of(rest, base, i);
        assert(rest[i] == lines[i]);
        if is_ready(lines[i], base) {
            let w = told_branch(lines[i]);
            let k = choose|k: int| 0 <= k < ready(rest, base).len() && ready(rest, base)[k] == w;
            assert(ready(lines, base)[k] == w);
        }
        if "⚠"@.is_prefix_of(lines[i]) {
            let k = choose|k: int| 0 <= k < failed(rest).len() && failed(rest)[k] == lines[i];
            assert(failed(lines)[k] == lines[i]);
        }
    } else {
        if is_ready(lines[i], base) {
            assert(ready(lines, base).last() == told_branch(lines[i]));
        }
        if "⚠"@.is_prefix_of(lines[i]) {
            assert(failed(lines).last() == lines[i]);
        }
    }
}

} // verus!
