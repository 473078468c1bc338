//! Offering to delete stale branches.
use vstd::prelude::*;

use super::super::term;
use super::super::term::{among, each_text, good_text};
use super::{ended, Ask, AskView, Reply, ReplyView};
use crate::git::ops;
use crate::git::ops::Repo;
use crate::text::chars::{concat2, concat3, concat5};
use crate::text::number;
use crate::text::number::decimal;
use crate::text::views;

verus! {

broadcast use views::group_views;

/// Which answer the operation waits for.
#[derive(Debug, Clone, Copy, PartialEq, Eq, Structural)]
pub enum Stage {
    /// The repository.
    Open,
    /// The branches.
    Stale,
    /// The user's choice.
    Key,
    /// The deletion.
    Delete,
    /// Nothing more.
    Over,
}

/// The operation under way.
pub struct Cleanup {
    pub stale: Vec<String>,
    pub stage: Stage,
}

/// The operation as it is seen in contracts.
#[verifier::ext_equal]
pub struct CleanupView {
    pub stale: Seq<Seq<char>>,
    pub stage: Stage,
}

impl View for Cleanup {
    type V = CleanupView;

    open spec fn view(&self) -> CleanupView {
        CleanupView { stale: views::strs(self.stale@), stage: self.stage }
    }
}

/// The stale branches, with those of the first `n` landed ones that are not among them.
pub open spec fn united(stale: Seq<Seq<char>>, landed: Seq<Seq<char>>, n: int) -> Seq<Seq<char>>
    decreases n,
{
    if n <= 0 {
        stale
    } else {
        let before = united(stale, landed, n - 1);
        if before.contains(landed[n - 1]) {
            before
        } else {
            before.push(landed[n - 1])
        }
    }
}

/// The stale branches, with the landed ones that are not among them.
pub fn unite(stale: Vec<String>, landed: &Vec<String>) -> (r: Vec<String>)
    ensures
        views::strs(r@) == united(
            views::strs(stale@),
            views::strs(landed@),
            landed@.len() as int,
        ),
{
    let ghost start = views::strs(stale@);
    let ghost ls = views::strs(landed@);
    let mut r = stale;
    let mut i: usize = 0;
    while i < landed.len()
        invariant
            i <= landed@.len(),
            ls == views::strs(landed@),
            views::strs(r@) == united(start, ls, i as int),
        decreases landed.len() - i,
    {
        proof {
            assert(ls[i as int] == landed@[i as int]@);
        }
        if !among(&r, landed[i].as_str()) {
            r.push(landed[i].clone());
        }
        i += 1;
    }
    r
}

/// What is asked of the stale branches.
pub open spec fn question(stale: Seq<Seq<char>>) -> Seq<char> {
    "\n  \x1b[33m▸ Found "@ + number::dec(stale.len())
        + " stale branches (PR merged or closed):\x1b[0m\n"@ + term::each("    "@, stale, "\n"@)
        + "\n  Delete these branches (local + remote)? \x1b[1;32my\x1b[0m/\x1b[1;31mn\x1b[0m  "@
}

/// What is asked of the stale branches.
fn question_text(stale: &Vec<String>) -> (r: String)
    ensures
        r@ == question(views::strs(stale@)),
{
    proof {
        assert(views::strs(stale@).len() == stale@.len());
    }
    let n = decimal(stale.len() as u64);
    let list = each_text("    ", stale, "\n");
    concat5(
        "\n  \x1b[33m▸ Found ",
        n.as_str(),
        " stale branches (PR merged or closed):\x1b[0m\n",
        list.as_str(),
        "\n  Delete these branches (local + remote)? \x1b[1;32my\x1b[0m/\x1b[1;31mn\x1b[0m  ",
    )
}

/// Check for stale pgit branches (merged/closed PRs) and ask the user
/// if they want to delete them (local + remote): the first step.
pub fn prompt_cleanup_stale_branches() -> (r: (Cleanup, Ask))
    ensures
        r.0@ == (CleanupView { stale: seq![], stage: Stage::Open }),
        r.1@ == AskView::Open,
{
    (Cleanup { stale: Vec::new(), stage: Stage::Open }, Ask::Open)
}

/// What follows an answer.
pub open spec fn cleanup_step(s: CleanupView, reply: ReplyView) -> (
    CleanupView,
    Seq<char>,
    AskView,
) {
    let over = CleanupView { stage: Stage::Over, ..s };
    let quiet = super::silence();
    match (s.stage, reply) {
        (Stage::Open, ReplyView::Done(r)) => match r {
            Ok(u) => (CleanupView { stage: Stage::Stale, ..s }, quiet, AskView::Stale),
            Err(e) => (over, quiet, super::fail(e)),
        },
        (Stage::Stale, ReplyView::Stale { stale, landed }) => {
            let all = united(stale, landed, landed.len() as int);
            if all.len() == 0 {
                (over, quiet, super::end())
            } else {
                (CleanupView { stale: all, stage: Stage::Key }, question(all), AskView::Key)
            }
        },
        (Stage::Key, ReplyView::Key(c)) => if c == 'y' {
            (
                CleanupView { stage: Stage::Delete, ..s },
                "\n  Deleting...\n"@ + term::each("    \x1b[33m"@, s.stale, "\x1b[0m\n"@),
                AskView::GitAll(ops::deletions(s.stale)),
            )
        } else {
            (over, "\n  Skipped.\n\n"@, super::end())
        },
        (Stage::Delete, ReplyView::Nothing) => (
            over,
            term::good_line("Deleted "@ + number::dec(s.stale.len()) + " stale branches."@)
                + "\n"@,
            super::end(),
        ),
        _ => (over, quiet, super::end()),
    }
}

impl Cleanup {
    /// The same operation, which waits for another answer.
    fn at(self, stage: Stage) -> (r: Cleanup)
        ensures
            r@ == (CleanupView { stage, ..self@ }),
    {
        Cleanup { stage, ..self }
    }

    /// What follows an answer.
    pub fn step(self, repo: &Repo, reply: Reply) -> (r: (Cleanup, String, Ask))
        ensures
            r.0@ == cleanup_step(self@, reply@).0,
            r.1@ == cleanup_step(self@, reply@).1,
            r.2@ == cleanup_step(self@, reply@).2,
    {
        let quiet = String::new();
        proof {
            assert(self@.stale.len() == self.stale@.len());
        }
        match (self.stage, reply) {
            (Stage::Open, Reply::Done(r)) => match r {
                Ok(u) => (self.at(Stage::Stale), quiet, Ask::Stale),
                Err(e) => (self.at(Stage::Over), quiet, Ask::End(Err(e))),
            },
            (Stage::Stale, Reply::Stale { stale, landed }) => {
                let all = unite(stale, &landed);
                proof {
                    assert(views::strs(all@).len() == all@.len());
                }
                if all.len() == 0 {
                    (self.at(Stage::Over), quiet, ended())
                } else {
                    let say = question_text(&all);
                    (Cleanup { stale: all, stage: Stage::Key }, say, Ask::Key)
                }
            },
            (Stage::Key, Reply::Key(c)) => {
                if c == 'y' {
                    let list = each_text("    \x1b[33m", &self.stale, "\x1b[0m\n");
                    let say = concat2("\n  Deleting...\n", list.as_str());
                    let ask = Ask::GitAll(repo.delete_branches(&self.stale));
                    (self.at(Stage::Delete), say, ask)
                } else {
                    (self.at(Stage::Over), "\n  Skipped.\n\n".to_owned(), ended())
                }
            },
            (Stage::Delete, Reply::Nothing) => {
                let n = decimal(self.stale.len() as u64);
                let text = concat3("Deleted ", n.as_str(), " stale branches.");
                let line = good_text(text.as_str());
                let say = concat2(line.as_str(), "\n");
                (self.at(Stage::Over), say, ended())
            },
            _ => (self.at(Stage::Over), quiet, ended()),
        }
    }
}

/// Branches are deleted only where the user said `y`, and only those that were listed.
pub proof fn law_delete_only_listed(s: CleanupView, reply: ReplyView)
    ensures
        cleanup_step(s, reply).2 matches AskView::GitAll(commands) ==> s.stage == Stage::Key
            && reply == ReplyView::Key('y') && commands == ops::deletions(s.stale),
{
}

} // verus!
