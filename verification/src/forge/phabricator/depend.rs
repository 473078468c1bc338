//! Bringing the dependencies that the commits of a stack tell of up to date.
use vstd::prelude::*;

use super::super::machine;
use super::super::machine::{
    amend, confused, finished_quietly, head_message, message_of, text_of, Ask, AskView, Reply,
    ReplyView,
};
use super::message;
use super::message::{parse_revision_id, stated_dependency, with_dependency};
use super::trailer;
use super::Phabricator;
use crate::git::call;
use crate::git::call::{edit_all, rebase_interactive};
use crate::stack;
use crate::stack::{PatchEntry, PatchView};
use crate::text::args::args;
use crate::text::chars;
use crate::text::chars::{same, trimmed};
use crate::text::pieces;
use crate::text::views;

verus! {

broadcast use views::group_views;

/// Which answer the operation waits for.
#[derive(Debug, Clone, Copy, PartialEq, Eq, Structural)]
pub enum Stage {
    /// The base branch.
    Base,
    /// The commits of the stack.
    Commits,
    /// The message of the commit at hand.
    Scan,
    /// The message of the commit below the one at hand.
    ScanParent,
    /// The start of the rebase.
    Start,
    /// Whether the rebase has started.
    Started,
    /// The message of the commit at which the rebase paused.
    Current,
    /// The message of the commit below.
    Parent,
    /// The new message.
    Amend,
    /// The rest of the rebase, up to the next pause.
    Continue,
    /// Whether there was a next pause.
    Again,
    /// The abort of the rebase.
    Abort,
    /// Nothing more.
    Over,
}

/// The operation under way.
pub struct Fix {
    /// The operating system.
    pub os: String,
    pub base: String,
    /// The commits of the stack, oldest first.
    pub hashes: Vec<String>,
    /// The commit at hand, by its place.
    pub at: usize,
    /// The dependency that it states.
    pub stated: Option<u32>,
    /// The message of the commit at which the rebase paused.
    pub current: String,
    pub stage: Stage,
}

/// The operation as it is seen in contracts.
#[verifier::ext_equal]
pub struct FixView {
    pub os: Seq<char>,
    pub base: Seq<char>,
    pub hashes: Seq<Seq<char>>,
    pub at: nat,
    pub stated: Option<u32>,
    pub current: Seq<char>,
    pub stage: Stage,
}

impl View for Fix {
    type V = FixView;

    open spec fn view(&self) -> FixView {
        FixView {
            os: self.os@,
            base: self.base@,
            hashes: views::strs(self.hashes@),
            at: self.at as nat,
            stated: self.stated,
            current: self.current@,
            stage: self.stage,
        }
    }
}

/// The operation before its first step.
pub open spec fn begun(os: Seq<char>) -> FixView {
    FixView {
        os,
        base: seq![],
        hashes: seq![],
        at: 0,
        stated: None,
        current: seq![],
        stage: Stage::Base,
    }
}

/// The end of the operation.
pub open spec fn over(f: FixView) -> (FixView, AskView) {
    (FixView { stage: Stage::Over, ..f }, machine::done_quietly())
}

/// Looks at the commit at a place, if there is one.
pub open spec fn look_at(f: FixView, at: nat) -> (FixView, AskView) {
    if at < f.hashes.len() {
        (
            FixView { at, stage: Stage::Scan, ..f },
            machine::ask_message(f.hashes[at as int]),
        )
    } else {
        over(f)
    }
}

/// Compares what the commit at hand states with the revision of the commit below:
/// where they differ, a rebase starts that pauses at every commit.
pub open spec fn compare(f: FixView, parent: Option<u32>) -> (FixView, AskView) {
    if f.stated != parent {
        (
            FixView { stage: Stage::Start, ..f },
            AskView::Run(call::interactive(f.base, call::pausing(f.os))),
        )
    } else {
        look_at(f, f.at + 1)
    }
}

/// Goes on with the rebase.
pub open spec fn go_on(f: FixView) -> (FixView, AskView) {
    (FixView { stage: Stage::Continue, ..f }, AskView::Continue)
}

/// The commits' hashes.
pub open spec fn hashes_of(p: Seq<PatchView>) -> Seq<Seq<char>> {
    p.map_values(|e: PatchView| e.hash)
}

/// What follows an answer.
pub open spec fn fix_step(f: FixView, reply: ReplyView) -> (FixView, AskView) {
    match (f.stage, reply) {
        (Stage::Base, ReplyView::Answer(a)) => match a {
            Ok(base) => (FixView { base, stage: Stage::Commits, ..f }, AskView::Commits),
            Err(e) => (FixView { stage: Stage::Over, ..f }, machine::failed(e)),
        },
        (Stage::Commits, ReplyView::Commits(c)) => match c {
            Ok(p) => look_at(FixView { hashes: hashes_of(p), ..f }, 0),
            Err(e) => (FixView { stage: Stage::Over, ..f }, machine::failed(e)),
        },
        (Stage::Scan, ReplyView::Answer(a)) => {
            let text = machine::or_empty(a);
            if message::revision_id(text) is None {
                look_at(f, f.at + 1)
            } else {
                let g = FixView { stated: message::stated_lines(pieces::lines(text)), ..f };
                if f.at == 0 || f.at > f.hashes.len() {
                    compare(g, None)
                } else {
                    (
                        FixView { stage: Stage::ScanParent, ..g },
                        machine::ask_message(f.hashes[f.at - 1]),
                    )
                }
            }
        },
        (Stage::ScanParent, ReplyView::Answer(a)) => compare(
            f,
            message::revision_id(machine::or_empty(a)),
        ),
        (Stage::Start, ReplyView::Ran(r)) => (
            FixView { stage: Stage::Started, ..f },
            AskView::InProgress,
        ),
        (Stage::Started, ReplyView::Flag(in_progress)) => if in_progress {
            (FixView { stage: Stage::Current, ..f }, machine::ask_head_message())
        } else {
            over(f)
        },
        (Stage::Current, ReplyView::Answer(a)) => {
            let current = chars::trim(machine::or_empty(a));
            if message::revision_id(current) is Some {
                (
                    FixView { current, stage: Stage::Parent, ..f },
                    machine::ask_message("HEAD^"@),
                )
            } else {
                go_on(f)
            }
        },
        (Stage::Parent, ReplyView::Answer(a)) => {
            let wanted = message::depending(
                f.current,
                message::revision_id(machine::or_empty(a)),
            );
            if wanted != f.current {
                (FixView { stage: Stage::Amend, ..f }, machine::ask_amend(wanted))
            } else {
                go_on(f)
            }
        },
        (Stage::Amend, ReplyView::Ran(r)) => go_on(f),
        (Stage::Continue, ReplyView::Rebase(r)) => match r {
            Ok(complete) => if complete {
                over(f)
            } else {
                (FixView { stage: Stage::Again, ..f }, AskView::InProgress)
            },
            Err(e) => (
                FixView { stage: Stage::Abort, ..f },
                AskView::Git(seq!["rebase"@, "--abort"@]),
            ),
        },
        (Stage::Again, ReplyView::Flag(in_progress)) => if in_progress {
            (FixView { stage: Stage::Current, ..f }, machine::ask_head_message())
        } else {
            over(f)
        },
        (Stage::Abort, ReplyView::Answer(a)) => over(f),
        _ => (FixView { stage: Stage::Over, ..f }, machine::strange()),
    }
}

impl Phabricator {
    /// Fix dependency trailers across all commits in the stack: the first step.
    /// Called after rebase or before sync when commit order may have changed.
    pub fn fix_dependencies(&self, os: &str) -> (r: (Fix, Ask))
        ensures
            r.0@ == begun(os@),
            r.1@ == AskView::Detect,
    {
        (
            Fix {
                os: os.to_owned(),
                base: String::new(),
                hashes: Vec::new(),
                at: 0,
                stated: None,
                current: String::new(),
                stage: Stage::Base,
            },
            Ask::Detect,
        )
    }
}

/// The commits' hashes.
fn read_hashes(patches: &Vec<PatchEntry>) -> (r: Vec<String>)
    ensures
        views::strs(r@) == hashes_of(stack::patches(patches@)),
{
    let ghost all = hashes_of(stack::patches(patches@));
    let mut r: Vec<String> = Vec::new();
    let mut i: usize = 0;
    while i < patches.len()
        invariant
            i <= patches@.len() == all.len(),
            all == hashes_of(stack::patches(patches@)),
            views::strs(r@) == all.take(i as int),
        decreases patches.len() - i,
    {
        r.push(patches[i].hash.clone());
        proof {
            assert(all.take(i + 1) =~= all.take(i as int).push(all[i as int]));
        }
        i += 1;
    }
    proof {
        assert(all.take(i as int) =~= all);
    }
    r
}

impl Fix {
    /// The end of the operation.
    fn over(self) -> (r: (Fix, Ask))
        ensures
            r.0@ == over(self@).0,
            r.1@ == over(self@).1,
    {
        (Fix { stage: Stage::Over, ..self }, finished_quietly())
    }

    /// Looks at the commit at a place, if there is one.
    fn look_at(self, at: usize) -> (r: (Fix, Ask))
        ensures
            r.0@ == look_at(self@, at as nat).0,
            r.1@ == look_at(self@, at as nat).1,
    {
        proof {
            assert(self@.hashes.len() == self.hashes@.len());
        }
        if at < self.hashes.len() {
            let ask = message_of(self.hashes[at].as_str());
            (Fix { at, stage: Stage::Scan, ..self }, ask)
        } else {
            self.over()
        }
    }

    /// Looks at the next commit.
    fn look_on(self) -> (r: (Fix, Ask))
        ensures
            r.0@ == look_at(self@, self@.at + 1).0,
            r.1@ == look_at(self@, self@.at + 1).1,
    {
        proof {
            assert(self@.hashes.len() == self.hashes@.len());
        }
        if self.at < self.hashes.len() {
            let next: usize = self.at + 1;
            self.look_at(next)
        } else {
            self.over()
        }
    }

    /// Compares what the commit at hand states with the revision of the commit below.
    fn compare(self, parent: Option<u32>) -> (r: (Fix, Ask))
        ensures
            r.0@ == compare(self@, parent).0,
            r.1@ == compare(self@, parent).1,
    {
        let differs = match (self.stated, parent) {
            (Some(a), Some(b)) => a != b,
            (None, None) => false,
            _ => true,
        };
        if differs {
            let call = rebase_interactive(self.base.as_str(), edit_all(self.os.as_str()));
            (Fix { stage: Stage::Start, ..self }, Ask::Run(call))
        } else {
            self.look_on()
        }
    }

    /// Goes on with the rebase.
    fn go_on(self) -> (r: (Fix, Ask))
        ensures
            r.0@ == go_on(self@).0,
            r.1@ == go_on(self@).1,
    {
        (Fix { stage: Stage::Continue, ..self }, Ask::Continue)
    }

    /// What follows an answer.
    pub fn step(self, reply: Reply) -> (r: (Fix, Ask))
        ensures
            r.0@ == fix_step(self@, reply@).0,
            r.1@ == fix_step(self@, reply@).1,
    {
        proof {
            assert(self@.hashes.len() == self.hashes@.len());
        }
        match (self.stage, reply) {
            (Stage::Base, Reply::Answer(a)) => match a {
                Ok(base) => (Fix { base, stage: Stage::Commits, ..self }, Ask::Commits),
                Err(e) => (Fix { stage: Stage::Over, ..self }, Ask::Done(Err(e))),
            },
            (Stage::Commits, Reply::Commits(c)) => match c {
                Ok(p) => {
                    let f = Fix { hashes: read_hashes(&p), ..self };
                    f.look_at(0)
                },
                Err(e) => (Fix { stage: Stage::Over, ..self }, Ask::Done(Err(e))),
            },
            (Stage::Scan, Reply::Answer(a)) => {
                let text = text_of(a);
                if parse_revision_id(text.as_str()).is_none() {
                    self.look_on()
                } else {
                    let g = Fix { stated: stated_dependency(text.as_str()), ..self };
                    if g.at == 0 || g.at > g.hashes.len() {
                        g.compare(None)
                    } else {
                        let ask = message_of(g.hashes[g.at - 1].as_str());
                        (Fix { stage: Stage::ScanParent, ..g }, ask)
                    }
                }
            },
            (Stage::ScanParent, Reply::Answer(a)) => {
                let text = text_of(a);
                self.compare(parse_revision_id(text.as_str()))
            },
            (Stage::Start, Reply::Ran(r)) => (
                Fix { stage: Stage::Started, ..self },
                Ask::InProgress,
            ),
            (Stage::Started, Reply::Flag(in_progress)) => {
                if in_progress {
                    (Fix { stage: Stage::Current, ..self }, head_message())
                } else {
                    self.over()
                }
            },
            (Stage::Current, Reply::Answer(a)) => {
                let text = text_of(a);
                let current = trimmed(text.as_str());
                if parse_revision_id(current.as_str()).is_some() {
                    (Fix { current, stage: Stage::Parent, ..self }, message_of("HEAD^"))
                } else {
                    self.go_on()
                }
            },
            (Stage::Parent, Reply::Answer(a)) => {
                let text = text_of(a);
                let parent = parse_revision_id(text.as_str());
                let wanted = with_dependency(self.current.as_str(), parent);
                if !same(wanted.as_str(), self.current.as_str()) {
                    (Fix { stage: Stage::Amend, ..self }, amend(wanted.as_str()))
                } else {
                    self.go_on()
                }
            },
            (Stage::Amend, Reply::Ran(r)) => self.go_on(),
            (Stage::Continue, Reply::Rebase(r)) => match r {
                Ok(complete) => {
                    if complete {
                        self.over()
                    } else {
                        (Fix { stage: Stage::Again, ..self }, Ask::InProgress)
                    }
                },
                Err(e) => (
                    Fix { stage: Stage::Abort, ..self },
                    Ask::Git(args(&["rebase", "--abort"])),
                ),
            },
            (Stage::Again, Reply::Flag(in_progress)) => {
                if in_progress {
                    (Fix { stage: Stage::Current, ..self }, head_message())
                } else {
                    self.over()
                }
            },
            (Stage::Abort, Reply::Answer(a)) => self.over(),
            _ => (Fix { stage: Stage::Over, ..self }, confused()),
        }
    }
}

/// A commit that names no revision is left as it is: the rebase goes on at once.
pub proof fn law_unsubmitted_untouched(f: FixView, a: Result<Seq<char>, Seq<char>>)
    requires
        f.stage == Stage::Current,
        message::revision_id(chars::trim(machine::or_empty(a))) is None,
    ensures
        fix_step(f, ReplyView::Answer(a)) == (
            FixView { stage: Stage::Continue, ..f },
            AskView::Continue,
        ),
{
}

/// The commit at hand is compared with the one below: where it names a revision, the rebase
/// starts if and only if the dependency that it states is not the revision of the commit
/// below.
pub proof fn law_stale_found(f: FixView, own: Seq<char>, below: Seq<char>)
    requires
        f.stage == Stage::Scan,
        0 < f.at <= f.hashes.len(),
        message::revision_id(own) is Some,
    ensures
        ({
            let g = fix_step(f, ReplyView::Answer(Ok(own))).0;
            let h = fix_step(g, ReplyView::Answer(Ok(below)));
            &&& h.0.stage == Stage::Start <==> message::stated_lines(pieces::lines(own))
                != message::revision_id(below)
            &&& h.1 is Run <==> h.0.stage == Stage::Start
        }),
{
}

/// A commit whose message was rewritten for the commit below starts no rebase.
pub proof fn law_fixed_is_quiet(f: FixView, m: Seq<char>, below: Seq<char>)
    requires
        f.stage == Stage::Scan,
        0 < f.at <= f.hashes.len(),
        message::revision_id(m) is Some,
    ensures
        ({
            let own = message::depending(m, message::revision_id(below));
            let g = fix_step(f, ReplyView::Answer(Ok(own))).0;
            fix_step(g, ReplyView::Answer(Ok(below))).0.stage != Stage::Start
        }),
{
    let parent = message::revision_id(below);
    trailer::law_revision_kept(m, parent);
    trailer::law_dependency_read(m, parent);
    law_stale_found(f, message::depending(m, parent), below);
}

} // verus!
