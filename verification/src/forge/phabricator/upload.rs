//! Submitting a commit, and updating the revision of a submitted one.
use vstd::prelude::*;

use super::super::machine;
use super::super::machine::{
    amend, confused, finished, head_message, message_of, push_branch, revision_name, set_branch,
    text_of, Ask, AskView, Reply, ReplyView,
};
use super::message;
use super::message::{find_commit_with_revision, parse_revision_id, with_dependency};
use super::Phabricator;
use crate::git::call::{Call, CallView, Console, Ran};
use crate::text::args::args;
use crate::text::bytes;
use crate::text::bytes::cut_text;
use crate::text::chars;
use crate::text::chars::{concat2, concat3, same, trimmed};
use crate::text::pieces;
use crate::text::views;

verus! {

broadcast use views::group_views;

/// Which answer an upload waits for.
#[derive(Debug, Clone, Copy, PartialEq, Eq, Structural)]
pub enum Stage {
    /// The message of the commit to update.
    Known,
    /// The pause of the rebase at the commit.
    Pause,
    /// The message of the commit below.
    Parent,
    /// The message of the commit.
    Current,
    /// The new message.
    Amend,
    /// The end of `arc diff`.
    Arc,
    /// The message that `arc diff` left.
    Message,
    /// The commit that `arc diff` left.
    Head,
    /// The rest of the rebase.
    Continue,
    /// The base branch.
    Base,
    /// The log of the stack.
    Log,
    /// The branch for the commit.
    Branch,
    /// The push of the branch.
    Push,
    /// The abort of the rebase.
    Abort,
    /// Nothing more.
    Over,
}

/// An upload under way.
pub struct Upload {
    /// Whether the revision is there already.
    pub update: bool,
    pub short: String,
    pub branch: String,
    /// The revision that the commit named before.
    pub known: Option<u32>,
    /// The revision of the commit below.
    pub parent: Option<u32>,
    /// Whether `arc` could be started, and whether it succeeded.
    pub arc_ran: bool,
    pub arc_ok: bool,
    /// The revision that the commit names in the end.
    pub revision: Option<u32>,
    /// The commit that `arc` left.
    pub amended: String,
    /// Whether the rest of the stack was replayed.
    pub rebased: bool,
    pub stage: Stage,
}

/// An upload as it is seen in contracts.
#[verifier::ext_equal]
pub struct UploadView {
    pub update: bool,
    pub short: Seq<char>,
    pub branch: Seq<char>,
    pub known: Option<u32>,
    pub parent: Option<u32>,
    pub arc_ran: bool,
    pub arc_ok: bool,
    pub revision: Option<u32>,
    pub amended: Seq<char>,
    pub rebased: bool,
    pub stage: Stage,
}

impl View for Upload {
    type V = UploadView;

    open spec fn view(&self) -> UploadView {
        UploadView {
            update: self.update,
            short: self.short@,
            branch: self.branch@,
            known: self.known,
            parent: self.parent,
            arc_ran: self.arc_ran,
            arc_ok: self.arc_ok,
            revision: self.revision,
            amended: self.amended@,
            rebased: self.rebased,
            stage: self.stage,
        }
    }
}

/// An upload before its first step.
pub open spec fn begun(update: bool, hash: Seq<char>, branch: Seq<char>) -> UploadView {
    UploadView {
        update,
        short: bytes::cut(hash, 7),
        branch,
        known: None,
        parent: None,
        arc_ran: false,
        arc_ok: false,
        revision: None,
        amended: seq![],
        rebased: false,
        stage: if update {
            Stage::Known
        } else {
            Stage::Pause
        },
    }
}

/// The run of `arc diff`: for an update of a known revision, that one.
pub open spec fn ask_arc(u: UploadView) -> AskView {
    AskView::Run(
        CallView {
            program: "arc"@,
            args: match u.known {
                Some(id) => if u.update {
                    seq!["diff"@, "HEAD^"@, "--update"@, machine::name_of(id)]
                } else {
                    seq!["diff"@, "HEAD^"@]
                },
                None => seq!["diff"@, "HEAD^"@],
            },
            env: seq![],
            console: Console::Attached,
        },
    )
}

/// What is said of an upload that went well. A revision in the commit's trailer is the
/// strongest sign of that; `arc` sometimes fails even so.
pub open spec fn upload_text(u: UploadView) -> Seq<char> {
    (if u.update {
        "Revision updated: "@
    } else {
        "Revision created: "@
    }) + (match u.revision {
        Some(id) => machine::name_of(id),
        None => "unknown"@,
    }) + (if u.rebased {
        ""@
    } else {
        " (rebase has conflicts — resolve and run `git rebase --continue`)"@
    })
}

/// The end of an upload that went well.
pub open spec fn upload_done(u: UploadView) -> (UploadView, AskView) {
    (UploadView { stage: Stage::Over, ..u }, machine::done(upload_text(u)))
}

/// The end of an upload that failed.
pub open spec fn upload_failed(u: UploadView, text: Seq<char>) -> (UploadView, AskView) {
    (UploadView { stage: Stage::Over, ..u }, machine::failed(text))
}

/// What follows the replay of the rest of the stack.
pub open spec fn replayed(u: UploadView) -> (UploadView, AskView) {
    if u.revision is Some || u.arc_ok {
        if u.rebased {
            if u.revision is Some {
                (UploadView { stage: Stage::Base, ..u }, AskView::Detect)
            } else {
                upload_done(u)
            }
        } else if u.amended.len() > 0 {
            (UploadView { stage: Stage::Branch, ..u }, machine::ask_branch(u.branch, u.amended))
        } else {
            upload_done(u)
        }
    } else {
        (UploadView { stage: Stage::Abort, ..u }, AskView::Git(seq!["rebase"@, "--abort"@]))
    }
}

/// What follows an answer.
pub open spec fn upload_step(u: UploadView, reply: ReplyView) -> (UploadView, AskView) {
    match (u.stage, reply) {
        (Stage::Known, ReplyView::Answer(a)) => (
            UploadView {
                known: message::revision_id(machine::or_empty(a)),
                stage: Stage::Pause,
                ..u
            },
            AskView::EditCommit(u.short),
        ),
        (Stage::Pause, ReplyView::Rebase(r)) => match r {
            Ok(complete) => if complete {
                upload_failed(u, "Commit "@ + u.short + " not found in stack"@)
            } else {
                (UploadView { stage: Stage::Parent, ..u }, machine::ask_message("HEAD^"@))
            },
            Err(e) => upload_failed(u, "Failed to start rebase: "@ + e),
        },
        (Stage::Parent, ReplyView::Answer(a)) => {
            let v = UploadView { parent: message::revision_id(machine::or_empty(a)), ..u };
            if !u.update && v.parent is None {
                (UploadView { stage: Stage::Arc, ..v }, ask_arc(v))
            } else {
                (UploadView { stage: Stage::Current, ..v }, machine::ask_head_message())
            }
        },
        (Stage::Current, ReplyView::Answer(a)) => {
            let current = chars::trim(machine::or_empty(a));
            let wanted = message::depending(current, u.parent);
            if wanted != current {
                (UploadView { stage: Stage::Amend, ..u }, machine::ask_amend(wanted))
            } else {
                (UploadView { stage: Stage::Arc, ..u }, ask_arc(u))
            }
        },
        (Stage::Amend, ReplyView::Ran(r)) => (UploadView { stage: Stage::Arc, ..u }, ask_arc(u)),
        (Stage::Arc, ReplyView::Ran(r)) => (
            UploadView { arc_ran: r is Ended, arc_ok: r.good(), stage: Stage::Message, ..u },
            machine::ask_head_message(),
        ),
        (Stage::Message, ReplyView::Answer(a)) => (
            UploadView {
                revision: match message::revision_id(machine::or_empty(a)) {
                    Some(id) => Some(id),
                    None => u.known,
                },
                stage: Stage::Head,
                ..u
            },
            AskView::Git(seq!["rev-parse"@, "HEAD"@]),
        ),
        (Stage::Head, ReplyView::Answer(a)) => (
            UploadView {
                amended: chars::trim(machine::or_empty(a)),
                stage: Stage::Continue,
                ..u
            },
            AskView::Continue,
        ),
        (Stage::Continue, ReplyView::Rebase(r)) => replayed(
            UploadView { rebased: r == Ok::<bool, Seq<char>>(true), ..u },
        ),
        (Stage::Base, ReplyView::Answer(a)) => match a {
            Ok(base) => (
                UploadView { stage: Stage::Log, ..u },
                AskView::Git(seq!["log"@, "--format=%H %B"@, base + "..HEAD"@]),
            ),
            Err(e) => upload_done(u),
        },
        (Stage::Log, ReplyView::Answer(a)) => match (a, u.revision) {
            (Ok(log), Some(id)) => match message::commit_of(pieces::lines(log), None, id) {
                Some(hash) => (
                    UploadView { stage: Stage::Branch, ..u },
                    machine::ask_branch(u.branch, hash),
                ),
                None => upload_done(u),
            },
            _ => upload_done(u),
        },
        (Stage::Branch, ReplyView::Answer(a)) => (
            UploadView { stage: Stage::Push, ..u },
            machine::ask_push(u.branch),
        ),
        (Stage::Push, ReplyView::Answer(a)) => upload_done(u),
        (Stage::Abort, ReplyView::Answer(a)) => upload_failed(
            u,
            if u.arc_ran {
                "arc diff failed"@
            } else {
                "arc not found — install arcanist"@
            },
        ),
        _ => (UploadView { stage: Stage::Over, ..u }, machine::strange()),
    }
}

impl Phabricator {
    /// Submit a new revision for a commit: the first step.
    pub fn submit(&self, hash: &str, branch: &str) -> (r: (Upload, Ask))
        requires
            bytes::cuts(hash@, 7),
        ensures
            r.0@ == begun(false, hash@, branch@),
            r.1@ == AskView::EditCommit(bytes::cut(hash@, 7)),
    {
        let u = Upload::new(false, hash, branch);
        let ask = Ask::EditCommit(u.short.clone());
        (u, ask)
    }

    /// Update the existing revision of a commit: the first step.
    pub fn update(&self, hash: &str, branch: &str) -> (r: (Upload, Ask))
        requires
            bytes::cuts(hash@, 7),
        ensures
            r.0@ == begun(true, hash@, branch@),
            r.1@ == machine::ask_message(hash@),
    {
        (Upload::new(true, hash, branch), message_of(hash))
    }
}

impl Upload {
    /// An upload before its first step.
    fn new(update: bool, hash: &str, branch: &str) -> (r: Upload)
        requires
            bytes::cuts(hash@, 7),
        ensures
            r@ == begun(update, hash@, branch@),
    {
        Upload {
            update,
            short: cut_text(hash, 7),
            branch: branch.to_owned(),
            known: None,
            parent: None,
            arc_ran: false,
            arc_ok: false,
            revision: None,
            amended: String::new(),
            rebased: false,
            stage: if update {
                Stage::Known
            } else {
                Stage::Pause
            },
        }
    }

    /// The run of `arc diff`.
    fn arc(&self) -> (r: Ask)
        ensures
            r@ == ask_arc(self@),
    {
        let list = match self.known {
            Some(id) => {
                if self.update {
                    let name = revision_name(id);
                    args(&["diff", "HEAD^", "--update", name.as_str()])
                } else {
                    args(&["diff", "HEAD^"])
                }
            },
            None => args(&["diff", "HEAD^"]),
        };
        Ask::Run(
            Call {
                program: "arc".to_owned(),
                args: list,
                env: Vec::new(),
                console: Console::Attached,
            },
        )
    }

    /// What is said of an upload that went well.
    fn text(&self) -> (r: String)
        ensures
            r@ == upload_text(self@),
    {
        let start = if self.update {
            "Revision updated: "
        } else {
            "Revision created: "
        };
        let name = match self.revision {
            Some(id) => revision_name(id),
            None => "unknown".to_owned(),
        };
        let end = if self.rebased {
            ""
        } else {
            " (rebase has conflicts — resolve and run `git rebase --continue`)"
        };
        concat3(start, name.as_str(), end)
    }

    /// The end of an upload that went well.
    fn done(self) -> (r: (Upload, Ask))
        ensures
            r.0@ == upload_done(self@).0,
            r.1@ == upload_done(self@).1,
    {
        let text = self.text();
        (Upload { stage: Stage::Over, ..self }, finished(text))
    }

    /// The end of an upload that failed.
    fn failed(self, text: String) -> (r: (Upload, Ask))
        ensures
            r.0@ == upload_failed(self@, text@).0,
            r.1@ == upload_failed(self@, text@).1,
    {
        (Upload { stage: Stage::Over, ..self }, Ask::Done(Err(text)))
    }

    /// What follows the replay of the rest of the stack.
    fn replayed(self) -> (r: (Upload, Ask))
        ensures
            r.0@ == replayed(self@).0,
            r.1@ == replayed(self@).1,
    {
        if self.revision.is_some() || self.arc_ok {
            if self.rebased {
                if self.revision.is_some() {
                    (Upload { stage: Stage::Base, ..self }, Ask::Detect)
                } else {
                    self.done()
                }
            } else if !self.amended.as_str().is_empty() {
                let ask = set_branch(self.branch.as_str(), self.amended.as_str());
                (Upload { stage: Stage::Branch, ..self }, ask)
            } else {
                self.done()
            }
        } else {
            (Upload { stage: Stage::Abort, ..self }, Ask::Git(args(&["rebase", "--abort"])))
        }
    }

    /// What follows an answer.
    pub fn step(self, reply: Reply) -> (r: (Upload, Ask))
        ensures
            r.0@ == upload_step(self@, reply@).0,
            r.1@ == upload_step(self@, reply@).1,
    {
        match (self.stage, reply) {
            (Stage::Known, Reply::Answer(a)) => {
                let text = text_of(a);
                let ask = Ask::EditCommit(self.short.clone());
                (
                    Upload {
                        known: parse_revision_id(text.as_str()),
                        stage: Stage::Pause,
                        ..self
                    },
                    ask,
                )
            },
            (Stage::Pause, Reply::Rebase(r)) => match r {
                Ok(complete) => {
                    if complete {
                        let text = concat3("Commit ", self.short.as_str(), " not found in stack");
                        self.failed(text)
                    } else {
                        (Upload { stage: Stage::Parent, ..self }, message_of("HEAD^"))
                    }
                },
                Err(e) => self.failed(concat2("Failed to start rebase: ", e.as_str())),
            },
            (Stage::Parent, Reply::Answer(a)) => {
                let text = text_of(a);
                let v = Upload { parent: parse_revision_id(text.as_str()), ..self };
                if !v.update && v.parent.is_none() {
                    let ask = v.arc();
                    (Upload { stage: Stage::Arc, ..v }, ask)
                } else {
                    (Upload { stage: Stage::Current, ..v }, head_message())
                }
            },
            (Stage::Current, Reply::Answer(a)) => {
                let text = text_of(a);
                let current = trimmed(text.as_str());
                let wanted = with_dependency(current.as_str(), self.parent);
                if !same(wanted.as_str(), current.as_str()) {
                    (Upload { stage: Stage::Amend, ..self }, amend(wanted.as_str()))
                } else {
                    let ask = self.arc();
                    (Upload { stage: Stage::Arc, ..self }, ask)
                }
            },
            (Stage::Amend, Reply::Ran(r)) => {
                let ask = self.arc();
                (Upload { stage: Stage::Arc, ..self }, ask)
            },
            (Stage::Arc, Reply::Ran(r)) => {
                let arc_ok = r.good();
                let arc_ran = match r {
                    Ran::Ended { success, stdout, stderr } => true,
                    Ran::Lost(e) => false,
                };
                (Upload { arc_ran, arc_ok, stage: Stage::Message, ..self }, head_message())
            },
            (Stage::Message, Reply::Answer(a)) => {
                let text = text_of(a);
                let revision = match parse_revision_id(text.as_str()) {
                    Some(id) => Some(id),
                    None => self.known,
                };
                (
                    Upload { revision, stage: Stage::Head, ..self },
                    Ask::Git(args(&["rev-parse", "HEAD"])),
                )
            },
            (Stage::Head, Reply::Answer(a)) => {
                let text = text_of(a);
                (
                    Upload {
                        amended: trimmed(text.as_str()),
                        stage: Stage::Continue,
                        ..self
                    },
                    Ask::Continue,
                )
            },
            (Stage::Continue, Reply::Rebase(r)) => {
                let rebased = match r {
                    Ok(complete) => complete,
                    Err(e) => false,
                };
                let v = Upload { rebased, ..self };
                v.replayed()
            },
            (Stage::Base, Reply::Answer(a)) => match a {
                Ok(base) => {
                    let range = concat2(base.as_str(), "..HEAD");
                    (
                        Upload { stage: Stage::Log, ..self },
                        Ask::Git(args(&["log", "--format=%H %B", range.as_str()])),
                    )
                },
                Err(e) => self.done(),
            },
            (Stage::Log, Reply::Answer(a)) => match (a, self.revision) {
                (Ok(log), Some(id)) => match find_commit_with_revision(log.as_str(), id) {
                    Some(hash) => {
                        let ask = set_branch(self.branch.as_str(), hash.as_str());
                        (Upload { stage: Stage::Branch, ..self }, ask)
                    },
                    None => self.done(),
                },
                _ => self.done(),
            },
            (Stage::Branch, Reply::Answer(a)) => {
                let ask = push_branch(self.branch.as_str());
                (Upload { stage: Stage::Push, ..self }, ask)
            },
            (Stage::Push, Reply::Answer(a)) => self.done(),
            (Stage::Abort, Reply::Answer(a)) => {
                let text = if self.arc_ran {
                    "arc diff failed"
                } else {
                    "arc not found — install arcanist"
                };
                self.failed(text.to_owned())
            },
            _ => (Upload { stage: Stage::Over, ..self }, confused()),
        }
    }
}

/// An upload whose commit names a revision, or for which `arc` succeeded, is not aborted
/// once the rest of the stack is replayed, and does not fail there.
pub proof fn law_revision_means_success(u: UploadView, reply: ReplyView)
    requires
        u.stage == Stage::Continue,
        reply is Rebase,
        u.revision is Some || u.arc_ok,
    ensures
        upload_step(u, reply).0.stage != Stage::Abort,
        match upload_step(u, reply).1 {
            AskView::Done(r) => r is Ok,
            _ => true,
        },
{
}

} // verus!
