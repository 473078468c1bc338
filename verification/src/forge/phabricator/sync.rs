//! Bringing the revisions of all submitted commits up to date.
use vstd::prelude::*;

use super::super::machine;
use super::super::machine::{
    amend, confused, head_message, push_branch, revision_name, set_branch, text_of, Ask, AskView,
    Reply, ReplyView,
};
use super::message;
use super::message::{find_parent_revision, with_dependency};
use super::Phabricator;
use crate::git::call::{Call, CallView, Console};
use crate::stack;
use crate::stack::{PatchEntry, PatchStatus, PatchView};
use crate::text::args::args;
use crate::text::chars;
use crate::text::chars::{concat3, concat4, same, trimmed};
use crate::text::views;

verus! {

broadcast use views::group_views;

/// A revision to bring up to date.
pub struct Item {
    pub id: u32,
    pub subject: String,
    pub hash: String,
    pub branch: String,
    /// The revision that it depends on.
    pub parent: Option<u32>,
}

/// A revision to bring up to date, as it is seen in contracts.
#[verifier::ext_equal]
pub struct ItemView {
    pub id: u32,
    pub subject: Seq<char>,
    pub hash: Seq<char>,
    pub branch: Seq<char>,
    pub parent: Option<u32>,
}

impl View for Item {
    type V = ItemView;

    open spec fn view(&self) -> ItemView {
        ItemView {
            id: self.id,
            subject: self.subject@,
            hash: self.hash@,
            branch: self.branch@,
            parent: self.parent,
        }
    }
}

/// The items that a vector holds.
pub open spec fn items(v: Seq<Item>) -> Seq<ItemView> {
    v.map_values(|i: Item| i@)
}

/// The revisions of the first `n` commits: of those that are submitted and have a
/// number, each with the revision of the closest submitted commit below.
pub open spec fn submitted(p: Seq<PatchView>, branches: Seq<Seq<char>>, n: int) -> Seq<ItemView>
    decreases n,
{
    if n <= 0 {
        seq![]
    } else {
        let before = submitted(p, branches, n - 1);
        match p[n - 1].pr_number {
            Some(id) => if p[n - 1].status == PatchStatus::Submitted {
                before.push(
                    ItemView {
                        id,
                        subject: p[n - 1].subject,
                        hash: p[n - 1].hash,
                        branch: branches[n - 1],
                        parent: message::parent_revision(p, n - 1),
                    },
                )
            } else {
                before
            },
            None => before,
        }
    }
}

/// Which answer the operation waits for.
#[derive(Debug, Clone, Copy, PartialEq, Eq, Structural)]
pub enum Stage {
    /// The current branch.
    Home,
    /// The checkout of the commit at hand.
    Checkout,
    /// Its message.
    Current,
    /// Its new message.
    Amend,
    /// The end of `arc diff`.
    Arc,
    /// The branch for it.
    Branch,
    /// The push of the branch.
    Push,
    /// The checkout of the branch that was current at first.
    Return,
    /// Nothing more.
    Over,
}

/// The operation under way.
pub struct Sync {
    pub items: Vec<Item>,
    /// The item at hand, by its place.
    pub at: usize,
    /// What is to be said in the end.
    pub updates: Vec<String>,
    /// The branch that was current at first.
    pub home: String,
    pub stage: Stage,
}

/// The operation as it is seen in contracts.
#[verifier::ext_equal]
pub struct SyncView {
    pub items: Seq<ItemView>,
    pub at: nat,
    pub updates: Seq<Seq<char>>,
    pub home: Seq<char>,
    pub stage: Stage,
}

impl View for Sync {
    type V = SyncView;

    open spec fn view(&self) -> SyncView {
        SyncView {
            items: items(self.items@),
            at: self.at as nat,
            updates: views::strs(self.updates@),
            home: self.home@,
            stage: self.stage,
        }
    }
}

/// Takes up the item at a place, if there is one, or else returns home.
pub open spec fn take_up(s: SyncView, at: nat) -> (SyncView, AskView) {
    if at < s.items.len() {
        let item = s.items[at as int];
        (
            SyncView { at, stage: Stage::Checkout, ..s },
            AskView::Progress(
                "Updating "@ + machine::name_of(item.id) + ": "@ + item.subject + " ..."@,
                seq!["checkout"@, "--quiet"@, item.hash],
            ),
        )
    } else {
        (
            SyncView { stage: Stage::Return, ..s },
            AskView::Git(seq!["checkout"@, "--quiet"@, s.home]),
        )
    }
}

/// The run of `arc diff` that updates a revision without asking for anything.
pub open spec fn ask_arc(id: u32) -> AskView {
    AskView::Run(
        CallView {
            program: "arc"@,
            args: seq![
                "diff"@,
                "HEAD^"@,
                "--update"@,
                machine::name_of(id),
                "--message"@,
                "Updated diff"@,
            ],
            env: seq![],
            console: Console::NoInput,
        },
    )
}

/// The operation with one more thing to say.
pub open spec fn noted(s: SyncView, text: Seq<char>) -> SyncView {
    SyncView { updates: s.updates.push(text), ..s }
}

/// What follows an answer that concerns the item at hand.
pub open spec fn item_step(s: SyncView, item: ItemView, reply: ReplyView) -> (SyncView, AskView) {
    match (s.stage, reply) {
        (Stage::Checkout, ReplyView::Answer(a)) => match a {
            Ok(t) => (SyncView { stage: Stage::Current, ..s }, machine::ask_head_message()),
            Err(e) => take_up(
                noted(s, "⚠ "@ + machine::name_of(item.id) + " checkout failed, skipping"@),
                s.at + 1,
            ),
        },
        (Stage::Current, ReplyView::Answer(a)) => {
            let current = chars::trim(machine::or_empty(a));
            let wanted = message::depending(current, item.parent);
            if wanted != current {
                (SyncView { stage: Stage::Amend, ..s }, machine::ask_amend(wanted))
            } else {
                (SyncView { stage: Stage::Arc, ..s }, ask_arc(item.id))
            }
        },
        (Stage::Amend, ReplyView::Ran(r)) => (
            SyncView { stage: Stage::Arc, ..s },
            ask_arc(item.id),
        ),
        (Stage::Arc, ReplyView::Ran(r)) => (
            SyncView {
                stage: Stage::Branch,
                ..noted(
                    s,
                    if r.good() {
                        "✓ "@ + machine::name_of(item.id) + " updated"@
                    } else {
                        "⚠ "@ + machine::name_of(item.id) + " update failed"@
                    },
                )
            },
            machine::ask_branch(item.branch, "HEAD"@),
        ),
        (Stage::Branch, ReplyView::Answer(a)) => (
            SyncView { stage: Stage::Push, ..s },
            machine::ask_push(item.branch),
        ),
        (Stage::Push, ReplyView::Answer(a)) => take_up(s, s.at + 1),
        _ => (SyncView { stage: Stage::Over, ..s }, machine::strange()),
    }
}

/// What follows an answer.
pub open spec fn sync_step(s: SyncView, reply: ReplyView) -> (SyncView, AskView) {
    match (s.stage, reply) {
        (Stage::Home, ReplyView::Answer(a)) => match a {
            Ok(b) => take_up(SyncView { home: chars::trim(b), ..s }, 0),
            Err(e) => (SyncView { stage: Stage::Over, ..s }, machine::failed(e)),
        },
        (Stage::Return, ReplyView::Answer(a)) => (
            SyncView { stage: Stage::Over, ..s },
            AskView::Done(Ok(s.updates)),
        ),
        _ => if s.at < s.items.len() {
            item_step(s, s.items[s.at as int], reply)
        } else {
            (SyncView { stage: Stage::Over, ..s }, machine::strange())
        },
    }
}

impl Phabricator {
    /// Sync all submitted revisions: the first step. The commits are checked out one by
    /// one, since only their latest diff is to be uploaded: the trailers are there from
    /// the first submit.
    pub fn sync(&self, patches: &Vec<PatchEntry>, branches: &Vec<String>) -> (r: (Sync, Ask))
        requires
            branches@.len() == patches@.len(),
        ensures
            r.0@ == (SyncView {
                items: submitted(
                    stack::patches(patches@),
                    views::strs(branches@),
                    patches@.len() as int,
                ),
                at: 0,
                updates: seq![],
                home: seq![],
                stage: Stage::Home,
            }),
            r.1@ == AskView::Git(seq!["rev-parse"@, "--abbrev-ref"@, "HEAD"@]),
    {
        let ghost p = stack::patches(patches@);
        let ghost bs = views::strs(branches@);
        let mut list: Vec<Item> = Vec::new();
        let mut i: usize = 0;
        proof {
            assert(items(list@) =~= Seq::<ItemView>::empty());
        }
        while i < patches.len()
            invariant
                i <= patches@.len() == branches@.len(),
                p == stack::patches(patches@),
                bs == views::strs(branches@),
                items(list@) == submitted(p, bs, i as int),
            decreases patches.len() - i,
        {
            proof {
                assert(p[i as int] == patches@[i as int]@);
                assert(bs[i as int] == branches@[i as int]@);
            }
            if let Some(id) = patches[i].pr_number {
                if patches[i].status == PatchStatus::Submitted {
                    let ghost before = items(list@);
                    let item = Item {
                        id,
                        subject: patches[i].subject.clone(),
                        hash: patches[i].hash.clone(),
                        branch: branches[i].clone(),
                        parent: find_parent_revision(patches, i),
                    };
                    list.push(item);
                    proof {
                        assert(items(list@) =~= before.push(item@));
                    }
                }
            }
            i += 1;
        }
        (
            Sync {
                items: list,
                at: 0,
                updates: Vec::new(),
                home: String::new(),
                stage: Stage::Home,
            },
            Ask::Git(args(&["rev-parse", "--abbrev-ref", "HEAD"])),
        )
    }
}

/// The run of `arc diff` that updates a revision.
fn arc(id: u32) -> (r: Ask)
    ensures
        r@ == ask_arc(id),
{
    let name = revision_name(id);
    Ask::Run(
        Call {
            program: "arc".to_owned(),
            args: args(
                &["diff", "HEAD^", "--update", name.as_str(), "--message", "Updated diff"],
            ),
            env: Vec::new(),
            console: Console::NoInput,
        },
    )
}

impl Sync {
    /// Takes up the item at a place, if there is one, or else returns home.
    fn take_up(self, at: usize) -> (r: (Sync, Ask))
        ensures
            r.0@ == take_up(self@, at as nat).0,
            r.1@ == take_up(self@, at as nat).1,
    {
        proof {
            assert(self@.items.len() == self.items@.len());
        }
        if at < self.items.len() {
            proof {
                assert(self@.items[at as int] == self.items@[at as int]@);
            }
            let name = revision_name(self.items[at].id);
            let mut text = concat4(
                "Updating ",
                name.as_str(),
                ": ",
                self.items[at].subject.as_str(),
            );
            text.append(" ...");
            let list = args(&["checkout", "--quiet", self.items[at].hash.as_str()]);
            (Sync { at, stage: Stage::Checkout, ..self }, Ask::Progress(text, list))
        } else {
            let list = args(&["checkout", "--quiet", self.home.as_str()]);
            (Sync { stage: Stage::Return, ..self }, Ask::Git(list))
        }
    }

    /// The operation with one more thing to say.
    fn noted(self, text: String) -> (r: Sync)
        ensures
            r@ == noted(self@, text@),
    {
        let mut updates = self.updates;
        updates.push(text);
        Sync { updates, ..self }
    }

    /// What follows an answer that concerns the item at hand.
    fn item_step(self, reply: Reply) -> (r: (Sync, Ask))
        requires
            self.at < self.items@.len(),
        ensures
            r.0@ == item_step(self@, self@.items[self.at as int], reply@).0,
            r.1@ == item_step(self@, self@.items[self.at as int], reply@).1,
    {
        let at: usize = self.at;
        proof {
            assert(self@.items[at as int] == self.items@[at as int]@);
        }
        let next: usize = if at < self.items.len() {
            at + 1
        } else {
            at
        };
        let id: u32 = self.items[at].id;
        match (self.stage, reply) {
            (Stage::Checkout, Reply::Answer(a)) => match a {
                Ok(t) => (Sync { stage: Stage::Current, ..self }, head_message()),
                Err(e) => {
                    let name = revision_name(id);
                    let text = concat3("⚠ ", name.as_str(), " checkout failed, skipping");
                    let s = self.noted(text);
                    s.take_up(next)
                },
            },
            (Stage::Current, Reply::Answer(a)) => {
                let text = text_of(a);
                let current = trimmed(text.as_str());
                let wanted = with_dependency(current.as_str(), self.items[at].parent);
                if !same(wanted.as_str(), current.as_str()) {
                    (Sync { stage: Stage::Amend, ..self }, amend(wanted.as_str()))
                } else {
                    (Sync { stage: Stage::Arc, ..self }, arc(id))
                }
            },
            (Stage::Amend, Reply::Ran(r)) => (Sync { stage: Stage::Arc, ..self }, arc(id)),
            (Stage::Arc, Reply::Ran(r)) => {
                let name = revision_name(id);
                let text = if r.good() {
                    concat3("✓ ", name.as_str(), " updated")
                } else {
                    concat3("⚠ ", name.as_str(), " update failed")
                };
                let ask = set_branch(self.items[at].branch.as_str(), "HEAD");
                let s = self.noted(text);
                (Sync { stage: Stage::Branch, ..s }, ask)
            },
            (Stage::Branch, Reply::Answer(a)) => {
                let ask = push_branch(self.items[at].branch.as_str());
                (Sync { stage: Stage::Push, ..self }, ask)
            },
            (Stage::Push, Reply::Answer(a)) => self.take_up(next),
            _ => (Sync { stage: Stage::Over, ..self }, confused()),
        }
    }

    /// What follows an answer.
    pub fn step(self, reply: Reply) -> (r: (Sync, Ask))
        ensures
            r.0@ == sync_step(self@, reply@).0,
            r.1@ == sync_step(self@, reply@).1,
    {
        proof {
            assert(self@.items.len() == self.items@.len());
        }
        match (self.stage, &reply) {
            (Stage::Home, Reply::Answer(a)) => match a {
                Ok(b) => {
                    let s = Sync { home: trimmed(b.as_str()), ..self };
                    s.take_up(0)
                },
                Err(e) => (Sync { stage: Stage::Over, ..self }, Ask::Done(Err(e.clone()))),
            },
            (Stage::Return, Reply::Answer(a)) => {
                let updates = chars::copy_strs(&self.updates);
                (Sync { stage: Stage::Over, ..self }, Ask::Done(Ok(updates)))
            },
            _ => {
                if self.at < self.items.len() {
                    self.item_step(reply)
                } else {
                    (Sync { stage: Stage::Over, ..self }, confused())
                }
            },
        }
    }
}

/// Which revisions are brought up to date, and how, rests on the branches of the submitted
/// commits alone.
pub proof fn law_only_submitted_synced(
    p: Seq<PatchView>,
    a: Seq<Seq<char>>,
    b: Seq<Seq<char>>,
    n: int,
)
    requires
        n <= p.len(),
        forall|i: int|
            0 <= i < p.len() && (#[trigger] p[i]).status == PatchStatus::Submitted ==> a[i] == b[i],
    ensures
        submitted(p, a, n) == submitted(p, b, n),
    decreases n,
{
    if n > 0 {
        law_only_submitted_synced(p, a, b, n - 1);
        assert(p[n - 1].status == PatchStatus::Submitted ==> a[n - 1] == b[n - 1]);
    }
}

} // verus!
