//! The operations for which the front end is suspended. Each says something, asks for
//! something, and goes on with the answer, until it is over.
use vstd::prelude::*;

use super::app::{Reloaded, ReloadedView};
use crate::git::call::{Call, CallView, Ran, RanView};
use crate::text::views;

pub mod cleanup;
pub mod conflict;
pub mod edit;
pub mod insert;
pub mod pull;
pub mod rebase;
pub mod squash;
pub mod submit;
pub mod sync;

verus! {

broadcast use views::group_views;

/// What an operation asks for.
pub enum Ask {
    /// Open the repository. Answered by whether that went well.
    Open,
    /// Wait for Enter. Answered by nothing.
    Enter,
    /// Wait for a key. Answered by it.
    Key,
    /// Pause a rebase behind a commit. Answered by how that went: `false` where it paused.
    BreakAfter(String),
    /// Pause a rebase at a commit. Answered by how that went: `false` where it paused.
    EditCommit(String),
    /// Fold commits into one with a message. Answered by how that went: `true` where it
    /// is complete.
    Squash { hashes: Vec<String>, message: String },
    /// Fetch, and rebase onto the base. Answered by how that went.
    RebaseOntoBase,
    /// Start a rebase onto a base that pauses at every commit. Answered by what became of
    /// it.
    PauseAll(String),
    /// Go on with the rebase. Answered by how that went.
    Continue,
    /// Abort the rebase. Answered by whether that went well.
    Abort,
    /// Is a rebase in progress? Answered by yes or no.
    InProgress,
    /// Which files have conflicts? Answered by them.
    Conflicts,
    /// Run a program. Answered by what became of it.
    Run(Call),
    /// Run git. Answered by what it answers.
    Git(Vec<String>),
    /// Run git many times. Answered by nothing.
    GitAll(Vec<Vec<String>>),
    /// Read the stack, the commit at HEAD and the time. Answered by them.
    Reload,
    /// Fix the dependencies that the commits tell of. Answered by whether the repository
    /// could be opened.
    FixDependencies,
    /// Fetch, and tell what the remote has for the commit with this subject, and what was
    /// last pushed. Answered by both.
    RemoteState(String),
    /// Determine the base of the review of the commit at a place. Answered by it.
    DetermineBase(usize),
    /// Make a review. Answered by what there is to say of it.
    Submit { hash: String, subject: String, base: String, body: String },
    /// Update a review. Answered by what there is to say of it.
    Update { hash: String, subject: String, base: String },
    /// Put what the remote has on record as pushed. Answered by nothing.
    SaveState,
    /// Fetch, and tell which reviews were changed by someone else. Answered by them.
    Diverged,
    /// Bring all reviews up to date. Answered by what there is to say of each.
    Sync,
    /// Offer to delete stale branches. Answered by nothing.
    Cleanup,
    /// Which branches are stale, and which have landed? Answered by them.
    Stale,
    /// Which program edits texts? Answered by its name.
    Editor,
    /// Which text does a new description start from? Answered by it.
    Draft(String),
    /// Let a text be edited, in a file of a name that begins like this. Answered by what
    /// became of it.
    Edit { name: String, content: String, editor: String },
    /// What is the branch of the commit with this subject? Answered by its name.
    BranchName(String),
    /// What is the current branch? Answered as git answers.
    CurrentBranch,
    /// What is the base? Answered as git answers.
    Base,
    /// The operation is over; where it failed, so does the program.
    End(Result<(), String>),
}

/// What an operation asks for, as it is seen in contracts.
#[verifier::ext_equal]
pub enum AskView {
    Open,
    Enter,
    Key,
    BreakAfter(Seq<char>),
    EditCommit(Seq<char>),
    Squash { hashes: Seq<Seq<char>>, message: Seq<char> },
    RebaseOntoBase,
    PauseAll(Seq<char>),
    Continue,
    Abort,
    InProgress,
    Conflicts,
    Run(CallView),
    Git(Seq<Seq<char>>),
    GitAll(Seq<Seq<Seq<char>>>),
    Reload,
    FixDependencies,
    RemoteState(Seq<char>),
    DetermineBase(usize),
    Submit { hash: Seq<char>, subject: Seq<char>, base: Seq<char>, body: Seq<char> },
    Update { hash: Seq<char>, subject: Seq<char>, base: Seq<char> },
    SaveState,
    Diverged,
    Sync,
    Cleanup,
    Stale,
    Editor,
    Draft(Seq<char>),
    Edit { name: Seq<char>, content: Seq<char>, editor: Seq<char> },
    BranchName(Seq<char>),
    CurrentBranch,
    Base,
    End(Result<(), Seq<char>>),
}

impl View for Ask {
    type V = AskView;

    open spec fn view(&self) -> AskView {
        match *self {
            Ask::Open => AskView::Open,
            Ask::Enter => AskView::Enter,
            Ask::Key => AskView::Key,
            Ask::BreakAfter(h) => AskView::BreakAfter(h@),
            Ask::EditCommit(h) => AskView::EditCommit(h@),
            Ask::Squash { hashes, message } => AskView::Squash {
                hashes: views::strs(hashes@),
                message: message@,
            },
            Ask::RebaseOntoBase => AskView::RebaseOntoBase,
            Ask::PauseAll(b) => AskView::PauseAll(b@),
            Ask::Continue => AskView::Continue,
            Ask::Abort => AskView::Abort,
            Ask::InProgress => AskView::InProgress,
            Ask::Conflicts => AskView::Conflicts,
            Ask::Run(c) => AskView::Run(c@),
            Ask::Git(a) => AskView::Git(views::strs(a@)),
            Ask::GitAll(a) => AskView::GitAll(views::lists(a@)),
            Ask::Reload => AskView::Reload,
            Ask::FixDependencies => AskView::FixDependencies,
            Ask::RemoteState(s) => AskView::RemoteState(s@),
            Ask::DetermineBase(i) => AskView::DetermineBase(i),
            Ask::Submit { hash, subject, base, body } => AskView::Submit {
                hash: hash@,
                subject: subject@,
                base: base@,
                body: body@,
            },
            Ask::Update { hash, subject, base } => AskView::Update {
                hash: hash@,
                subject: subject@,
                base: base@,
            },
            Ask::SaveState => AskView::SaveState,
            Ask::Diverged => AskView::Diverged,
            Ask::Sync => AskView::Sync,
            Ask::Cleanup => AskView::Cleanup,
            Ask::Stale => AskView::Stale,
            Ask::Editor => AskView::Editor,
            Ask::Draft(s) => AskView::Draft(s@),
            Ask::Edit { name, content, editor } => AskView::Edit {
                name: name@,
                content: content@,
                editor: editor@,
            },
            Ask::BranchName(s) => AskView::BranchName(s@),
            Ask::CurrentBranch => AskView::CurrentBranch,
            Ask::Base => AskView::Base,
            Ask::End(r) => AskView::End(views::err(r)),
        }
    }
}

/// What became of a text that was to be edited.
pub enum Edited {
    /// It was saved.
    Saved(String),
    /// The editor failed.
    Failed,
    /// The editor could not be started.
    Lost(String),
}

/// What became of a text that was to be edited, as it is seen in contracts.
pub enum EditedView {
    Saved(Seq<char>),
    Failed,
    Lost(Seq<char>),
}

impl View for Edited {
    type V = EditedView;

    open spec fn view(&self) -> EditedView {
        match *self {
            Edited::Saved(s) => EditedView::Saved(s@),
            Edited::Failed => EditedView::Failed,
            Edited::Lost(e) => EditedView::Lost(e@),
        }
    }
}

/// An answer.
pub enum Reply {
    Nothing,
    /// Whether something went well.
    Done(Result<(), String>),
    Key(char),
    /// How a rebase went.
    Rebase(Result<bool, String>),
    Flag(bool),
    /// Texts: files, or names.
    Texts(Vec<String>),
    Ran(Ran),
    /// What git answered.
    Answer(Result<String, String>),
    Stack(Reloaded),
    Text(String),
    /// What the remote has, and what was last pushed, where there is any.
    Remote { there: Option<String>, pushed: Option<String> },
    /// What there is to say of a review, or why there is nothing.
    Review(Result<String, String>),
    /// The reviews that were changed by someone else, each with what is said of it; none
    /// where the repository could not be opened.
    Diverged(Option<Vec<(String, String)>>),
    /// What there is to say of each review, or why there is nothing; none where the
    /// repository could not be opened.
    Synced(Option<Result<Vec<String>, String>>),
    Edited(Edited),
    /// The branches that are stale, and those that have landed.
    Stale { stale: Vec<String>, landed: Vec<String> },
}

/// An answer as it is seen in contracts.
pub enum ReplyView {
    Nothing,
    Done(Result<(), Seq<char>>),
    Key(char),
    Rebase(Result<bool, Seq<char>>),
    Flag(bool),
    Texts(Seq<Seq<char>>),
    Ran(RanView),
    Answer(Result<Seq<char>, Seq<char>>),
    Stack(ReloadedView),
    Text(Seq<char>),
    Remote { there: Option<Seq<char>>, pushed: Option<Seq<char>> },
    Review(Result<Seq<char>, Seq<char>>),
    Diverged(Option<Seq<(Seq<char>, Seq<char>)>>),
    Synced(Option<Result<Seq<Seq<char>>, Seq<char>>>),
    Edited(EditedView),
    Stale { stale: Seq<Seq<char>>, landed: Seq<Seq<char>> },
}

impl View for Reply {
    type V = ReplyView;

    open spec fn view(&self) -> ReplyView {
        match *self {
            Reply::Nothing => ReplyView::Nothing,
            Reply::Done(r) => ReplyView::Done(views::err(r)),
            Reply::Key(c) => ReplyView::Key(c),
            Reply::Rebase(r) => ReplyView::Rebase(views::err(r)),
            Reply::Flag(b) => ReplyView::Flag(b),
            Reply::Texts(v) => ReplyView::Texts(views::strs(v@)),
            Reply::Ran(r) => ReplyView::Ran(r@),
            Reply::Answer(r) => ReplyView::Answer(views::res(r)),
            Reply::Stack(r) => ReplyView::Stack(r@),
            Reply::Text(s) => ReplyView::Text(s@),
            Reply::Remote { there, pushed } => ReplyView::Remote {
                there: views::opt(there),
                pushed: views::opt(pushed),
            },
            Reply::Review(r) => ReplyView::Review(views::res(r)),
            Reply::Diverged(Some(v)) => ReplyView::Diverged(Some(views::pairs(v@))),
            Reply::Diverged(None) => ReplyView::Diverged(None),
            Reply::Synced(Some(Ok(v))) => ReplyView::Synced(Some(Ok(views::strs(v@)))),
            Reply::Synced(Some(Err(e))) => ReplyView::Synced(Some(Err(e@))),
            Reply::Synced(None) => ReplyView::Synced(None),
            Reply::Edited(e) => ReplyView::Edited(e@),
            Reply::Stale { stale, landed } => ReplyView::Stale {
                stale: views::strs(stale@),
                landed: views::strs(landed@),
            },
        }
    }
}

/// The end of an operation.
pub open spec fn end() -> AskView {
    AskView::End(Ok(()))
}

/// The end of an operation.
pub fn ended() -> (r: Ask)
    ensures
        r@ == end(),
{
    Ask::End(Ok(()))
}

/// The end of an operation that failed, and the program with it.
pub open spec fn fail(e: Seq<char>) -> AskView {
    AskView::End(Err(e))
}

/// Nothing to say.
pub open spec fn silence() -> Seq<char> {
    Seq::empty()
}

} // verus!
