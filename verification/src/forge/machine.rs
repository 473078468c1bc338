//! What the operations of the platforms ask for, one step at a time, and the answers that
//! they get.
use vstd::prelude::*;

use crate::git::call::{Call, CallView, Console, Ran, RanView};
use crate::stack;
use crate::stack::{PatchEntry, PatchView};
use crate::text::args::args;
use crate::text::chars;
use crate::text::chars::concat2;
use crate::text::number;
use crate::text::number::decimal;
use crate::text::views;

verus! {

broadcast use views::group_views;

/// What an operation asks for.
pub enum Ask {
    /// Pause a rebase at a commit; answered by how that went.
    EditCommit(String),
    /// Run git; answered by what it answers.
    Git(Vec<String>),
    /// Say something, then run git; answered by what git answers.
    Progress(String, Vec<String>),
    /// Run a program; answered by what became of it.
    Run(Call),
    /// Go on with the rebase; answered by how that went.
    Continue,
    /// Is a rebase in progress? Answered by yes or no.
    InProgress,
    /// Which commits are in the stack? Answered by them.
    Commits,
    /// Which usual base branch is there? Answered as git answers.
    Detect,
    /// What is the base? Answered as git answers.
    Base,
    /// Say something. Answered by nothing.
    Say(String),
    /// Keep a text in a file. Answered by the path of the file, or why there is none.
    Keep(String),
    /// Remove a file. Answered by nothing.
    Remove(String),
    /// The operation is over.
    Done(Result<Vec<String>, String>),
}

/// What an operation asks for, as it is seen in contracts.
#[verifier::ext_equal]
pub enum AskView {
    EditCommit(Seq<char>),
    Git(Seq<Seq<char>>),
    Progress(Seq<char>, Seq<Seq<char>>),
    Run(CallView),
    Continue,
    InProgress,
    Commits,
    Detect,
    Base,
    Say(Seq<char>),
    Keep(Seq<char>),
    Remove(Seq<char>),
    Done(Result<Seq<Seq<char>>, Seq<char>>),
}

impl View for Ask {
    type V = AskView;

    open spec fn view(&self) -> AskView {
        match *self {
            Ask::EditCommit(h) => AskView::EditCommit(h@),
            Ask::Git(a) => AskView::Git(views::strs(a@)),
            Ask::Progress(s, a) => AskView::Progress(s@, views::strs(a@)),
            Ask::Run(c) => AskView::Run(c@),
            Ask::Continue => AskView::Continue,
            Ask::InProgress => AskView::InProgress,
            Ask::Commits => AskView::Commits,
            Ask::Detect => AskView::Detect,
            Ask::Base => AskView::Base,
            Ask::Say(s) => AskView::Say(s@),
            Ask::Keep(s) => AskView::Keep(s@),
            Ask::Remove(s) => AskView::Remove(s@),
            Ask::Done(Ok(v)) => AskView::Done(Ok(views::strs(v@))),
            Ask::Done(Err(e)) => AskView::Done(Err(e@)),
        }
    }
}

/// An answer.
pub enum Reply {
    /// Nothing.
    Nothing,
    /// What git answered.
    Answer(Result<String, String>),
    /// What became of a program.
    Ran(Ran),
    /// How a rebase went: for one that is meant to pause, `false` where it did; for one
    /// that goes on, `true` where it is complete.
    Rebase(Result<bool, String>),
    /// Yes or no.
    Flag(bool),
    /// The commits in the stack.
    Commits(Result<Vec<PatchEntry>, String>),
}

/// An answer as it is seen in contracts.
pub enum ReplyView {
    Nothing,
    Answer(Result<Seq<char>, Seq<char>>),
    Ran(RanView),
    Rebase(Result<bool, Seq<char>>),
    Flag(bool),
    Commits(Result<Seq<PatchView>, Seq<char>>),
}

impl View for Reply {
    type V = ReplyView;

    open spec fn view(&self) -> ReplyView {
        match *self {
            Reply::Nothing => ReplyView::Nothing,
            Reply::Answer(a) => ReplyView::Answer(views::res(a)),
            Reply::Ran(r) => ReplyView::Ran(r@),
            Reply::Rebase(r) => ReplyView::Rebase(views::err(r)),
            Reply::Flag(b) => ReplyView::Flag(b),
            Reply::Commits(Ok(v)) => ReplyView::Commits(Ok(stack::patches(v@))),
            Reply::Commits(Err(e)) => ReplyView::Commits(Err(e@)),
        }
    }
}

/// What is said of an answer to another question than the one that was asked.
pub const STRANGE: &'static str = "unexpected answer";

/// The end of an operation that got an answer to another question.
pub open spec fn strange() -> AskView {
    AskView::Done(Err(STRANGE@))
}

/// The end of an operation that got an answer to another question.
pub fn confused() -> (r: Ask)
    ensures
        r@ == strange(),
{
    Ask::Done(Err(STRANGE.to_owned()))
}

/// The text of an answer, or nothing.
pub open spec fn or_empty(a: Result<Seq<char>, Seq<char>>) -> Seq<char> {
    match a {
        Ok(s) => s,
        Err(e) => seq![],
    }
}

/// The text of an answer, or nothing.
pub fn text_of(a: Result<String, String>) -> (r: String)
    ensures
        r@ == or_empty(views::res(a)),
{
    match a {
        Ok(s) => s,
        Err(e) => String::new(),
    }
}

/// Asks for the message of a commit.
pub open spec fn ask_message(rev: Seq<char>) -> AskView {
    AskView::Git(seq!["log"@, "-1"@, "--format=%B"@, rev])
}

/// Asks for the message of a commit.
pub fn message_of(rev: &str) -> (r: Ask)
    ensures
        r@ == ask_message(rev@),
{
    Ask::Git(args(&["log", "-1", "--format=%B", rev]))
}

/// Asks for the message of the current commit.
pub open spec fn ask_head_message() -> AskView {
    AskView::Git(seq!["log"@, "-1"@, "--format=%B"@])
}

/// Asks for the message of the current commit.
pub fn head_message() -> (r: Ask)
    ensures
        r@ == ask_head_message(),
{
    Ask::Git(args(&["log", "-1", "--format=%B"]))
}

/// Asks to give the current commit another message.
pub open spec fn ask_amend(message: Seq<char>) -> AskView {
    AskView::Run(
        CallView {
            program: "git"@,
            args: seq!["commit"@, "--amend"@, "--message"@, message],
            env: seq![],
            console: Console::Captured,
        },
    )
}

/// Asks to give the current commit another message.
pub fn amend(message: &str) -> (r: Ask)
    ensures
        r@ == ask_amend(message@),
{
    Ask::Run(
        Call {
            program: "git".to_owned(),
            args: args(&["commit", "--amend", "--message", message]),
            env: Vec::new(),
            console: Console::Captured,
        },
    )
}

/// Asks to set a branch to a commit.
pub open spec fn ask_branch(branch: Seq<char>, hash: Seq<char>) -> AskView {
    AskView::Git(seq!["branch"@, "-f"@, branch, hash])
}

/// Asks to set a branch to a commit.
pub fn set_branch(branch: &str, hash: &str) -> (r: Ask)
    ensures
        r@ == ask_branch(branch@, hash@),
{
    Ask::Git(args(&["branch", "-f", branch, hash]))
}

/// Asks to push a branch.
pub open spec fn ask_push(branch: Seq<char>) -> AskView {
    AskView::Git(seq!["push"@, "-f"@, "origin"@, branch])
}

/// Asks to push a branch.
pub fn push_branch(branch: &str) -> (r: Ask)
    ensures
        r@ == ask_push(branch@),
{
    Ask::Git(args(&["push", "-f", "origin", branch]))
}

/// How a revision is named.
pub open spec fn name_of(id: u32) -> Seq<char> {
    "D"@ + number::dec(id as nat)
}

/// How a revision is named.
pub fn revision_name(id: u32) -> (r: String)
    ensures
        r@ == name_of(id),
{
    let d = decimal(id as u64);
    concat2("D", d.as_str())
}

/// An operation's end with one thing to say.
pub open spec fn done(text: Seq<char>) -> AskView {
    AskView::Done(Ok(seq![text]))
}

/// An operation's end with one thing to say.
pub fn finished(text: String) -> (r: Ask)
    ensures
        r@ == done(text@),
{
    let mut v: Vec<String> = Vec::new();
    v.push(text);
    Ask::Done(Ok(v))
}

/// An operation's end with nothing to say.
pub open spec fn done_quietly() -> AskView {
    AskView::Done(Ok(seq![]))
}

/// An operation's end with nothing to say.
pub fn finished_quietly() -> (r: Ask)
    ensures
        r@ == done_quietly(),
{
    Ask::Done(Ok(Vec::new()))
}

/// An operation's end in failure.
pub open spec fn failed(text: Seq<char>) -> AskView {
    AskView::Done(Err(text))
}

} // verus!
