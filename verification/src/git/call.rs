//! The programs that are run, and what became of them.
use vstd::prelude::*;

use crate::text::args::args;
use crate::text::chars::{concat2, concat3, concat4, concat5, same};
use crate::text::pieces;
use crate::text::pieces::joined;
use crate::text::search;
use crate::text::search::occurs;
use crate::text::views;

verus! {

broadcast use views::group_views;

/// How a program is connected to the terminal.
#[derive(Debug, Clone, Copy, PartialEq, Eq, Structural)]
pub enum Console {
    /// What it writes is kept; it reads nothing.
    Captured,
    /// It reads from and writes to the terminal.
    Attached,
    /// It writes to the terminal and finds its input at an end.
    NoInput,
}

/// A program to run in the work tree.
pub struct Call {
    pub program: String,
    pub args: Vec<String>,
    /// What its environment holds besides.
    pub env: Vec<(String, String)>,
    pub console: Console,
}

/// A program to run, as it is seen in contracts.
#[verifier::ext_equal]
pub struct CallView {
    pub program: Seq<char>,
    pub args: Seq<Seq<char>>,
    pub env: Seq<(Seq<char>, Seq<char>)>,
    pub console: Console,
}

impl View for Call {
    type V = CallView;

    open spec fn view(&self) -> CallView {
        CallView {
            program: self.program@,
            args: views::strs(self.args@),
            env: views::pairs(self.env@),
            console: self.console,
        }
    }
}

/// A program whose output is kept.
pub open spec fn captured(program: Seq<char>, args: Seq<Seq<char>>) -> CallView {
    CallView { program, args, env: seq![], console: Console::Captured }
}

/// A program whose output is kept.
pub fn capture(program: &str, args: Vec<String>) -> (r: Call)
    ensures
        r@ == captured(program@, views::strs(args@)),
{
    Call { program: program.to_owned(), args, env: Vec::new(), console: Console::Captured }
}

/// What became of a program.
pub enum Ran {
    /// It could not be started.
    Lost(String),
    /// It came to an end.
    Ended { success: bool, stdout: String, stderr: String },
}

/// What became of a program, as it is seen in contracts.
#[verifier::ext_equal]
pub enum RanView {
    Lost(Seq<char>),
    Ended { success: bool, stdout: Seq<char>, stderr: Seq<char> },
}

impl View for Ran {
    type V = RanView;

    open spec fn view(&self) -> RanView {
        match *self {
            Ran::Lost(e) => RanView::Lost(e@),
            Ran::Ended { success, stdout, stderr } => RanView::Ended {
                success,
                stdout: stdout@,
                stderr: stderr@,
            },
        }
    }
}

impl RanView {
    /// What it wrote, if it succeeded.
    pub open spec fn output(self) -> Option<Seq<char>> {
        match self {
            RanView::Ended { success, stdout, stderr } => if success {
                Some(stdout)
            } else {
                None
            },
            RanView::Lost(e) => None,
        }
    }

    /// Whether it ran and succeeded.
    pub open spec fn good(self) -> bool {
        self.output() is Some
    }
}

impl Ran {
    /// What it wrote, if it succeeded.
    pub fn output(&self) -> (r: Option<&String>)
        ensures
            match r {
                Some(s) => self@.output() == Some(s@),
                None => self@.output() is None,
            },
    {
        match self {
            Ran::Ended { success, stdout, stderr } => if *success {
                Some(stdout)
            } else {
                None
            },
            Ran::Lost(e) => None,
        }
    }

    /// Whether it ran and succeeded.
    pub fn good(&self) -> (r: bool)
        ensures
            r == self@.good(),
    {
        self.output().is_some()
    }
}

/// What a git command answers: its output, or why there is none.
pub open spec fn git_answer(args: Seq<Seq<char>>, ran: RanView) -> Result<Seq<char>, Seq<char>> {
    match ran {
        RanView::Lost(e) => Err(e),
        RanView::Ended { success, stdout, stderr } => if success {
            Ok(stdout)
        } else {
            Err("git "@ + pieces::join(args, " "@) + " failed: "@ + stderr)
        },
    }
}

/// What `git <args>` answers, given what became of it.
pub fn git_in(args: &Vec<String>, ran: Ran) -> (r: Result<String, String>)
    ensures
        views::res(r) == git_answer(views::strs(args@), ran@),
{
    match ran {
        Ran::Lost(e) => Err(e),
        Ran::Ended { success, stdout, stderr } => if success {
            Ok(stdout)
        } else {
            Err(concat4("git ", joined(args, " ").as_str(), " failed: ", stderr.as_str()))
        },
    }
}

/// Whether git says that a commit did not apply.
pub open spec fn conflict_text(stderr: Seq<char>) -> bool {
    search::contains(stderr, "CONFLICT"@) || search::contains(stderr, "could not apply"@)
}

/// How a rebase went: whether it is complete, or stopped at conflicts; or why it
/// failed.
pub open spec fn rebase_answer(what: Seq<char>, ran: RanView, in_progress: bool) -> Result<
    bool,
    Seq<char>,
> {
    match ran {
        RanView::Lost(e) => Err(e),
        RanView::Ended { success, stdout, stderr } => if success && !in_progress {
            Ok(true)
        } else if conflict_text(stderr) || in_progress {
            Ok(false)
        } else {
            Err(what + " failed: "@ + stderr)
        },
    }
}

/// How the rebase went that `what` names, given what became of it and whether a
/// rebase is in progress after it.
pub fn rebase_result(what: &str, ran: &Ran, in_progress: bool) -> (r: Result<bool, String>)
    ensures
        views::err(r) == rebase_answer(what@, ran@, in_progress),
{
    match ran {
        Ran::Lost(e) => Err(e.clone()),
        Ran::Ended { success, stdout, stderr } => {
            if *success && !in_progress {
                Ok(true)
            } else if occurs(stderr.as_str(), "CONFLICT") || occurs(stderr.as_str(), "could not apply")
                || in_progress {
                Ok(false)
            } else {
                Err(concat3(what, " failed: ", stderr.as_str()))
            }
        },
    }
}

/// How a rebase went that is meant to pause: `false` where it paused.
pub open spec fn pause_answer(ran: RanView, in_progress: bool) -> Result<bool, Seq<char>> {
    match ran {
        RanView::Lost(e) => Err(e),
        RanView::Ended { success, stdout, stderr } => Ok(!in_progress),
    }
}

/// How a rebase went that is meant to pause. `git rebase -i` with "edit" succeeds even
/// when it paused; what tells is whether a rebase is in progress after it.
pub fn pause_result(ran: &Ran, in_progress: bool) -> (r: Result<bool, String>)
    ensures
        views::err(r) == pause_answer(ran@, in_progress),
{
    match ran {
        Ran::Lost(e) => Err(e.clone()),
        Ran::Ended { success, stdout, stderr } => Ok(!in_progress),
    }
}

/// The command that edits a file in place on an operating system.
pub open spec fn sed_prefix(os: Seq<char>) -> Seq<char> {
    if os == "macos"@ || os == "freebsd"@ || os == "openbsd"@ || os == "netbsd"@ || os
        == "dragonfly"@ {
        "sed -i ''"@
    } else {
        "sed -i"@
    }
}

/// `sed` plus `-i` flags for in-place edits passed to `GIT_SEQUENCE_EDITOR` (run under `sh -c`).
/// BSD/macOS `sed` requires a backup extension after `-i` (`''` means none); GNU `sed`
/// works without.
pub fn sed_inplace_shell_prefix(os: &str) -> (r: &'static str)
    ensures
        r@ == sed_prefix(os@),
{
    if same(os, "macos") || same(os, "freebsd")
        || same(os, "openbsd") || same(os, "netbsd")
        || same(os, "dragonfly") {
        "sed -i ''"
    } else {
        "sed -i"
    }
}

/// The editor of a rebase's todo list that turns the line of one commit into `verb`.
pub open spec fn mark_editor(sed: Seq<char>, verb: Seq<char>, abbr: Seq<char>) -> Seq<char> {
    sed + " '"@ + mark_rule(verb, abbr) + "'"@
}

/// The rule that turns the line of one commit into `verb`.
pub open spec fn mark_rule(verb: Seq<char>, abbr: Seq<char>) -> Seq<char> {
    "s/^pick "@ + abbr + "/"@ + verb + " "@ + abbr + "/"@
}

/// The rule that turns the line of one commit into `verb`.
fn marking(verb: &str, abbr: &str) -> (r: String)
    ensures
        r@ == mark_rule(verb@, abbr@),
{
    let mut s = concat5("s/^pick ", abbr, "/", verb, " ");
    s.append(abbr);
    s.append("/");
    s
}

/// The editor of a rebase's todo list that turns the line of one commit into `verb`.
pub fn marker(os: &str, verb: &str, abbr: &str) -> (r: String)
    ensures
        r@ == mark_editor(sed_prefix(os@), verb@, abbr@),
{
    concat4(sed_inplace_shell_prefix(os), " '", marking(verb, abbr).as_str(), "'")
}

/// The editor of a rebase's todo list that pauses after one commit.
pub fn break_after(os: &str, abbr: &str) -> (r: String)
    ensures
        r@ == sed_prefix(os@) + " '/^pick "@ + abbr@ + "/a break'"@,
{
    concat4(sed_inplace_shell_prefix(os), " '/^pick ", abbr, "/a break'")
}

/// The editor of a rebase's todo list that pauses at every commit.
pub open spec fn pausing(os: Seq<char>) -> Seq<char> {
    sed_prefix(os) + " 's/^pick /edit /'"@
}

/// The editor of a rebase's todo list that pauses at every commit.
pub fn edit_all(os: &str) -> (r: String)
    ensures
        r@ == pausing(os@),
{
    concat2(sed_inplace_shell_prefix(os), " 's/^pick /edit /'")
}

/// The rules that fold the commits from place `i` on into the one before.
pub open spec fn squash_rules(abbrs: Seq<Seq<char>>) -> Seq<Seq<char>> {
    abbrs.map_values(|a: Seq<char>| mark_rule("squash"@, a))
}

/// The editor of a rebase's todo list that folds all of the commits but the first.
pub fn squash_marker(os: &str, abbrs: &Vec<String>) -> (r: String)
    requires
        abbrs@.len() > 0,
    ensures
        r@ == sed_prefix(os@) + " '"@ + pieces::join(
            squash_rules(views::strs(abbrs@).skip(1)),
            "; "@,
        ) + "'"@,
{
    let mut rules: Vec<String> = Vec::new();
    let mut i: usize = 1;
    let ghost a = views::strs(abbrs@);
    proof {
        assert(squash_rules(a.subrange(1, 1)) =~= Seq::<Seq<char>>::empty());
    }
    while i < abbrs.len()
        invariant
            a == views::strs(abbrs@),
            1 <= i <= abbrs@.len(),
            views::strs(rules@) == squash_rules(a.subrange(1, i as int)),
        decreases abbrs.len() - i,
    {
        rules.push(marking("squash", abbrs[i].as_str()));
        proof {
            assert(squash_rules(a.subrange(1, i + 1)) =~= squash_rules(
                a.subrange(1, i as int),
            ).push(mark_rule("squash"@, a[i as int])));
        }
        i += 1;
    }
    proof {
        assert(a.subrange(1, i as int) =~= a.skip(1));
    }
    concat4(sed_inplace_shell_prefix(os), " '", joined(&rules, "; ").as_str(), "'")
}

/// The editor of a rebase's todo list that exchanges the lines of two commits, of
/// which `below` stands before `above`.
pub fn swap_editor(below: &str, above: &str) -> (r: String)
    ensures
        r@ == "perl -0777 -i -pe 's/(^pick "@ + below@ + "[^\\n]*\\n)(^pick "@ + above@
            + "[^\\n]*)/$2\\n$1/m'"@,
{
    concat5(
        "perl -0777 -i -pe 's/(^pick ",
        below,
        "[^\\n]*\\n)(^pick ",
        above,
        "[^\\n]*)/$2\\n$1/m'",
    )
}

/// An interactive rebase onto `base` whose todo list `editor` edits.
pub open spec fn interactive(base: Seq<char>, editor: Seq<char>) -> CallView {
    CallView {
        program: "git"@,
        args: seq!["rebase"@, "-i"@, base],
        env: seq![("GIT_SEQUENCE_EDITOR"@, editor)],
        console: Console::Captured,
    }
}

/// An interactive rebase onto `base` whose todo list `editor` edits.
pub fn rebase_interactive(base: &str, editor: String) -> (r: Call)
    ensures
        r@ == interactive(base@, editor@),
{
    let mut env: Vec<(String, String)> = Vec::new();
    env.push(("GIT_SEQUENCE_EDITOR".to_owned(), editor));
    Call {
        program: "git".to_owned(),
        args: args(&["rebase", "-i", base]),
        env,
        console: Console::Captured,
    }
}

/// An interactive rebase that folds commits; the message of the result is the content
/// of `message_file`.
pub fn squash_call(base: &str, editor: String, message_file: &str) -> (r: Call)
    ensures
        r@ == (CallView {
            env: interactive(base@, editor@).env.push(
                ("GIT_EDITOR"@, "cp "@ + message_file@ + " "@),
            ),
            ..interactive(base@, editor@)
        }),
{
    let mut c = rebase_interactive(base, editor);
    c.env.push(("GIT_EDITOR".to_owned(), concat3("cp ", message_file, " ")));
    c
}

} // verus!
