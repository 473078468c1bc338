//! A git repository: what is asked of git, and what is made of its answers.
use vstd::prelude::*;

use super::branch;
use super::branch::{can_slug, slug_text, Wanted};
use super::call;
use super::call::{
    Call, CallView, Console, break_after, capture, marker, rebase_interactive, squash_call, squash_marker, swap_editor,
};
use crate::config;
use crate::config::join_path;
use crate::stack;
use crate::stack::{PatchEntry, PatchStatus, PatchView};
use crate::strmap;
use crate::strmap::StrMap;
use crate::text::args::args;
use crate::text::chars;
use crate::text::chars::{concat2, concat3, concat4, copy_opt, piece, same, to_chars, trimmed};
use crate::text::pieces;
use crate::text::pieces::{filled_lines, lines_of, split_text, splitn_text};
use crate::text::search;
use crate::text::search::dropped_prefix;
use crate::text::views;

verus! {

broadcast use views::group_views;

/// A git repository.
pub struct Repo {
    pub workdir: String,
    /// When set (via [`Self::with_resolved_base`]), used for stack operations instead of auto-detect.
    pub resolved_base: Option<String>,
}

/// A git repository as it is seen in contracts.
pub struct RepoView {
    pub workdir: Seq<char>,
    pub resolved_base: Option<Seq<char>>,
}

impl View for Repo {
    type V = RepoView;

    open spec fn view(&self) -> RepoView {
        RepoView { workdir: self.workdir@, resolved_base: views::opt(self.resolved_base) }
    }
}

/// How far the search for the base branch has come.
pub enum BaseStep {
    /// Is this a ref?
    Check(String),
    /// Which default branch does the platform tell?
    AskForge,
    /// Which of the usual branches are there?
    Detect,
    /// This is the base, or why there is none.
    Done(Result<String, String>),
}

/// How far the search for the base branch has come, as it is seen in contracts.
#[verifier::ext_equal]
pub enum BaseStepView {
    Check(Seq<char>),
    AskForge,
    Detect,
    Done(Result<Seq<char>, Seq<char>>),
}

impl View for BaseStep {
    type V = BaseStepView;

    open spec fn view(&self) -> BaseStepView {
        match *self {
            BaseStep::Check(b) => BaseStepView::Check(b@),
            BaseStep::AskForge => BaseStepView::AskForge,
            BaseStep::Detect => BaseStepView::Detect,
            BaseStep::Done(r) => BaseStepView::Done(views::res(r)),
        }
    }
}

/// A text between quotation marks, with what cannot be printed escaped.
pub uninterp spec fn debug_text(s: Seq<char>) -> Seq<char>;

/// The `Debug` form of a string slice, which is a function of the text alone.
#[verifier::external_body]
fn quoted(s: &str) -> (r: String)
    ensures
        r@ == debug_text(s@),
{
    format!("{:?}", s)
}

/// What is said of a configured base that is no ref; `shown` is the quoted base.
pub open spec fn invalid_base(shown: Seq<char>) -> Seq<char> {
    "Configured base branch "@ + shown
        + " is not a valid ref. Fix repo.base in .pilegit.toml or fetch that branch from your remote."@
}

/// What is said of a configured base that is no ref; `shown` is the quoted base.
pub fn invalid_base_text(shown: &str) -> (r: String)
    ensures
        r@ == invalid_base(shown@),
{
    concat3(
        "Configured base branch ",
        shown,
        " is not a valid ref. Fix repo.base in .pilegit.toml or fetch that branch from your remote.",
    )
}

/// The base that is asked for explicitly.
pub open spec fn explicit_base(configured: Option<Seq<char>>) -> Option<Seq<char>> {
    match configured {
        Some(b) => if chars::trim(b).len() > 0 {
            Some(chars::trim(b))
        } else {
            None
        },
        None => None,
    }
}

/// What is still to be found out, in this order: the configured base, if it is a ref;
/// then the default branch that the platform tells; then a usual branch.
pub open spec fn base_step(
    configured: Option<Seq<char>>,
    valid: Option<bool>,
    hint: Option<Option<Seq<char>>>,
    detected: Option<Result<Seq<char>, Seq<char>>>,
) -> BaseStepView {
    match explicit_base(configured) {
        Some(b) => match valid {
            None => BaseStepView::Check(b),
            Some(is_ref) => if is_ref {
                BaseStepView::Done(Ok(b))
            } else {
                BaseStepView::Done(Err(invalid_base(debug_text(b))))
            },
        },
        None => match hint {
            None => BaseStepView::AskForge,
            Some(Some(h)) => BaseStepView::Done(Ok(h)),
            Some(None) => match detected {
                None => BaseStepView::Detect,
                Some(r) => BaseStepView::Done(r),
            },
        },
    }
}

/// What is said where no usual branch is there.
pub const NO_BASE: &'static str = "Could not detect base branch (tried forge CLI default for your `[forge].type`, then origin/main, origin/master, main, master). Set repo.base in .pilegit.toml (for example base = \"origin/develop\") or run `pgit init`.";

/// The usual branches, the first choice first.
pub open spec fn candidates() -> Seq<Seq<char>> {
    seq!["origin/main"@, "origin/master"@, "main"@, "master"@]
}

/// The usual branches, the first choice first.
pub fn base_candidates() -> (r: Vec<String>)
    ensures
        views::strs(r@) == candidates(),
{
    args(&["origin/main", "origin/master", "main", "master"])
}

/// The first usual branch that is there.
pub open spec fn detected_base(exists: Seq<bool>) -> Result<Seq<char>, Seq<char>> {
    if exists.len() > 0 && exists[0] {
        Ok("origin/main"@)
    } else if exists.len() > 1 && exists[1] {
        Ok("origin/master"@)
    } else if exists.len() > 2 && exists[2] {
        Ok("main"@)
    } else if exists.len() > 3 && exists[3] {
        Ok("master"@)
    } else {
        Err(NO_BASE@)
    }
}

/// The entry that a record of the log gives: its five fields, where it has them.
pub open spec fn record_entry(record: Seq<char>) -> Option<PatchView> {
    let r = chars::trim(record);
    let parts = pieces::splitn(r, 5, "\x1f"@);
    if r.len() == 0 || parts.len() < 5 {
        None
    } else {
        Some(
            PatchView {
                hash: parts[0],
                subject: parts[1],
                body: chars::trim(parts[2]),
                author: parts[3],
                timestamp: chars::trim(parts[4]),
                pr_branch: None,
                pr_number: None,
                pr_url: None,
                status: PatchStatus::Clean,
            },
        )
    }
}

/// The entries that the records of the log give, in their order.
pub open spec fn record_entries(records: Seq<Seq<char>>) -> Seq<PatchView>
    decreases records.len(),
{
    if records.len() == 0 {
        seq![]
    } else {
        match record_entry(records[0]) {
            Some(e) => seq![e] + record_entries(records.drop_first()),
            None => record_entries(records.drop_first()),
        }
    }
}

/// Whether a line of `git status --porcelain` tells of a change that counts: two
/// characters of state and a space stand before the path, and the change counts unless the
/// path is that of the configuration file.
pub open spec fn counts(line: Seq<char>) -> bool {
    !(line.len() >= 3 && line.skip(3) == ".pilegit.toml"@)
}

/// Whether a line of `git status --porcelain` tells of a change that counts.
fn does_count(line: &str) -> (r: bool)
    ensures
        r == counts(line@),
{
    let v = to_chars(line);
    if v.len() < 3 {
        return true;
    }
    proof {
        assert(v@.subrange(3, v@.len() as int) =~= v@.skip(3));
    }
    let path = piece(&v, 3, v.len());
    !same(path.as_str(), ".pilegit.toml")
}

/// Whether the output of `git status --porcelain` tells of a change that counts.
pub open spec fn dirty(output: Seq<char>) -> bool {
    exists|i: int|
        0 <= i < pieces::lines(output).len() && counts(#[trigger] pieces::lines(output)[i])
}

/// Whether the output of `git status --porcelain` tells of a change that counts.
fn is_dirty(output: &str) -> (r: bool)
    ensures
        r == dirty(output@),
{
    let lines = lines_of(output);
    let ghost all = pieces::lines(output@);
    let mut i: usize = 0;
    while i < lines.len()
        invariant
            i <= lines@.len(),
            all == views::strs(lines@),
            all == pieces::lines(output@),
            forall|j: int| 0 <= j < i ==> !counts(#[trigger] all[j]),
        decreases lines.len() - i,
    {
        proof {
            assert(all[i as int] == lines@[i as int]@);
        }
        if does_count(lines[i].as_str()) {
            proof {
                assert(counts(pieces::lines(output@)[i as int]));
            }
            return true;
        }
        i += 1;
    }
    false
}

/// The place closest below `n` whose branch has an open review.
pub open spec fn closest(
    branches: Seq<Seq<char>>,
    open: Seq<(Seq<char>, u32)>,
    n: int,
) -> Option<int>
    decreases n,
{
    if n <= 0 {
        None
    } else if strmap::lookup(open, branches[n - 1]) is Some {
        Some(n - 1)
    } else {
        closest(branches, open, n - 1)
    }
}

/// The branch without the remote's name.
pub open spec fn plain_base(base: Seq<char>) -> Seq<char> {
    search::without_prefix(base, "origin/"@)
}

/// The base of a review, and the commands that bring the base's branch up to date,
/// whatever they answer.
pub struct BaseChoice {
    pub base: String,
    pub commands: Vec<Vec<String>>,
}

/// The base of a review, as it is seen in contracts.
#[verifier::ext_equal]
pub struct BaseChoiceView {
    pub base: Seq<char>,
    pub commands: Seq<Seq<Seq<char>>>,
}

impl View for BaseChoice {
    type V = BaseChoiceView;

    open spec fn view(&self) -> BaseChoiceView {
        BaseChoiceView { base: self.base@, commands: views::lists(self.commands@) }
    }
}

/// The commands that set a branch to a commit and push it.
pub open spec fn refresh(branch: Seq<char>, hash: Seq<char>) -> Seq<Seq<Seq<char>>> {
    seq![
        seq!["branch"@, "-f"@, branch, hash],
        seq!["push"@, "-f"@, "origin"@, branch],
    ]
}

/// The commands that set a branch to a commit and push it.
pub fn refresh_commands(branch: &str, hash: &str) -> (r: Vec<Vec<String>>)
    ensures
        views::lists(r@) == refresh(branch@, hash@),
{
    let mut v: Vec<Vec<String>> = Vec::new();
    v.push(args(&["branch", "-f", branch, hash]));
    v.push(args(&["push", "-f", "origin", branch]));
    proof {
        assert(views::lists(v@) =~= refresh(branch@, hash@)) by {
            assert(views::lists(v@)[0] =~= refresh(branch@, hash@)[0]);
            assert(views::lists(v@)[1] =~= refresh(branch@, hash@)[1]);
        }
    }
    v
}

/// The base of the review of the commit at `n`, where the branches are known: the closest
/// one below it that has an open review, or the stack's base.
pub open spec fn base_choice(
    p: Seq<PatchView>,
    branches: Seq<Seq<char>>,
    open: Seq<(Seq<char>, u32)>,
    base_branch: Seq<char>,
    n: int,
) -> BaseChoiceView {
    match closest(branches, open, n) {
        Some(j) => BaseChoiceView {
            base: branches[j],
            commands: refresh(branches[j], p[j].hash),
        },
        None => BaseChoiceView { base: base_branch, commands: seq![] },
    }
}

/// How far the search for the base of a review has come.
pub enum BaseSearch {
    /// Is this branch there?
    IsThere(String),
    /// The subject of the commit at this place gives no branch.
    Unnamed(usize),
    /// This is the base.
    Done(BaseChoice),
}

/// How far the search for the base of a review has come, as it is seen in contracts.
#[verifier::ext_equal]
pub enum BaseSearchView {
    IsThere(Seq<char>),
    Unnamed(int),
    Done(BaseChoiceView),
}

impl View for BaseSearch {
    type V = BaseSearchView;

    open spec fn view(&self) -> BaseSearchView {
        match *self {
            BaseSearch::IsThere(b) => BaseSearchView::IsThere(b@),
            BaseSearch::Unnamed(i) => BaseSearchView::Unnamed(i as int),
            BaseSearch::Done(c) => BaseSearchView::Done(c@),
        }
    }
}

/// The search for the base of a review among the commits below `n`, from the closest on
/// down. A branch counts where it is listed as open, if the platform could be asked, or
/// else where it is there: `answers` tells that of the branches that were asked for, of
/// which `k` belong to commits above. A commit is given its branch only when it is reached.
pub open spec fn base_search(
    user: Seq<char>,
    p: Seq<PatchView>,
    open: Seq<(Seq<char>, u32)>,
    available: bool,
    answers: Seq<bool>,
    base_branch: Seq<char>,
    n: int,
    k: int,
) -> BaseSearchView
    decreases n,
{
    if n <= 0 {
        BaseSearchView::Done(BaseChoiceView { base: base_branch, commands: seq![] })
    } else if !branch::sluggable(p[n - 1].subject, branch::SUBJECT_BYTES as int) {
        BaseSearchView::Unnamed(n - 1)
    } else {
        let b = branch::branch_of(user, p[n - 1].subject);
        if !available && k >= answers.len() {
            BaseSearchView::IsThere(b)
        } else if if available {
            strmap::lookup(open, b) is Some
        } else {
            answers[k]
        } {
            BaseSearchView::Done(
                BaseChoiceView { base: b, commands: refresh(b, p[n - 1].hash) },
            )
        } else {
            base_search(user, p, open, available, answers, base_branch, n - 1, k + 1)
        }
    }
}

/// Whether a branch's review is over: it is not in the list of open ones, if that
/// list holds any at all, or its commit is in the base branch.
pub open spec fn is_stale(
    branch: Seq<char>,
    open: Seq<(Seq<char>, u32)>,
    available: bool,
    in_base: bool,
) -> bool {
    (available && open.len() > 0 && strmap::lookup(open, branch) is None) || in_base
}

/// The branches whose review is over.
pub open spec fn stale_branches(
    local: Seq<Seq<char>>,
    open: Seq<(Seq<char>, u32)>,
    available: bool,
    in_base: Seq<bool>,
) -> Seq<Seq<char>>
    decreases local.len(),
{
    if local.len() == 0 {
        seq![]
    } else {
        let rest = stale_branches(local.drop_last(), open, available, in_base);
        if is_stale(local.last(), open, available, in_base[local.len() - 1]) {
            rest.push(local.last())
        } else {
            rest
        }
    }
}

/// The commands that delete branches, here and on the remote.
pub open spec fn deletions(branches: Seq<Seq<char>>) -> Seq<Seq<Seq<char>>>
    decreases branches.len(),
{
    if branches.len() == 0 {
        seq![]
    } else {
        deletions(branches.drop_last()).push(seq!["branch"@, "-D"@, branches.last()]).push(
            seq!["push"@, "origin"@, "--delete"@, branches.last()],
        )
    }
}

/// The answer without white space around it.
pub open spec fn trim_answer(a: Result<Seq<char>, Seq<char>>) -> Result<Seq<char>, Seq<char>> {
    match a {
        Ok(s) => Ok(chars::trim(s)),
        Err(e) => Err(e),
    }
}

/// The answer without white space around it.
fn trimmed_answer(a: Result<String, String>) -> (r: Result<String, String>)
    ensures
        views::res(r) == trim_answer(views::res(a)),
{
    match a {
        Ok(s) => Ok(trimmed(s.as_str())),
        Err(e) => Err(e),
    }
}

/// An entry of the stack, from the fields of its record.
fn read_record(record: &str) -> (r: Option<PatchEntry>)
    ensures
        match r {
            Some(e) => record_entry(record@) == Some(e@),
            None => record_entry(record@) is None,
        },
{
    let t = trimmed(record);
    proof {
        reveal_strlit("\x1f");
    }
    let parts = splitn_text(t.as_str(), 5, "\x1f");
    let ghost texts = pieces::splitn(t@, 5, "\x1f"@);
    proof {
        assert(views::strs(parts@).len() == parts@.len());
        assert forall|i: int| 0 <= i < parts@.len() implies texts[i] == #[trigger] parts@[i]@ by {
            assert(views::strs(parts@)[i] == parts@[i]@);
        }
    }
    if t.as_str().is_empty() || parts.len() < 5 {
        None
    } else {
        Some(
            PatchEntry {
                hash: parts[0].clone(),
                subject: parts[1].clone(),
                body: trimmed(parts[2].as_str()),
                author: parts[3].clone(),
                timestamp: trimmed(parts[4].as_str()),
                pr_branch: None,
                pr_number: None,
                pr_url: None,
                status: PatchStatus::Clean,
            },
        )
    }
}

impl Repo {
    /// The command that tells the work tree of the current directory.
    pub fn open_args() -> (r: Vec<String>)
        ensures
            views::strs(r@) == seq!["rev-parse"@, "--show-toplevel"@],
    {
        args(&["rev-parse", "--show-toplevel"])
    }

    /// The repo whose work tree git told.
    pub fn open(answer: Result<String, String>) -> (r: Result<Repo, String>)
        ensures
            match (views::res(answer), r) {
                (Ok(a), Ok(repo)) => repo@ == (RepoView {
                    workdir: chars::trim(a),
                    resolved_base: None,
                }),
                (Err(e), Err(f)) => f@ == e,
                _ => false,
            },
    {
        match answer {
            Ok(a) => Ok(Repo { workdir: trimmed(a.as_str()), resolved_base: None }),
            Err(e) => Err(e),
        }
    }

    /// Open a repo at `workdir` without resolving from cwd (for tests and tooling).
    pub fn at_dir(workdir: String) -> (r: Repo)
        ensures
            r@ == (RepoView { workdir: workdir@, resolved_base: None }),
    {
        Repo { workdir, resolved_base: None }
    }

    /// Attach a resolved base branch (e.g. from `.pilegit.toml`) for all stack git operations.
    pub fn with_resolved_base(self, base: String) -> (r: Repo)
        ensures
            r@ == (RepoView { resolved_base: Some(base@), ..self@ }),
    {
        Repo { workdir: self.workdir, resolved_base: Some(base) }
    }

    /// Resolve stack base: explicit `[repo].base`, then the default branch that the
    /// configured forge's CLI tells, then [`Self::detect_base`]. `valid` tells whether the
    /// explicit base is a ref, `hint` what the CLI told, `detected` what was detected,
    /// each once it is known; the answer asks for what is needed next.
    pub fn resolve_base(
        &self,
        configured: &Option<String>,
        valid: Option<bool>,
        hint: Option<Option<String>>,
        detected: Option<Result<String, String>>,
    ) -> (r: BaseStep)
        ensures
            r@ == base_step(
                views::opt(*configured),
                valid,
                match hint {
                    Some(h) => Some(views::opt(h)),
                    None => None,
                },
                match detected {
                    Some(d) => Some(views::res(d)),
                    None => None,
                },
            ),
    {
        if let Some(b) = configured {
            let b = trimmed(b.as_str());
            if !b.as_str().is_empty() {
                return match valid {
                    None => BaseStep::Check(b),
                    Some(is_ref) => if is_ref {
                        BaseStep::Done(Ok(b))
                    } else {
                        BaseStep::Done(Err(invalid_base_text(quoted(b.as_str()).as_str())))
                    },
                };
            }
        }
        match hint {
            None => BaseStep::AskForge,
            Some(Some(h)) => BaseStep::Done(Ok(h)),
            Some(None) => match detected {
                None => BaseStep::Detect,
                Some(d) => BaseStep::Done(d),
            },
        }
    }

    /// The command that succeeds where `name` is a ref.
    pub fn verify_args(name: &str) -> (r: Vec<String>)
        ensures
            views::strs(r@) == seq!["rev-parse"@, "--verify"@, "--quiet"@, name@],
    {
        args(&["rev-parse", "--verify", "--quiet", name])
    }

    /// The base that is attached, if any.
    pub fn attached_base(&self) -> (r: Option<String>)
        ensures
            views::opt(r) == self@.resolved_base,
    {
        copy_opt(&self.resolved_base)
    }

    /// Base ref for the stack: the attached one if set, else the detected one.
    pub fn base(&self, detected: Result<String, String>) -> (r: Result<String, String>)
        ensures
            views::res(r) == match self@.resolved_base {
                Some(b) => Ok(b),
                None => views::res(detected),
            },
    {
        match &self.resolved_base {
            Some(b) => Ok(b.clone()),
            None => detected,
        }
    }

    /// Detect the base branch (origin/main, origin/master, main, master), given which of
    /// these are refs.
    pub fn detect_base(&self, exists: &[bool]) -> (r: Result<String, String>)
        ensures
            views::res(r) == detected_base(exists@),
    {
        if exists.len() > 0 && exists[0] {
            Ok("origin/main".to_owned())
        } else if exists.len() > 1 && exists[1] {
            Ok("origin/master".to_owned())
        } else if exists.len() > 2 && exists[2] {
            Ok("main".to_owned())
        } else if exists.len() > 3 && exists[3] {
            Ok("master".to_owned())
        } else {
            Err(NO_BASE.to_owned())
        }
    }

    /// The command that tells the commit at HEAD.
    pub fn head_args() -> (r: Vec<String>)
        ensures
            views::strs(r@) == seq!["rev-parse"@, "HEAD"@],
    {
        args(&["rev-parse", "HEAD"])
    }

    /// Get the current HEAD commit hash (full).
    pub fn get_head_hash(&self, answer: Result<String, String>) -> (r: Result<String, String>)
        ensures
            views::res(r) == trim_answer(views::res(answer)),
    {
        trimmed_answer(answer)
    }

    /// The command that tells the current branch.
    pub fn current_branch_args() -> (r: Vec<String>)
        ensures
            views::strs(r@) == seq!["rev-parse"@, "--abbrev-ref"@, "HEAD"@],
    {
        args(&["rev-parse", "--abbrev-ref", "HEAD"])
    }

    /// Get the current branch name.
    pub fn get_current_branch(&self, answer: Result<String, String>) -> (r: Result<String, String>)
        ensures
            views::res(r) == trim_answer(views::res(answer)),
    {
        trimmed_answer(answer)
    }

    /// Hard-reset the current branch to a specific commit.
    /// Used by undo/redo to restore git history.
    pub fn reset_hard(&self, hash: &str) -> (r: Vec<String>)
        ensures
            views::strs(r@) == seq!["reset"@, "--hard"@, hash@],
    {
        args(&["reset", "--hard", hash])
    }

    /// The command that lists the commits between `base` and HEAD, oldest first.
    ///
    /// Uses a record separator (%x1e) between commits and a unit separator
    /// (%x1f) between fields so that multiline commit bodies don't break parsing.
    pub fn log_args(base: &str) -> (r: Vec<String>)
        ensures
            views::strs(r@) == seq![
                "log"@,
                "--reverse"@,
                "--format=%H%x1f%s%x1f%b%x1f%an%x1f%ai%x1e"@,
                base@ + "..HEAD"@,
            ],
    {
        let range = concat2(base, "..HEAD");
        args(
            &["log", "--reverse", "--format=%H%x1f%s%x1f%b%x1f%an%x1f%ai%x1e", range.as_str()],
        )
    }

    /// The commits between base and HEAD, bottom-of-stack first, from the log's output.
    /// [`Self::load_stack`] also marks those that have submitted reviews.
    pub fn list_stack_commits(&self, output: &str) -> (r: Vec<PatchEntry>)
        ensures
            stack::patches(r@) == record_entries(pieces::split(output@, "\x1e"@)),
    {
        proof {
            reveal_strlit("\x1e");
        }
        let records = split_text(output, "\x1e");
        let ghost all = pieces::split(output@, "\x1e"@);
        let mut found: Vec<PatchEntry> = Vec::new();
        let mut i: usize = 0;
        proof {
            assert(all.skip(0) =~= all);
            assert(stack::patches(found@) + record_entries(all) =~= record_entries(all));
        }
        while i < records.len()
            invariant
                i <= records@.len(),
                all == views::strs(records@),
                stack::patches(found@) + record_entries(all.skip(i as int)) == record_entries(
                    all,
                ),
            decreases records.len() - i,
        {
            let ghost before = stack::patches(found@);
            let ghost rest = all.skip(i as int);
            proof {
                assert(rest[0] == records@[i as int]@);
                assert(rest.drop_first() =~= all.skip(i + 1));
            }
            match read_record(records[i].as_str()) {
                Some(e) => {
                    found.push(e);
                    proof {
                        assert(stack::patches(found@) =~= before.push(e@));
                        assert(before.push(e@) + record_entries(all.skip(i + 1)) =~= before + (
                        seq![e@] + record_entries(all.skip(i + 1))));
                    }
                },
                None => {},
            }
            i += 1;
        }
        proof {
            assert(all.skip(i as int) =~= Seq::<Seq<char>>::empty());
            assert(stack::patches(found@) + Seq::<PatchView>::empty() =~= stack::patches(found@));
        }
        found
    }

    /// Get the full diff for a commit.
    pub fn diff_full(&self, hash: &str) -> (r: Vec<String>)
        ensures
            views::strs(r@) == seq!["show"@, "--format="@, hash@],
    {
        args(&["show", "--format=", hash])
    }

    /// The command that lists what is not committed.
    pub fn status_args() -> (r: Vec<String>)
        ensures
            views::strs(r@) == seq!["status"@, "--porcelain"@],
    {
        args(&["status", "--porcelain"])
    }

    /// Check if there are uncommitted changes (staged or unstaged), given what the status
    /// command printed, if it ran. Ignores .pilegit.toml since pgit creates it.
    pub fn has_uncommitted_changes(&self, status: Option<&str>) -> (r: bool)
        ensures
            r == match status {
                Some(out) => dirty(out@),
                None => false,
            },
    {
        match status {
            Some(out) => is_dirty(out),
            None => false,
        }
    }

    /// Fetch from origin to ensure we have the latest remote state.
    pub fn fetch_origin(&self) -> (r: Vec<String>)
        ensures
            views::strs(r@) == seq!["fetch"@, "origin"@],
    {
        args(&["fetch", "origin"])
    }

    /// Rebase onto the base branch.
    pub fn rebase_onto_base(&self, base: &str) -> (r: Call)
        ensures
            r@ == call::captured("git"@, seq!["rebase"@, base@]),
    {
        capture("git", args(&["rebase", base]))
    }

    /// Continue an in-progress rebase, taking the commit messages as they are.
    pub fn rebase_continue(&self) -> (r: Call)
        ensures
            r@ == (CallView {
                program: "git"@,
                args: seq!["rebase"@, "--continue"@],
                env: seq![("GIT_EDITOR"@, "true"@)],
                console: Console::Captured,
            }),
    {
        let mut env: Vec<(String, String)> = Vec::new();
        env.push(("GIT_EDITOR".to_owned(), "true".to_owned()));
        Call {
            program: "git".to_owned(),
            args: args(&["rebase", "--continue"]),
            env,
            console: Console::Captured,
        }
    }

    /// Abort an in-progress rebase.
    pub fn rebase_abort(&self) -> (r: Vec<String>)
        ensures
            views::strs(r@) == seq!["rebase"@, "--abort"@],
    {
        args(&["rebase", "--abort"])
    }

    /// The command that tells git's own short form of a hash.
    pub fn abbrev_args(hash: &str) -> (r: Vec<String>)
        ensures
            views::strs(r@) == seq!["rev-parse"@, "--short"@, hash@],
    {
        args(&["rev-parse", "--short", hash])
    }

    /// Get git's own abbreviated hash for a commit.
    /// This ensures sed patterns match the rebase todo format.
    pub fn abbrev(&self, hash: &str, answer: Result<String, String>) -> (r: String)
        ensures
            r@ == match views::res(answer) {
                Ok(a) => chars::trim(a),
                Err(e) => chars::trim(hash@),
            },
    {
        match answer {
            Ok(a) => trimmed(a.as_str()),
            Err(e) => trimmed(hash),
        }
    }

    /// Start an interactive rebase with a specific commit marked as "edit".
    /// Git will replay commits up to that point and pause, letting the user
    /// modify the working tree.
    pub fn rebase_edit_commit(&self, os: &str, base: &str, abbr: &str) -> (r: Call)
        ensures
            r@ == call::interactive(
                base@,
                call::mark_editor(call::sed_prefix(os@), "edit"@, abbr@),
            ),
    {
        rebase_interactive(base, marker(os, "edit", abbr))
    }

    /// Start an interactive rebase with a "break" inserted after a specific
    /// commit. This pauses the rebase so the user can insert a new commit.
    pub fn rebase_break_after(&self, os: &str, base: &str, abbr: &str) -> (r: Call)
        ensures
            r@ == call::interactive(
                base@,
                call::sed_prefix(os@) + " '/^pick "@ + abbr@ + "/a break'"@,
            ),
    {
        rebase_interactive(base, break_after(os, abbr))
    }

    /// Squash multiple commits into one via interactive rebase, using a custom
    /// commit message, which stands in `message_file`. `abbrs` should be ordered from
    /// oldest to newest. The first stays as `pick`, the rest become `squash`.
    pub fn squash_commits_with_message(
        &self,
        os: &str,
        base: &str,
        abbrs: &Vec<String>,
        message_file: &str,
    ) -> (r: Result<Call, String>)
        ensures
            match r {
                Ok(c) => abbrs@.len() >= 2 && c@ == ({
                    let i = call::interactive(
                        base@,
                        call::sed_prefix(os@) + " '"@ + pieces::join(
                            call::squash_rules(views::strs(abbrs@).skip(1)),
                            "; "@,
                        ) + "'"@,
                    );
                    CallView {
                        env: i.env.push(("GIT_EDITOR"@, "cp "@ + message_file@ + " "@)),
                        ..i
                    }
                }),
                Err(e) => abbrs@.len() < 2 && e@ == "Need at least 2 commits to squash"@,
            },
    {
        if abbrs.len() < 2 {
            return Err("Need at least 2 commits to squash".to_owned());
        }
        Ok(squash_call(base, squash_marker(os, abbrs), message_file))
    }

    /// Remove a commit from git history via interactive rebase.
    pub fn remove_commit(&self, os: &str, base: &str, abbr: &str) -> (r: Call)
        ensures
            r@ == call::interactive(
                base@,
                call::mark_editor(call::sed_prefix(os@), "drop"@, abbr@),
            ),
    {
        rebase_interactive(base, marker(os, "drop", abbr))
    }

    /// Swap two adjacent commits in git history via interactive rebase.
    /// `below` is the older one; after swapping, it will be above.
    pub fn swap_commits(&self, base: &str, below: &str, above: &str) -> (r: Call)
        ensures
            r@ == call::interactive(
                base@,
                "perl -0777 -i -pe 's/(^pick "@ + below@ + "[^\\n]*\\n)(^pick "@ + above@
                    + "[^\\n]*)/$2\\n$1/m'"@,
            ),
    {
        rebase_interactive(base, swap_editor(below, above))
    }

    /// The directories of which one is there while a rebase is in progress.
    pub fn rebase_dirs(&self) -> (r: (String, String))
        ensures
            r.0@ == config::path_under(self@.workdir, ".git/rebase-merge"@),
            r.1@ == config::path_under(self@.workdir, ".git/rebase-apply"@),
    {
        (
            join_path(self.workdir.as_str(), ".git/rebase-merge"),
            join_path(self.workdir.as_str(), ".git/rebase-apply"),
        )
    }

    /// Check if a rebase is currently in progress, given which of the directories are
    /// there.
    pub fn is_rebase_in_progress(&self, merge_dir: bool, apply_dir: bool) -> (r: bool)
        ensures
            r == (merge_dir || apply_dir),
    {
        merge_dir || apply_dir
    }

    /// The command that lists the files with conflicts.
    pub fn conflicts_args() -> (r: Vec<String>)
        ensures
            views::strs(r@) == seq!["diff"@, "--name-only"@, "--diff-filter=U"@],
    {
        args(&["diff", "--name-only", "--diff-filter=U"])
    }

    /// Get the list of files with conflicts (unmerged paths).
    pub fn conflicted_files(&self, answer: Result<String, String>) -> (r: Result<
        Vec<String>,
        String,
    >)
        ensures
            match (views::res(answer), r) {
                (Ok(a), Ok(v)) => views::strs(v@) == pieces::non_empty(
                    pieces::trim_all(pieces::lines(a)),
                ),
                (Err(e), Err(f)) => f@ == e,
                _ => false,
            },
    {
        match answer {
            Ok(a) => Ok(filled_lines(a.as_str())),
            Err(e) => Err(e),
        }
    }

    /// Determine the correct PR base for a commit by walking down the stack.
    /// `open_prs` are the open reviews, if the platform could be asked; else `answers` tells
    /// which of the branches that the search asked for are there, in the order in which it
    /// asked. If all parents below are merged/closed, the base is the stack's base, or
    /// `main` where there is none.
    pub fn determine_base_for_commit(
        &self,
        user: &str,
        base: Result<String, String>,
        patches: &Vec<PatchEntry>,
        commit_index: usize,
        open_prs: &StrMap<u32>,
        gh_available: bool,
        answers: &[bool],
    ) -> (r: BaseSearch)
        requires
            commit_index <= patches@.len(),
        ensures
            r@ == base_search(
                user@,
                stack::patches(patches@),
                open_prs@,
                gh_available,
                answers@,
                plain_base(
                    match views::res(base) {
                        Ok(b) => b,
                        Err(e) => "main"@,
                    },
                ),
                commit_index as int,
                0,
            ),
    {
        let base = match base {
            Ok(b) => b,
            Err(e) => "main".to_owned(),
        };
        let base_branch = dropped_prefix(base.as_str(), "origin/");
        self.search_base(
            user,
            patches,
            commit_index,
            open_prs,
            gh_available,
            answers,
            base_branch.as_str(),
        )
    }

    /// Walks down the stack to the closest branch that is under review.
    fn search_base(
        &self,
        user: &str,
        patches: &Vec<PatchEntry>,
        commit_index: usize,
        open_prs: &StrMap<u32>,
        available: bool,
        answers: &[bool],
        base_branch: &str,
    ) -> (r: BaseSearch)
        requires
            commit_index <= patches@.len(),
        ensures
            r@ == base_search(
                user@,
                stack::patches(patches@),
                open_prs@,
                available,
                answers@,
                base_branch@,
                commit_index as int,
                0,
            ),
    {
        let ghost p = stack::patches(patches@);
        let mut j: usize = commit_index;
        while j > 0
            invariant
                j <= commit_index <= patches@.len(),
                p == stack::patches(patches@),
                base_search(
                    user@,
                    p,
                    open_prs@,
                    available,
                    answers@,
                    base_branch@,
                    commit_index as int,
                    0,
                ) == base_search(
                    user@,
                    p,
                    open_prs@,
                    available,
                    answers@,
                    base_branch@,
                    j as int,
                    commit_index - j,
                ),
            decreases j,
        {
            let k: usize = commit_index - j;
            j -= 1;
            proof {
                assert(p[j as int] == patches@[j as int]@);
            }
            let name = match self.branch_name(user, patches[j].subject.as_str()) {
                Some(b) => b,
                None => {
                    return BaseSearch::Unnamed(j);
                },
            };
            if !available && k >= answers.len() {
                return BaseSearch::IsThere(name);
            }
            let is_live = if available {
                open_prs.contains_key(name.as_str())
            } else {
                answers[k]
            };
            if is_live {
                let commands = refresh_commands(name.as_str(), patches[j].hash.as_str());
                return BaseSearch::Done(BaseChoice { base: name, commands });
            }
        }
        let choice = BaseChoice { base: base_branch.to_owned(), commands: Vec::new() };
        proof {
            assert(choice@.commands =~= Seq::<Seq<Seq<char>>>::empty());
        }
        BaseSearch::Done(choice)
    }

    /// Whether the subject gives a stable branch name like `pgit/hokwang/feat-add-login`,
    /// and which. `None` where the subject cannot be shortened.
    pub fn branch_name(&self, user: &str, subject: &str) -> (r: Option<String>)
        ensures
            match r {
                Some(b) => branch::sluggable(subject@, branch::SUBJECT_BYTES as int) && b@
                    == branch::branch_of(user@, subject@),
                None => !branch::sluggable(subject@, branch::SUBJECT_BYTES as int),
            },
    {
        if can_slug(subject, branch::SUBJECT_BYTES) {
            Some(self.make_pgit_branch_name(user, subject))
        } else {
            None
        }
    }

    /// Generate a stable branch name like `pgit/hokwang/feat-add-login`.
    /// Includes the git username to avoid conflicts with other pgit users.
    /// Does NOT include the hash so the name stays the same when the commit
    /// is edited/amended — allowing `git push -f` to update an existing PR.
    pub fn make_pgit_branch_name(&self, user: &str, subject: &str) -> (r: String)
        requires
            branch::sluggable(subject@, branch::SUBJECT_BYTES as int),
        ensures
            r@ == branch::branch_of(user@, subject@),
    {
        let s = slug_text(subject, branch::SUBJECT_BYTES);
        concat4("pgit/", user, "/", s.as_str())
    }

    /// The branches of those entries of a stack that are wanted, and nothing for the
    /// others; `None` where the subject of a wanted one cannot be shortened.
    pub fn branch_names(&self, user: &str, patches: &Vec<PatchEntry>, wanted: Wanted) -> (r:
        Option<Vec<String>>)
        ensures
            match r {
                Some(v) => wanted.sluggable(stack::patches(patches@)) && views::strs(v@)
                    == wanted.branches(user@, stack::patches(patches@)),
                None => !wanted.sluggable(stack::patches(patches@)),
            },
    {
        let ghost p = stack::patches(patches@);
        let mut v: Vec<String> = Vec::new();
        let mut i: usize = 0;
        while i < patches.len()
            invariant
                i <= patches@.len() == p.len(),
                p == stack::patches(patches@),
                views::strs(v@).len() == i,
                forall|j: int|
                    0 <= j < i ==> #[trigger] views::strs(v@)[j] == wanted.branches(user@, p)[j],
                forall|j: int|
                    0 <= j < i && wanted.has(#[trigger] p[j]) ==> branch::sluggable(
                        p[j].subject,
                        branch::SUBJECT_BYTES as int,
                    ),
            decreases patches.len() - i,
        {
            proof {
                assert(p[i as int] == patches@[i as int]@);
            }
            let ghost before = views::strs(v@);
            let name = if wanted.wants(&patches[i]) {
                match self.branch_name(user, patches[i].subject.as_str()) {
                    Some(b) => b,
                    None => {
                        return None;
                    },
                }
            } else {
                String::new()
            };
            v.push(name);
            proof {
                assert(views::strs(v@) =~= before.push(name@));
            }
            i += 1;
        }
        proof {
            assert(views::strs(v@) =~= wanted.branches(user@, p));
        }
        Some(v)
    }

    /// The command that lists the user's branches.
    pub fn branch_list_args(user: &str) -> (r: Vec<String>)
        ensures
            views::strs(r@) == seq![
                "branch"@,
                "--list"@,
                "pgit/"@ + user@ + "/"@ + "*"@,
                "--format=%(refname:short)"@,
            ],
    {
        let pattern = concat4("pgit/", user, "/", "*");
        args(&["branch", "--list", pattern.as_str(), "--format=%(refname:short)"])
    }

    /// List all local pgit branches for the current user.
    pub fn list_pgit_branches(&self, answer: Result<String, String>) -> (r: Vec<String>)
        ensures
            views::strs(r@) == match views::res(answer) {
                Ok(a) => pieces::non_empty(pieces::trim_all(pieces::lines(a))),
                Err(e) => seq![],
            },
    {
        match answer {
            Ok(a) => filled_lines(a.as_str()),
            Err(e) => Vec::new(),
        }
    }

    /// The command that succeeds where a branch's tip is an ancestor of the base, or of
    /// `origin/main` where there is no base.
    pub fn ancestor_args(branch: &str, base: Result<String, String>) -> (r: Vec<String>)
        ensures
            views::strs(r@) == seq![
                "merge-base"@,
                "--is-ancestor"@,
                branch@,
                match views::res(base) {
                    Ok(b) => b,
                    Err(e) => "origin/main"@,
                },
            ],
    {
        let base = match base {
            Ok(b) => b,
            Err(e) => "origin/main".to_owned(),
        };
        args(&["merge-base", "--is-ancestor", branch, base.as_str()])
    }

    /// Check if a branch's tip commit is an ancestor of the base branch.
    /// True for merge-commit and fast-forward merges where the original
    /// commit is preserved.
    pub fn branch_is_in_base(&self, answer: &Result<String, String>) -> (r: bool)
        ensures
            r == (*answer is Ok),
    {
        answer.is_ok()
    }

    /// Find stale pgit branches using the forge's open PR list.
    /// Returns branches that are either:
    ///   - Not in the open PR list (closed/merged on the forge), or
    ///   - Whose commit is now reachable from the base branch
    ///
    /// An empty list likely means the CLI query failed, and tells nothing.
    pub fn find_stale_branches_with(
        &self,
        local: &Vec<String>,
        open_prs: &StrMap<u32>,
        gh_available: bool,
        in_base: &[bool],
    ) -> (r: Vec<String>)
        requires
            in_base@.len() == local@.len(),
        ensures
            views::strs(r@) == stale_branches(
                views::strs(local@),
                open_prs@,
                gh_available,
                in_base@,
            ),
    {
        let ghost all = views::strs(local@);
        let mut stale: Vec<String> = Vec::new();
        let mut i: usize = 0;
        proof {
            assert(all.take(0) =~= Seq::<Seq<char>>::empty());
        }
        while i < local.len()
            invariant
                i <= local@.len(),
                all == views::strs(local@),
                in_base@.len() == local@.len(),
                views::strs(stale@) == stale_branches(
                    all.take(i as int),
                    open_prs@,
                    gh_available,
                    in_base@,
                ),
            decreases local.len() - i,
        {
            proof {
                assert(all.take(i + 1).drop_last() =~= all.take(i as int));
                assert(all.take(i + 1).last() == local@[i as int]@);
            }
            if (gh_available && !open_prs.is_empty() && !open_prs.contains_key(local[i].as_str()))
                || in_base[i] {
                stale.push(local[i].clone());
            }
            i += 1;
        }
        proof {
            assert(all.take(i as int) =~= all);
        }
        stale
    }

    /// Delete branches locally and on the remote.
    /// Only called after confirming branches are stale (MR merged/closed).
    pub fn delete_branches(&self, branches: &Vec<String>) -> (r: Vec<Vec<String>>)
        ensures
            views::lists(r@) == deletions(views::strs(branches@)),
    {
        let ghost all = views::strs(branches@);
        let mut commands: Vec<Vec<String>> = Vec::new();
        let mut i: usize = 0;
        proof {
            assert(all.take(0) =~= Seq::<Seq<char>>::empty());
        }
        while i < branches.len()
            invariant
                i <= branches@.len(),
                all == views::strs(branches@),
                views::lists(commands@) == deletions(all.take(i as int)),
            decreases branches.len() - i,
        {
            let a = args(&["branch", "-D", branches[i].as_str()]);
            let b = args(&["push", "origin", "--delete", branches[i].as_str()]);
            proof {
                assert(all.take(i + 1).drop_last() =~= all.take(i as int));
                assert(all.take(i + 1).last() == branches@[i as int]@);
                assert(views::strs(a@) =~= seq!["branch"@, "-D"@, all[i as int]]);
                assert(views::strs(b@) =~= seq!["push"@, "origin"@, "--delete"@, all[i as int]]);
            }
            commands.push(a);
            commands.push(b);
            i += 1;
        }
        proof {
            assert(all.take(i as int) =~= all);
        }
        commands
    }

    /// Force-update a branch to point at a hash, then push: the commands to run, until
    /// one fails. If we're already on the branch, skip the branch -f (it's already at HEAD).
    pub fn force_update_and_push(
        &self,
        current: Result<String, String>,
        branch: &str,
        hash: &str,
    ) -> (r: Vec<Vec<String>>)
        ensures
            views::lists(r@) == ({
                let here = match trim_answer(views::res(current)) {
                    Ok(b) => b,
                    Err(e) => seq![],
                };
                if here == branch@ {
                    refresh(branch@, hash@).skip(1)
                } else {
                    refresh(branch@, hash@)
                }
            }),
    {
        let here = match trimmed_answer(current) {
            Ok(b) => b,
            Err(e) => String::new(),
        };
        let mut commands = refresh_commands(branch, hash);
        if same(here.as_str(), branch) {
            let ghost before = views::lists(commands@);
            proof {
                assert(views::lists(commands@).len() == commands@.len());
            }
            let first = commands.remove(0);
            proof {
                assert(views::lists(commands@) =~= before.skip(1));
            }
        }
        commands
    }

    /// Walk down the stack to determine the correct PR base for a commit.
    /// Uses the open_prs map to detect merged parents. `None` where a subject that is
    /// reached gives no branch.
    pub fn walk_stack_for_base(
        &self,
        user: &str,
        patches: &Vec<PatchEntry>,
        commit_index: usize,
        open_prs: &StrMap<u32>,
        base_branch: &str,
    ) -> (r: Option<BaseChoice>)
        requires
            commit_index <= patches@.len(),
        ensures
            match base_search(
                user@,
                stack::patches(patches@),
                open_prs@,
                true,
                seq![],
                base_branch@,
                commit_index as int,
                0,
            ) {
                BaseSearchView::Done(c) => r matches Some(x) && x@ == c,
                BaseSearchView::Unnamed(i) => r is None,
                BaseSearchView::IsThere(b) => false,
            },
    {
        let none: Vec<bool> = Vec::new();
        proof {
            assert(none@ =~= seq![]);
            law_search_place(
                user@,
                stack::patches(patches@),
                open_prs@,
                true,
                seq![],
                base_branch@,
                commit_index as int,
                0,
            );
        }
        match self.search_base(
            user,
            patches,
            commit_index,
            open_prs,
            true,
            none.as_slice(),
            base_branch,
        ) {
            BaseSearch::Done(c) => Some(c),
            _ => None,
        }
    }
}

/// Walks down the stack to the closest of the given branches that has an open review.
pub fn closest_base(
    patches: &Vec<PatchEntry>,
    branches: &Vec<String>,
    commit_index: usize,
    open_prs: &StrMap<u32>,
    base_branch: &str,
) -> (r: BaseChoice)
    requires
        commit_index <= patches@.len(),
        branches@.len() == patches@.len(),
    ensures
        r@ == base_choice(
            stack::patches(patches@),
            views::strs(branches@),
            open_prs@,
            base_branch@,
            commit_index as int,
        ),
{
    let ghost bs = views::strs(branches@);
    let mut j: usize = commit_index;
    while j > 0
        invariant
            j <= commit_index <= patches@.len(),
            branches@.len() == patches@.len(),
            bs == views::strs(branches@),
            closest(bs, open_prs@, commit_index as int) == closest(bs, open_prs@, j as int),
        decreases j,
    {
        j -= 1;
        proof {
            assert(bs[j as int] == branches@[j as int]@);
            assert(stack::patches(patches@)[j as int] == patches@[j as int]@);
        }
        if open_prs.contains_key(branches[j].as_str()) {
            return BaseChoice {
                base: branches[j].clone(),
                commands: refresh_commands(branches[j].as_str(), patches[j].hash.as_str()),
            };
        }
    }
    BaseChoice { base: base_branch.to_owned(), commands: Vec::new() }
}

/// Whether the commit at place `j` can be given a branch.
pub open spec fn nameable(p: Seq<PatchView>, j: int) -> bool {
    branch::sluggable(p[j].subject, branch::SUBJECT_BYTES as int)
}

/// Whether the branch of the commit at place `j` below `n` counts in the search.
pub open spec fn live(
    user: Seq<char>,
    p: Seq<PatchView>,
    open: Seq<(Seq<char>, u32)>,
    available: bool,
    answers: Seq<bool>,
    n: int,
    k: int,
    j: int,
) -> bool {
    if available {
        strmap::lookup(open, branch::branch_of(user, p[j].subject)) is Some
    } else {
        answers[k + n - 1 - j]
    }
}

/// Whether the search goes past the commit at place `j`.
pub open spec fn passes(
    user: Seq<char>,
    p: Seq<PatchView>,
    open: Seq<(Seq<char>, u32)>,
    available: bool,
    answers: Seq<bool>,
    n: int,
    k: int,
    j: int,
) -> bool {
    nameable(p, j) && (available || k + n - 1 - j < answers.len()) && !live(
        user,
        p,
        open,
        available,
        answers,
        n,
        k,
        j,
    )
}

/// Whether the commit at place `j` is the closest one that the search does not go past.
pub open spec fn stops(
    user: Seq<char>,
    p: Seq<PatchView>,
    open: Seq<(Seq<char>, u32)>,
    available: bool,
    answers: Seq<bool>,
    n: int,
    k: int,
    j: int,
) -> bool {
    0 <= j < n && !passes(user, p, open, available, answers, n, k, j) && forall|m: int|
        j < m < n ==> #[trigger] passes(user, p, open, available, answers, n, k, m)
}

/// What comes of the search where it stops at place `j`.
pub open spec fn met(
    user: Seq<char>,
    p: Seq<PatchView>,
    available: bool,
    answers: Seq<bool>,
    n: int,
    k: int,
    j: int,
) -> BaseSearchView {
    let b = branch::branch_of(user, p[j].subject);
    if !nameable(p, j) {
        BaseSearchView::Unnamed(j)
    } else if !available && k + n - 1 - j >= answers.len() {
        BaseSearchView::IsThere(b)
    } else {
        BaseSearchView::Done(BaseChoiceView { base: b, commands: refresh(b, p[j].hash) })
    }
}

/// The base of a review is the closest branch below that is under review; where none is, it
/// is the stack's base. Commits below that branch are not looked at. A branch is asked for
/// only if the platform could not be asked, and only once none above it counts.
pub proof fn law_search_place(
    user: Seq<char>,
    p: Seq<PatchView>,
    open: Seq<(Seq<char>, u32)>,
    available: bool,
    answers: Seq<bool>,
    base_branch: Seq<char>,
    n: int,
    k: int,
)
    requires
        n >= 0,
        k >= 0,
    ensures
        ({
            let r = base_search(user, p, open, available, answers, base_branch, n, k);
            ||| (forall|m: int|
                0 <= m < n ==> #[trigger] passes(user, p, open, available, answers, n, k, m)) && r
                == BaseSearchView::Done(BaseChoiceView { base: base_branch, commands: seq![] })
            ||| exists|j: int|
                #[trigger] stops(user, p, open, available, answers, n, k, j) && r == met(
                    user,
                    p,
                    available,
                    answers,
                    n,
                    k,
                    j,
                )
        }),
    decreases n,
{
    let r = base_search(user, p, open, available, answers, base_branch, n, k);
    if n > 0 {
        let top = n - 1;
        if passes(user, p, open, available, answers, n, k, top) {
            law_search_place(user, p, open, available, answers, base_branch, top, k + 1);
            assert forall|m: int| 0 <= m < top implies #[trigger] passes(
                user,
                p,
                open,
                available,
                answers,
                n,
                k,
                m,
            ) == passes(user, p, open, available, answers, top, k + 1, m) by {}
            if exists|j: int|
                #[trigger] stops(user, p, open, available, answers, top, k + 1, j) && r == met(
                    user,
                    p,
                    available,
                    answers,
                    top,
                    k + 1,
                    j,
                ) {
                let j = choose|j: int|
                    #[trigger] stops(user, p, open, available, answers, top, k + 1, j) && r == met(
                        user,
                        p,
                        available,
                        answers,
                        top,
                        k + 1,
                        j,
                    );
                assert(!passes(user, p, open, available, answers, n, k, j));
                assert(stops(user, p, open, available, answers, n, k, j));
            }
        } else {
            assert(stops(user, p, open, available, answers, n, k, top));
        }
    }
}

/// Walking down the stack finds the base that is determined for a commit where the platform
/// could be asked; what was asked of the repository does not matter then.
pub proof fn law_walk_determines(
    user: Seq<char>,
    p: Seq<PatchView>,
    open: Seq<(Seq<char>, u32)>,
    answers: Seq<bool>,
    base: Seq<char>,
    n: int,
    k: int,
)
    ensures
        base_search(user, p, open, true, seq![], plain_base(base), n, k) == base_search(
            user,
            p,
            open,
            true,
            answers,
            plain_base(base),
            n,
            k,
        ),
    decreases n,
{
    if n > 0 {
        law_walk_determines(user, p, open, answers, base, n - 1, k + 1);
    }
}

/// Where the branches of all commits below are known, the search among them finds what
/// walking down the stack finds.
pub proof fn law_known_branches(
    user: Seq<char>,
    p: Seq<PatchView>,
    branches: Seq<Seq<char>>,
    open: Seq<(Seq<char>, u32)>,
    base_branch: Seq<char>,
    n: int,
    k: int,
)
    requires
        forall|i: int| 0 <= i < n ==> #[trigger] nameable(p, i),
        forall|i: int|
            0 <= i < n ==> #[trigger] branches[i] == branch::branch_of(user, p[i].subject),
    ensures
        base_search(user, p, open, true, seq![], base_branch, n, k) == BaseSearchView::Done(
            base_choice(p, branches, open, base_branch, n),
        ),
    decreases n,
{
    if n > 0 {
        assert(branches[n - 1] == branch::branch_of(user, p[n - 1].subject));
        assert(nameable(p, n - 1));
        law_known_branches(user, p, branches, open, base_branch, n - 1, k + 1);
    }
}

/// The lowest commit is always reviewed against the stack's base.
pub proof fn law_lowest_on_base(
    user: Seq<char>,
    p: Seq<PatchView>,
    open: Seq<(Seq<char>, u32)>,
    available: bool,
    answers: Seq<bool>,
    base_branch: Seq<char>,
)
    ensures
        base_search(user, p, open, available, answers, base_branch, 0, 0) == BaseSearchView::Done(
            BaseChoiceView { base: base_branch, commands: seq![] },
        ),
{
}

/// An empty list of open reviews makes no branch stale.
pub proof fn law_empty_list_spares(local: Seq<Seq<char>>, available: bool, in_base: Seq<bool>)
    requires
        in_base.len() == local.len(),
        forall|i: int| 0 <= i < in_base.len() ==> !#[trigger] in_base[i],
    ensures
        stale_branches(local, seq![], available, in_base) == Seq::<Seq<char>>::empty(),
    decreases local.len(),
{
    if local.len() > 0 {
        let n = (local.len() - 1) as int;
        assert(!in_base[n]);
        lemma_stale_prefix(local.drop_last(), seq![], available, in_base, in_base.take(n));
        law_empty_list_spares(local.drop_last(), available, in_base.take(n));
    }
}

/// Which branches are stale rests on their own marks alone.
proof fn lemma_stale_prefix(
    local: Seq<Seq<char>>,
    open: Seq<(Seq<char>, u32)>,
    available: bool,
    a: Seq<bool>,
    b: Seq<bool>,
)
    requires
        forall|i: int| 0 <= i < local.len() ==> a[i] == b[i],
    ensures
        stale_branches(local, open, available, a) == stale_branches(local, open, available, b),
    decreases local.len(),
{
    if local.len() > 0 {
        lemma_stale_prefix(local.drop_last(), open, available, a, b);
    }
}

/// An explicit base settles the search: neither the platform nor the usual branches
/// are asked.
pub proof fn law_explicit_base_first(
    configured: Seq<char>,
    valid: Option<bool>,
    hint: Option<Option<Seq<char>>>,
    detected: Option<Result<Seq<char>, Seq<char>>>,
)
    requires
        chars::trim(configured).len() > 0,
    ensures
        match base_step(Some(configured), valid, hint, detected) {
            BaseStepView::Check(b) => b == chars::trim(configured) && valid is None,
            BaseStepView::Done(Ok(b)) => b == chars::trim(configured) && valid == Some(true),
            BaseStepView::Done(Err(e)) => valid == Some(false),
            _ => false,
        },
{
}

} // verus!
