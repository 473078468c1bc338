//! How the open reviews are asked for and read, and how git's todo list is edited.
use vstd::prelude::*;

use crate::forge;
use crate::forge::json;
use crate::forge::json::CellView;
use crate::forge::listing;
use crate::forge::machine::{AskView, ReplyView};
use crate::forge::phabricator::message;
use crate::forge::pr_description;
use crate::forge::{gitea, github, gitlab, ForgeKind, ForgeView};
use crate::git::call;
use crate::git::call::{Console, RanView};
use crate::text::chars;
use crate::text::pieces;
use crate::text::search;

verus! {

/// The open reviews of GitHub are asked for with their number, branch and address, and what is
/// asked for is what is read; a command that fails leaves the list unknown.
pub proof fn law_github_list(addresses: bool, out: Seq<char>, err: Seq<char>)
    ensures
        ({
            let (s, ask) = listing::begun(ForgeKind::GitHub, addresses);
            let good = RanView::Ended { success: true, stdout: out, stderr: err };
            let bad = RanView::Ended { success: false, stdout: out, stderr: err };
            let (n, end) = listing::listing_step(s, ReplyView::Ran(good));
            let (m, stop) = listing::listing_step(s, ReplyView::Ran(bad));
            &&& match ask {
                Some(AskView::Run(c)) => {
                    &&& c.program == "gh"@
                    &&& c.args == seq![
                        "pr"@,
                        "list"@,
                        "--state"@,
                        "open"@,
                        "--json"@,
                        "number,headRefName,url"@,
                        "--limit"@,
                        "100"@,
                    ]
                    &&& c.env.len() == 0
                    &&& c.console == Console::Captured
                },
                _ => false,
            }
            &&& end is None
            &&& n.available
            &&& n.reviews == github::open_rows(
                json::column_of(out, seq!["number"@]),
                json::column_of(out, seq!["headRefName"@]),
                json::column_of(out, seq!["url"@]),
                json::column_of(out, seq!["number"@]).len() as int,
            )
            &&& stop is None
            &&& !m.available
            &&& m.reviews.len() == 0
        }),
{
}

/// Those of GitLab are asked for without a pager and without colours, and the remote's address
/// is asked for only if there is a list.
pub proof fn law_gitlab_list(addresses: bool, out: Seq<char>, err: Seq<char>, remote: Seq<char>)
    ensures
        ({
            let (s, ask) = listing::begun(ForgeKind::GitLab, addresses);
            let good = RanView::Ended { success: true, stdout: out, stderr: err };
            let bad = RanView::Ended { success: false, stdout: out, stderr: err };
            let (n, next) = listing::listing_step(s, ReplyView::Ran(good));
            let (o, end) = listing::listing_step(n, ReplyView::Answer(Ok(remote)));
            let (m, stop) = listing::listing_step(s, ReplyView::Ran(bad));
            &&& match ask {
                Some(AskView::Run(c)) => {
                    &&& c.program == "glab"@
                    &&& c.args == seq!["mr"@, "list"@, "-P"@, "100"@]
                    &&& c.env.len() == 3
                    &&& c.env[0] == ("PAGER"@, "cat"@)
                    &&& c.env[1] == ("GLAB_PAGER"@, Seq::<char>::empty())
                    &&& c.env[2] == ("NO_COLOR"@, "1"@)
                    &&& c.console == Console::Captured
                },
                _ => false,
            }
            &&& next == Some(AskView::Git(seq!["remote"@, "get-url"@, "origin"@]))
            &&& end is None
            &&& o.available
            &&& o.reviews == gitlab::listed(pieces::lines(out), gitlab::project_url(remote))
            &&& stop is None
            &&& !m.available
            &&& m.reviews.len() == 0
        }),
{
}

/// Those of Gitea are asked for in the repository that the remote's address names.
pub proof fn law_gitea_list(remote: Seq<char>, slug: Seq<char>, out: Seq<char>, err: Seq<char>)
    requires
        gitea::slug_of(remote) == Some(slug),
    ensures
        ({
            let (s, ask) = listing::begun(ForgeKind::Gitea, false);
            let (n, next) = listing::listing_step(s, ReplyView::Answer(Ok(remote)));
            let bad = RanView::Ended { success: false, stdout: out, stderr: err };
            let (m, stop) = listing::listing_step(n, ReplyView::Ran(bad));
            &&& ask == Some(AskView::Git(seq!["remote"@, "get-url"@, "origin"@]))
            &&& match next {
                Some(AskView::Run(c)) => {
                    &&& c.program == "tea"@
                    &&& c.args == seq![
                        "pr"@,
                        "list"@,
                        "--repo"@,
                        slug,
                        "--output"@,
                        "json"@,
                        "--fields"@,
                        "index,head,state"@,
                    ]
                    &&& c.env.len() == 0
                    &&& c.console == Console::Captured
                },
                _ => false,
            }
            &&& stop is None
            &&& !m.available
            &&& m.reviews.len() == 0
        }),
{
}

/// Whether a word, without brackets around it, is a branch of this program.
pub open spec fn is_branch(word: Seq<char>) -> bool {
    "pgit/"@.is_prefix_of(chars::trim_set(word, chars::CharSet::Brackets))
}

/// The branch that a line of GitLab's list is about: with an arrow, the first branch behind it;
/// without one, the last of the line.
pub proof fn law_gitlab_source(line: Seq<char>, k: int)
    ensures
        match search::find(line, "←"@) {
            Some(at) => {
                let words = pieces::words(line.skip(at));
                0 <= k < words.len() && is_branch(words[k]) && (forall|m: int|
                    0 <= m < k ==> !is_branch(#[trigger] words[m])) ==> gitlab::source_of(line)
                    == Some(chars::trim_set(words[k], chars::CharSet::Brackets))
            },
            None => {
                let words = pieces::words(line);
                0 <= k < words.len() && is_branch(words[k]) && (forall|m: int|
                    k < m < words.len() ==> !is_branch(#[trigger] words[m])) ==> gitlab::source_of(
                    line,
                ) == Some(chars::trim_set(words[k], chars::CharSet::Brackets))
            },
        },
{
    match search::find(line, "←"@) {
        Some(at) => {
            lemma_first_branch(pieces::words(line.skip(at)), k);
        },
        None => {
            lemma_last_branch(pieces::words(line), k);
        },
    }
}

proof fn lemma_first_branch(words: Seq<Seq<char>>, k: int)
    ensures
        0 <= k < words.len() && is_branch(words[k]) && (forall|m: int|
            0 <= m < k ==> !is_branch(#[trigger] words[m])) ==> gitlab::first_branch(words) == Some(
            chars::trim_set(words[k], chars::CharSet::Brackets),
        ),
    decreases words.len(),
{
    if 0 <= k < words.len() && is_branch(words[k]) && (forall|m: int|
        0 <= m < k ==> !is_branch(#[trigger] words[m])) {
        if k > 0 {
            assert(!is_branch(words[0]));
            let rest = words.drop_first();
            assert(rest[k - 1] == words[k]);
            assert forall|m: int| 0 <= m < k - 1 implies !is_branch(#[trigger] rest[m]) by {
                assert(rest[m] == words[m + 1]);
            }
            lemma_first_branch(rest, k - 1);
        }
    }
}

proof fn lemma_last_branch(words: Seq<Seq<char>>, k: int)
    ensures
        0 <= k < words.len() && is_branch(words[k]) && (forall|m: int|
            k < m < words.len() ==> !is_branch(#[trigger] words[m])) ==> gitlab::last_branch(words)
            == Some(chars::trim_set(words[k], chars::CharSet::Brackets)),
    decreases words.len(),
{
    if 0 <= k < words.len() && is_branch(words[k]) && (forall|m: int|
        k < m < words.len() ==> !is_branch(#[trigger] words[m])) {
        let most = words.drop_last();
        if k < most.len() {
            assert(!is_branch(words[words.len() - 1]));
            assert(most[k] == words[k]);
            assert forall|m: int| k < m < most.len() implies !is_branch(#[trigger] most[m]) by {
                assert(most[m] == words[m]);
            }
            lemma_last_branch(most, k);
        }
    }
}

/// Of several logins to Gitea, the first default one with an address counts.
pub proof fn law_gitea_login(
    defaults: Seq<CellView>,
    urls: Seq<CellView>,
    i: int,
    k: int,
    u: Seq<char>,
)
    requires
        0 <= i <= k < urls.len(),
        k < defaults.len(),
        defaults[k] == CellView::Flag(true),
        urls[k] == CellView::Text(u),
        forall|m: int|
            i <= m < k ==> json::cell_at(defaults, m) != CellView::Flag(true) || !(#[trigger] urls[m]
                is Text),
    ensures
        gitea::login_url(defaults, urls, i) == Some(u),
    decreases k - i,
{
    if i < k {
        let x = urls[i];
        assert(json::cell_at(defaults, i) != CellView::Flag(true) || !(urls[i] is Text));
        law_gitea_login(defaults, urls, i + 1, k, u);
    }
}

/// Of the templates of a repository the default one comes first, and the others keep their
/// order.
pub proof fn law_default_first(names: Seq<Seq<char>>, k: int)
    requires
        0 <= k < names.len(),
        pr_description::is_default(names[k]),
        forall|m: int| 0 <= m < k ==> !pr_description::is_default(#[trigger] names[m]),
    ensures
        pr_description::default_first(names) == seq![names[k]] + names.take(k) + names.skip(k + 1),
{
    lemma_default_at(names, k);
    assert(names.remove(k) =~= names.take(k) + names.skip(k + 1));
    assert(seq![names[k]] + (names.take(k) + names.skip(k + 1)) =~= seq![names[k]] + names.take(k)
        + names.skip(k + 1));
}

proof fn lemma_default_at(names: Seq<Seq<char>>, k: int)
    requires
        0 <= k < names.len(),
        pr_description::is_default(names[k]),
        forall|m: int| 0 <= m < k ==> !pr_description::is_default(#[trigger] names[m]),
    ensures
        pr_description::default_at(names) == Some(k),
    decreases names.len(),
{
    if k > 0 {
        assert(!pr_description::is_default(names[0]));
        let rest = names.drop_first();
        assert forall|m: int| 0 <= m < k - 1 implies !pr_description::is_default(
            #[trigger] rest[m],
        ) by {
            assert(rest[m] == names[m + 1]);
        }
        lemma_default_at(rest, k - 1);
    }
}

/// Each name of a platform in the configuration means that platform; a command of the user's
/// is handed on, and is empty where there is none.
pub proof fn law_platform_named(command: Seq<char>)
    ensures
        forge::configured_forge("github"@, Some(command)) is GitHub,
        forge::configured_forge("gitlab"@, Some(command)) is GitLab,
        forge::configured_forge("gitea"@, Some(command)) is Gitea,
        forge::configured_forge("phabricator"@, Some(command)) is Phabricator,
        forge::configured_forge("custom"@, Some(command)) == ForgeView::Custom(command),
        forge::configured_forge("custom"@, None) == ForgeView::Custom(Seq::empty()),
{
    reveal_strlit("github");
    reveal_strlit("gitlab");
    reveal_strlit("gitea");
    reveal_strlit("phabricator");
    reveal_strlit("custom");
    assert("github"@[3] == 'h' && "gitlab"@[3] == 'l' && "gitea"@[3] == 'e' && "phabricator"@[3]
        == 'b' && "custom"@[3] == 't');
}

/// A description is written for the reviews of GitHub, GitLab and Gitea alone.
pub proof fn law_described(command: Seq<char>)
    ensures
        ForgeView::GitHub.needs_description(),
        ForgeView::GitLab.needs_description(),
        ForgeView::Gitea.needs_description(),
        !ForgeView::Phabricator.needs_description(),
        !ForgeView::Custom(command).needs_description(),
{
}

/// A commit of git's todo list is marked by a rule whose pattern is its line as git writes it
/// and whose replacement differs from it in the first word alone.
pub proof fn law_marks(verb: Seq<char>, abbr: Seq<char>)
    ensures
        ({
            let rule = call::mark_rule(verb, abbr);
            let line = "pick "@ + abbr;
            let other = verb + " "@ + abbr;
            rule == seq!['s', '/', '^'] + line + seq!['/'] + other + seq!['/']
        }),
{
    reveal_strlit("s/^pick ");
    reveal_strlit("pick ");
    reveal_strlit("/");
    let line = "pick "@ + abbr;
    let other = verb + " "@ + abbr;
    assert(call::mark_rule(verb, abbr) =~= seq!['s', '/', '^'] + line + seq!['/'] + other + seq![
        '/',
    ]);
}

/// The editor runs the rule in place, with the flags that the system's `sed` takes.
pub proof fn law_edits_in_place(verb: Seq<char>, abbr: Seq<char>, sed: Seq<char>)
    ensures
        call::mark_editor(sed, verb, abbr) == sed + seq![' ', '\''] + call::mark_rule(verb, abbr)
            + seq!['\''],
        call::sed_prefix("macos"@) == "sed -i ''"@,
        call::sed_prefix("linux"@) == "sed -i"@,
        call::pausing("linux"@) == "sed -i"@ + " 's/^pick /edit /'"@,
{
    reveal_strlit(" '");
    reveal_strlit("'");
    assert(" '"@ =~= seq![' ', '\'']);
    assert("'"@ =~= seq!['\'']);
    reveal_strlit("linux");
    reveal_strlit("macos");
    reveal_strlit("freebsd");
    reveal_strlit("openbsd");
    reveal_strlit("netbsd");
    reveal_strlit("dragonfly");
    assert("linux"@[0] == 'l' && "macos"@[0] == 'm' && "freebsd"@[0] == 'f' && "openbsd"@[0] == 'o'
        && "netbsd"@[0] == 'n' && "dragonfly"@[0] == 'd');
}

/// The todo list of a rebase onto a base is edited by what git is told to use for it.
pub proof fn law_interactive(base: Seq<char>, editor: Seq<char>)
    ensures
        ({
            let c = call::interactive(base, editor);
            &&& c.program == "git"@
            &&& c.args == seq!["rebase"@, "-i"@, base]
            &&& c.env == seq![("GIT_SEQUENCE_EDITOR"@, editor)]
            &&& c.console == Console::Captured
        }),
{
}

/// What git wrote is the answer where it succeeded; where it failed, the failure names the
/// command and what git said.
pub proof fn law_git_answers(args: Seq<Seq<char>>, out: Seq<char>, err: Seq<char>, why: Seq<char>)
    ensures
        call::git_answer(args, RanView::Ended { success: true, stdout: out, stderr: err })
            == Ok::<Seq<char>, Seq<char>>(out),
        call::git_answer(args, RanView::Ended { success: false, stdout: out, stderr: err })
            == Err::<Seq<char>, Seq<char>>(
            "git "@ + pieces::join(args, " "@) + " failed: "@ + err,
        ),
        call::git_answer(args, RanView::Lost(why)) == Err::<Seq<char>, Seq<char>>(why),
{
}

/// A rebase is complete if git succeeded and none is in progress any more. It has stopped if
/// one is in progress or git speaks of a conflict, and otherwise it has failed.
pub proof fn law_rebase_answers(
    what: Seq<char>,
    success: bool,
    out: Seq<char>,
    err: Seq<char>,
    going: bool,
)
    ensures
        ({
            let ran = RanView::Ended { success, stdout: out, stderr: err };
            let r = call::rebase_answer(what, ran, going);
            let clash = search::contains(err, "CONFLICT"@) || search::contains(
                err,
                "could not apply"@,
            );
            &&& r == Ok::<bool, Seq<char>>(true) <==> success && !going
            &&& r == Ok::<bool, Seq<char>>(false) <==> going || (!success && clash)
            &&& !success && !going && !clash ==> r == Err::<bool, Seq<char>>(
                what + " failed: "@ + err,
            )
            &&& call::pause_answer(ran, going) == Ok::<bool, Seq<char>>(!going)
        }),
{
}

/// A commit that is found in a log is one whose line begins with its hash, and the hash is the
/// start of that line.
pub proof fn law_commit_found(
    lines: Seq<Seq<char>>,
    commit: Option<(Seq<char>, Seq<char>)>,
    id: u32,
    hash: Seq<char>,
)
    requires
        message::commit_of(lines, commit, id) == Some(hash),
    ensures
        (commit is Some && hash == commit.unwrap().0) || exists|i: int|
            0 <= i < lines.len() && message::begins_commit(#[trigger] lines[i]) && hash
                == lines[i].take(40),
    decreases lines.len(),
{
    if lines.len() > 0 {
        let rest = lines.drop_first();
        if message::begins_commit(lines[0]) {
            if !message::belongs(commit, id) {
                let next = Some(
                    (lines[0].take(40), chars::trim(lines[0].skip(40)) + "\n"@),
                );
                law_commit_found(rest, next, id, hash);
                if hash != lines[0].take(40) {
                    let i = choose|i: int|
                        0 <= i < rest.len() && message::begins_commit(#[trigger] rest[i]) && hash
                            == rest[i].take(40);
                    assert(lines[i + 1] == rest[i]);
                }
            }
        } else {
            let next = match commit {
                Some(c) => Some((c.0, c.1 + lines[0] + "\n"@)),
                None => None,
            };
            law_commit_found(rest, next, id, hash);
            if !(next is Some && hash == next.unwrap().0) {
                let i = choose|i: int|
                    0 <= i < rest.len() && message::begins_commit(#[trigger] rest[i]) && hash
                        == rest[i].take(40);
                assert(lines[i + 1] == rest[i]);
            }
        }
    }
}

} // verus!
