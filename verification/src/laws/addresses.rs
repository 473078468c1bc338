//! What is read off the address of the remote, and what is told of reviews.
use vstd::prelude::*;

use crate::forge::json;
use crate::forge::review;
use crate::forge::{gitea, github, gitlab};
use crate::git::call::RanView;
use crate::git::ops;
use crate::stack::PatchView;
use crate::text::bytes;
use crate::text::chars;
use crate::text::lines;
use crate::text::number;
use crate::text::search;
use crate::tui::app;

verus! {

/// Where a character first stands in a text.
proof fn lemma_first(a: Seq<char>, c: char, b: Seq<char>)
    requires
        forall|i: int| 0 <= i < a.len() ==> #[trigger] a[i] != c,
    ensures
        search::find(a + seq![c] + b, seq![c]) == Some(a.len() as int),
    decreases a.len(),
{
    let s = a + seq![c] + b;
    if a.len() == 0 {
        assert(s.subrange(0, 1) =~= seq![c]);
        assert(seq![c].is_prefix_of(s));
    } else {
        let t = a.drop_first();
        assert forall|i: int| 0 <= i < t.len() implies #[trigger] t[i] != c by {
            assert(t[i] == a[i + 1]);
        }
        lemma_first(t, c, b);
        assert(s.drop_first() =~= t + seq![c] + b);
        if seq![c].is_prefix_of(s) {
            assert(s.subrange(0, 1)[0] == c);
            assert(a[0] == c);
        }
    }
}

/// The address of a GitLab project whose remote is reached over ssh: the host and the path,
/// over https and without the ending.
pub proof fn law_gitlab_project(host: Seq<char>, path: Seq<char>)
    requires
        forall|i: int| 0 <= i < host.len() ==> #[trigger] host[i] != ':',
    ensures
        gitlab::project_url("git@"@ + host + ":"@ + path + ".git"@) == Some(
            "https://"@ + host + "/"@ + path,
        ),
{
    reveal_strlit("git@");
    reveal_strlit(":");
    reveal_strlit(".git");
    let remote = "git@"@ + host + ":"@ + path + ".git"@;
    let rest = host + seq![':'] + (path + ".git"@);
    assert(":"@ =~= seq![':']);
    assert(remote =~= "git@"@ + rest);
    assert(remote[0] == 'g');
    assert(remote.last() == 't');
    lines::lemma_trim_same(remote);
    assert(remote.subrange(0, 4) =~= "git@"@);
    assert("git@"@.is_prefix_of(remote));
    assert(remote.skip(4) =~= rest);
    lemma_first(host, ':', path + ".git"@);
    assert(rest.take(host.len() as int) =~= host);
    let tail = rest.skip(host.len() as int + 1);
    assert(tail =~= path + ".git"@);
    assert(".git"@.is_suffix_of(tail)) by {
        assert(tail.subrange(tail.len() - 4, tail.len() as int) =~= ".git"@);
    }
    assert(tail.take(tail.len() - 4) =~= path);
}

/// The repository that a Gitea remote over ssh names.
pub proof fn law_gitea_slug(host: Seq<char>, owner: Seq<char>, name: Seq<char>)
    requires
        forall|i: int| 0 <= i < host.len() ==> #[trigger] host[i] != ':',
        !".git"@.is_suffix_of(owner + "/"@ + name),
    ensures
        gitea::slug_of("git@"@ + host + ":"@ + owner + "/"@ + name + ".git"@) == Some(
            owner + "/"@ + name,
        ),
{
    reveal_strlit("git@");
    reveal_strlit(":");
    reveal_strlit("/");
    reveal_strlit(".git");
    reveal_strlit("ssh://");
    reveal_strlit("http");
    let slug = owner + "/"@ + name;
    let remote = "git@"@ + host + ":"@ + owner + "/"@ + name + ".git"@;
    let front = "git@"@ + host;
    assert(":"@ =~= seq![':']);
    assert(remote =~= front + seq![':'] + (slug + ".git"@));
    assert(remote[0] == 'g');
    assert(remote.last() == 't');
    lines::lemma_trim_same(remote);
    assert forall|i: int| 0 <= i < front.len() implies #[trigger] front[i] != ':' by {
        if i >= 4 {
            assert(front[i] == host[i - 4]);
        }
    }
    lemma_first(front, ':', slug + ".git"@);
    if "ssh://"@.is_prefix_of(remote) {
        assert(remote.subrange(0, 6)[0] == 's');
    }
    if "http"@.is_prefix_of(remote) {
        assert(remote.subrange(0, 4)[0] == 'h');
    }
    let path = remote.skip(front.len() as int + 1);
    assert(path =~= slug + ".git"@);
    assert(".git"@.is_suffix_of(path)) by {
        assert(path.subrange(path.len() - 4, path.len() as int) =~= ".git"@);
    }
    assert(path.take(path.len() - 4) =~= slug);
    assert(search::without_suffixes(path, ".git"@) == slug) by {
        reveal_with_fuel(search::without_suffixes, 2);
    }
    let at = owner.len() as int;
    assert(slug.subrange(at, at + 1) =~= "/"@);
    search::lemma_contains(slug, "/"@);
}

/// What is told of a review that was synced begins with a mark that says whether it worked, and
/// names the branch and then the base.
pub proof fn law_update_told(branch: Seq<char>, base: Seq<char>)
    ensures
        review::update_line(true, branch, base) =~= "✓"@ + " "@ + branch + " → "@ + base,
        review::update_line(false, branch, base) =~= "⚠"@ + " "@ + branch + " → "@ + base,
{
}

/// What is told of a review that Gitea made: its address where the tool wrote one, else the
/// list of the repository's reviews, else the branch.
pub proof fn law_gitea_told(
    out: Seq<char>,
    err: Seq<char>,
    branch: Seq<char>,
    slug: Seq<char>,
    server: Seq<char>,
    why: Seq<char>,
)
    ensures
        ({
            let good = RanView::Ended { success: true, stdout: out, stderr: err };
            let bad = RanView::Ended { success: false, stdout: out, stderr: err };
            &&& chars::trim(out).len() > 0 ==> gitea::created(good, branch, slug, Some(server))
                == Ok::<Seq<char>, Seq<char>>("PR created: "@ + chars::trim(out))
            &&& chars::trim(out).len() == 0 ==> gitea::created(good, branch, slug, Some(server))
                == Ok::<Seq<char>, Seq<char>>(
                "PR created: "@ + server + "/"@ + slug + "/pulls"@,
            )
            &&& chars::trim(out).len() == 0 ==> gitea::created(good, branch, slug, None) == Ok::<
                Seq<char>,
                Seq<char>,
            >("PR created: "@ + branch)
            &&& gitea::created(bad, branch, slug, Some(server)) == Err::<Seq<char>, Seq<char>>(
                "tea pr create failed: "@ + err,
            )
            &&& gitea::created(RanView::Lost(why), branch, slug, Some(server)) == Err::<
                Seq<char>,
                Seq<char>,
            >("tea not found: "@ + why)
        }),
{
}

/// The address of a review on Gitea: the server, the repository and the number.
pub proof fn law_gitea_addressed(
    open: Seq<(Seq<char>, u32)>,
    server: Seq<char>,
    slug: Seq<char>,
    i: int,
)
    requires
        0 <= i < open.len(),
    ensures
        ({
            let all = gitea::addressed(open, Some(server), Some(slug));
            &&& all.len() == open.len()
            &&& all[i].0 == open[i].0
            &&& all[i].1.number == open[i].1
            &&& all[i].1.url == Some(
                server + "/"@ + slug + "/pulls/"@ + number::dec(open[i].1 as nat),
            )
            &&& gitea::addressed(open, None, None)[i].1.url is None
        }),
{
}

/// The number of a review that GitHub tells is what it wrote, without white space; a command
/// that failed or wrote nothing tells none.
pub proof fn law_github_number(out: Seq<char>, err: Seq<char>)
    ensures
        chars::trim(out).len() > 0 ==> github::told_number(
            RanView::Ended { success: true, stdout: out, stderr: err },
        ) == Some(chars::trim(out)),
        chars::trim(out).len() == 0 ==> github::told_number(
            RanView::Ended { success: true, stdout: out, stderr: err },
        ) is None,
        github::told_number(RanView::Ended { success: false, stdout: out, stderr: err }) is None,
{
}

/// The base of a stack without the name of the remote.
pub proof fn law_plain_base(name: Seq<char>)
    ensures
        ops::plain_base("origin/"@ + name) == name,
        !"origin/"@.is_prefix_of(name) ==> ops::plain_base(name) == name,
{
    let full = "origin/"@ + name;
    let n = "origin/"@.len() as int;
    assert(full.subrange(0, n) =~= "origin/"@);
    assert("origin/"@.is_prefix_of(full));
    assert(full.skip(n) =~= name);
}

/// A commit is named in the history by its short hash and its subject, which is cut where it is
/// long.
pub proof fn law_description(e: PatchView)
    ensures
        bytes::byte_len(e.subject) <= 30 ==> app::description(e) == bytes::cut(e.hash, 7) + " "@
            + e.subject,
        bytes::byte_len(e.subject) > 30 ==> app::description(e) =~= bytes::cut(e.hash, 7) + " "@
            + bytes::cut(e.subject, 27) + "..."@,
{
}

/// The server of Gitea is the one that is logged in to, without a slash at its end, where the
/// tool names one; otherwise it is read off the remote's address; and without the tool it is
/// not known.
pub proof fn law_gitea_server(
    out: Seq<char>,
    err: Seq<char>,
    remote: Seq<char>,
    why: Seq<char>,
    u: Seq<char>,
)
    ensures
        ({
            let told = gitea::login_url(
                json::column_of(out, seq!["default"@]),
                json::column_of(out, seq!["url"@]),
                0,
            );
            let good = RanView::Ended { success: true, stdout: out, stderr: err };
            let bad = RanView::Ended { success: false, stdout: out, stderr: err };
            &&& told == Some(u) ==> gitea::server_url(good, Ok(remote)) == Some(
                chars::trim_end_set(u, chars::CharSet::Only('/')),
            )
            &&& told is None ==> gitea::server_url(good, Ok(remote)) == gitea::remote_url(remote)
            &&& gitea::server_url(bad, Ok(remote)) == gitea::remote_url(remote)
            &&& gitea::server_url(bad, Err(why)) is None
            &&& gitea::server_url(RanView::Lost(why), Ok(remote)) is None
        }),
{
}

} // verus!
