//! What the configuration, the versions of the tools and the clock come to.
use vstd::prelude::*;

use crate::config;
use crate::config::{ConfigView, SetupView};
use crate::forge::pr_description;
use crate::git::branch;
use crate::history;
use crate::text::chars;
use crate::text::number;

verus! {

/// The setup asks for the platform until it is one of five, for the command only where the
/// platform is one of the user's own, and for the base last: an empty answer takes the one that
/// was detected.
pub proof fn law_setup(
    answer: Seq<char>,
    detected: Option<Seq<char>>,
    forge: Seq<char>,
    command: Option<Seq<char>>,
)
    ensures
        ({
            let a = chars::trim(answer);
            let next = config::setup_next(SetupView::Forge, answer, detected);
            &&& a == "1"@ ==> next == SetupView::Base { forge_type: "github"@, submit_cmd: None }
            &&& a == "2"@ ==> next == SetupView::Base { forge_type: "gitlab"@, submit_cmd: None }
            &&& a == "3"@ ==> next == SetupView::Base { forge_type: "gitea"@, submit_cmd: None }
            &&& a == "4"@ ==> next == SetupView::Base {
                forge_type: "phabricator"@,
                submit_cmd: None,
            }
            &&& a == "5"@ ==> next is Command
            &&& a != "1"@ && a != "2"@ && a != "3"@ && a != "4"@ && a != "5"@ ==> next is Forge
            &&& a.len() > 0 ==> config::setup_next(SetupView::Command, answer, detected)
                == SetupView::Base { forge_type: "custom"@, submit_cmd: Some(a) }
            &&& a.len() == 0 ==> config::setup_next(SetupView::Command, answer, detected)
                == SetupView::Base { forge_type: "custom"@, submit_cmd: None }
            &&& config::setup_next(
                SetupView::Base { forge_type: forge, submit_cmd: command },
                answer,
                detected,
            ) == SetupView::Done(
                ConfigView {
                    forge_type: forge,
                    submit_cmd: command,
                    base: if a.len() > 0 {
                        Some(a)
                    } else {
                        detected
                    },
                    pr_description_template: None,
                },
            )
        }),
{
    lemma_forges();
}

proof fn lemma_forges()
    ensures
        "github"@ != "custom"@,
        "gitlab"@ != "custom"@,
        "gitea"@ != "custom"@,
        "phabricator"@ != "custom"@,
        "1"@ != "2"@,
        "1"@ != "3"@,
        "1"@ != "4"@,
        "1"@ != "5"@,
        "2"@ != "3"@,
        "2"@ != "4"@,
        "2"@ != "5"@,
        "3"@ != "4"@,
        "3"@ != "5"@,
        "4"@ != "5"@,
{
    reveal_strlit("github");
    reveal_strlit("gitlab");
    reveal_strlit("gitea");
    reveal_strlit("phabricator");
    reveal_strlit("custom");
    reveal_strlit("1");
    reveal_strlit("2");
    reveal_strlit("3");
    reveal_strlit("4");
    reveal_strlit("5");
    assert("github"@[0] == 'g' && "gitlab"@[0] == 'g' && "gitea"@[0] == 'g' && "phabricator"@[0]
        == 'p' && "custom"@[0] == 'c');
    assert("1"@[0] == '1' && "2"@[0] == '2' && "3"@[0] == '3' && "4"@[0] == '4' && "5"@[0] == '5');
}

/// A version is older if its first number is lower, or if that is the same and its second is;
/// what is no version is not older than anything.
pub proof fn law_older(v: Seq<char>, a: u32, b: u32, major: u32, minor: u32)
    ensures
        config::version_of(v) == Some((a, b)) ==> (config::is_older(v, major, minor) <==> a < major
            || (a == major && b < minor)),
        config::version_of(v) is None ==> !config::is_older(v, major, minor),
{
}

/// Where git and the platform's tool are there and new enough, nothing is reported; a missing
/// git is reported whatever the platform is, and a missing tool by its name.
pub proof fn law_report(forge: Seq<char>, git: Seq<char>, tool: Option<Seq<char>>)
    ensures
        config::dependency_report(forge, None, tool).len() > 0,
        config::tool_of(forge) is None && !config::is_older(git, 2, 26)
            ==> config::dependency_report(forge, Some(git), tool).len() == 0,
        config::tool_of(forge) is None && config::is_older(git, 2, 26)
            ==> config::dependency_report(forge, Some(git), tool).len() == 1,
        config::dependency_report("github"@, Some(git), None).len() > 0,
        config::dependency_report("gitlab"@, Some(git), None).len() > 0,
        config::dependency_report("gitea"@, Some(git), None).len() > 0,
        config::dependency_report("phabricator"@, Some(git), None).len() > 0,
        config::tool_of("github"@) matches Some(t) && t.name == "gh"@,
        config::tool_of("gitlab"@) matches Some(t) && t.name == "glab"@,
        config::tool_of("gitea"@) matches Some(t) && t.name == "tea"@,
        config::tool_of("phabricator"@) matches Some(t) && t.name == "arc"@,
{
    reveal_strlit("github");
    reveal_strlit("gitlab");
    reveal_strlit("gitea");
    reveal_strlit("phabricator");
    assert("github"@[3] == 'h' && "gitlab"@[3] == 'l' && "gitea"@[3] == 'e' && "phabricator"@[3]
        == 'b');
}

/// A path that begins at the root stands for itself, and another is found under the directory,
/// with one slash between them.
pub proof fn law_path(root: Seq<char>, rel: Seq<char>)
    ensures
        rel.len() > 0 && rel[0] == '/' ==> config::path_under(root, rel) == rel,
        (rel.len() == 0 || rel[0] != '/') && root.len() > 0 && root.last() != '/'
            ==> config::path_under(root, rel) == root + seq!['/'] + rel,
        (rel.len() == 0 || rel[0] != '/') && root.len() > 0 && root.last() == '/'
            ==> config::path_under(root, rel) == root + rel,
{
    reveal_strlit("/");
    assert("/"@ =~= seq!['/']);
}

/// The clock shows the hour, the minute and the second of the day.
pub proof fn law_clock(day: int, hour: int, minute: int, second: int)
    requires
        0 <= hour < 24,
        0 <= minute < 60,
        0 <= second < 60,
    ensures
        history::clock(day * 86400 + hour * 3600 + minute * 60 + second) == number::dec2(
            hour as nat,
        ) + seq![':'] + number::dec2(minute as nat) + seq![':'] + number::dec2(second as nat),
{
    reveal_strlit(":");
    assert(":"@ =~= seq![':']);
    let secs = day * 86400 + hour * 3600 + minute * 60 + second;
    let t = hour * 3600 + minute * 60 + second;
    assert(secs % 86400 == t);
    assert(t / 3600 == hour);
    assert(t % 3600 / 60 == minute);
    assert(t % 60 == second);
}

/// The name in branches is the configured one if it says anything, else that of the system's
/// user, under one variable or the other, else a fixed word.
pub proof fn law_user_name(
    configured: Seq<char>,
    user: Seq<char>,
    username: Option<Seq<char>>,
    other: Seq<char>,
)
    ensures
        chars::trim(configured).len() > 0 ==> branch::known_name(
            Some(configured),
            Some(user),
            username,
        ) == chars::trim(configured),
        chars::trim(configured).len() == 0 ==> branch::known_name(
            Some(configured),
            Some(user),
            username,
        ) == user,
        branch::known_name(None, Some(user), username) == user,
        branch::known_name(None, None, Some(other)) == other,
        branch::known_name(None, None, None) == "user"@,
{
}

/// A command given for one run makes the platform one of the user's own for that run; an empty
/// one, or none, leaves the configuration as it is.
pub proof fn law_commanded(c: ConfigView, text: Seq<char>)
    ensures
        ({
            let d = config::commanded(c, Some(text));
            &&& chars::trim(text).len() > 0 ==> {
                &&& d.forge_type == "custom"@
                &&& d.submit_cmd == Some(chars::trim(text))
                &&& d.base == c.base
                &&& d.pr_description_template == c.pr_description_template
            }
            &&& chars::trim(text).len() == 0 ==> d == c
            &&& config::commanded(c, None) == c
        }),
{
}

/// The first template that says anything is taken, whatever comes after it.
pub proof fn law_first_filled(contents: Seq<Option<Seq<char>>>, k: int)
    requires
        0 <= k < contents.len(),
        contents[k] is Some,
        chars::trim(contents[k]->0).len() > 0,
        forall|m: int|
            0 <= m < k ==> (#[trigger] contents[m] is None || chars::trim(contents[m]->0).len()
                == 0),
    ensures
        pr_description::first_filled(contents) == contents[k],
    decreases contents.len(),
{
    if k > 0 {
        assert(contents[0] is None || chars::trim(contents[0]->0).len() == 0);
        let rest = contents.drop_first();
        assert forall|m: int| 0 <= m < k - 1 implies (#[trigger] rest[m] is None || chars::trim(
            rest[m]->0,
        ).len() == 0) by {
            assert(rest[m] == contents[m + 1]);
        }
        law_first_filled(rest, k - 1);
    }
}

/// Without a template that says anything there is none.
pub proof fn law_none_filled(contents: Seq<Option<Seq<char>>>)
    requires
        forall|m: int|
            0 <= m < contents.len() ==> (#[trigger] contents[m] is None || chars::trim(
                contents[m]->0,
            ).len() == 0),
    ensures
        pr_description::first_filled(contents) is None,
    decreases contents.len(),
{
    if contents.len() > 0 {
        assert(contents[0] is None || chars::trim(contents[0]->0).len() == 0);
        let rest = contents.drop_first();
        assert forall|m: int| 0 <= m < rest.len() implies (#[trigger] rest[m] is None
            || chars::trim(rest[m]->0).len() == 0) by {
            assert(rest[m] == contents[m + 1]);
        }
        law_none_filled(rest);
    }
}

} // verus!
