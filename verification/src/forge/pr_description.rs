//! Initial text for the PR/MR description editor: config path, forge-specific discovery, then builtin.
use vstd::prelude::*;

use crate::text::args::args;
use crate::text::chars;
use crate::text::chars::{concat3, to_chars, to_lower, trimmed};
use crate::text::order;
use crate::text::order::sort;
use crate::text::search;
use crate::text::search::{ends, occurs, replaced};
use crate::text::views;
use super::sync_state;
use super::ForgeKind;

verus! {

broadcast use views::group_views;

/// Standard GitHub-style template locations (single-file; see GitHub docs for PR templates).
pub open spec fn github_paths() -> Seq<Seq<char>> {
    seq![
        ".github/pull_request_template.md"@,
        ".github/PULL_REQUEST_TEMPLATE.md"@,
        "docs/pull_request_template.md"@,
        "pull_request_template.md"@,
    ]
}

/// Standard GitHub-style template locations (single-file; see GitHub docs for PR templates).
pub fn github_template_paths() -> (r: Vec<String>)
    ensures
        views::strs(r@) == github_paths(),
{
    args(
        &[
            ".github/pull_request_template.md",
            ".github/PULL_REQUEST_TEMPLATE.md",
            "docs/pull_request_template.md",
            "pull_request_template.md",
        ],
    )
}

/// The directory of GitLab's templates.
pub const GITLAB_TEMPLATES: &'static str = ".gitlab/merge_request_templates";

/// Where a platform's conventions put templates.
pub enum TemplateSource {
    /// In one of these files.
    Files(Vec<String>),
    /// In the files of this directory.
    Directory(String),
    /// Nowhere.
    Nowhere,
}

/// Where a platform's conventions put templates: GitHub's and GitLab's do so, the others
/// know none.
pub fn pr_description_draft_hint(kind: ForgeKind) -> (r: TemplateSource)
    ensures
        match (kind, r) {
            (ForgeKind::GitHub, TemplateSource::Files(v)) => views::strs(v@) == github_paths(),
            (ForgeKind::GitHub, _) => false,
            (ForgeKind::GitLab, TemplateSource::Directory(d)) => d@ == GITLAB_TEMPLATES@,
            (ForgeKind::GitLab, _) => false,
            (_, s) => s is Nowhere,
        },
{
    match kind {
        ForgeKind::GitHub => TemplateSource::Files(github_template_paths()),
        ForgeKind::GitLab => TemplateSource::Directory(GITLAB_TEMPLATES.to_owned()),
        _ => TemplateSource::Nowhere,
    }
}

/// The first of the contents that is more than white space.
pub open spec fn first_filled(contents: Seq<Option<Seq<char>>>) -> Option<Seq<char>>
    decreases contents.len(),
{
    if contents.len() == 0 {
        None
    } else {
        match contents[0] {
            Some(s) => if chars::trim(s).len() > 0 {
                Some(s)
            } else {
                first_filled(contents.drop_first())
            },
            None => first_filled(contents.drop_first()),
        }
    }
}

/// First existing non-empty file among those read, in order. `None` stands for a file
/// that could not be read.
pub fn read_first_repo_template(contents: &Vec<Option<String>>) -> (r: Option<String>)
    ensures
        views::opt(r) == first_filled(sync_state::opts(contents@)),
{
    let ghost all = sync_state::opts(contents@);
    let mut i: usize = 0;
    proof {
        assert(all.skip(0) =~= all);
    }
    while i < contents.len()
        invariant
            i <= contents@.len(),
            all == sync_state::opts(contents@),
            first_filled(all) == first_filled(all.skip(i as int)),
        decreases contents.len() - i,
    {
        proof {
            assert(all.skip(i as int)[0] == views::opt(contents@[i as int]));
            assert(all.skip(i as int).drop_first() =~= all.skip(i + 1));
        }
        if let Some(s) = &contents[i] {
            if !trimmed(s.as_str()).as_str().is_empty() {
                return Some(s.clone());
            }
        }
        i += 1;
    }
    None
}

/// Whether a file's name has the extension `md`.
pub open spec fn is_markdown(name: Seq<char>) -> bool {
    ".md"@.is_suffix_of(name) && name.len() > 3
}

/// Whether a file's name is that of the default template, in any case.
pub open spec fn is_default(name: Seq<char>) -> bool {
    name.map_values(|c: char| chars::lower(c)) == "default.md"@
}

/// Where the first default template stands, if there is one.
pub open spec fn default_at(names: Seq<Seq<char>>) -> Option<int>
    decreases names.len(),
{
    if names.len() == 0 {
        None
    } else if is_default(names[0]) {
        Some(0)
    } else {
        match default_at(names.drop_first()) {
            Some(i) => Some(i + 1),
            None => None,
        }
    }
}

/// The names with the first default template in front.
pub open spec fn default_first(names: Seq<Seq<char>>) -> Seq<Seq<char>> {
    match default_at(names) {
        Some(i) => seq![names[i]] + names.remove(i),
        None => names,
    }
}

/// Whether `order` is the order in which templates are tried: the default one first,
/// then the others sorted by name. Files that are no markdown are left out.
pub open spec fn template_order(names: Seq<Seq<char>>, order: Seq<Seq<char>>) -> bool {
    exists|s: Seq<Seq<char>>|
        #![trigger order::sorted(s)]
        order::sorted(s) && s.to_multiset() == names.filter(
            |n: Seq<char>| is_markdown(n),
        ).to_multiset() && order == default_first(s)
}

/// Whether a file's name is that of the default template.
fn names_default(name: &str) -> (r: bool)
    ensures
        r == is_default(name@),
{
    let v = to_chars(name);
    let mut low: Vec<char> = Vec::new();
    let mut i: usize = 0;
    while i < v.len()
        invariant
            i <= v@.len(),
            low@ == v@.take(i as int).map_values(|c: char| chars::lower(c)),
        decreases v.len() - i,
    {
        low.push(to_lower(v[i]));
        proof {
            assert(v@.take(i + 1) =~= v@.take(i as int).push(v@[i as int]));
            assert(low@ =~= v@.take(i + 1).map_values(|c: char| chars::lower(c)));
        }
        i += 1;
    }
    proof {
        assert(v@.take(i as int) =~= v@);
    }
    let text = chars::piece(&low, 0, low.len());
    proof {
        assert(low@.subrange(0, low@.len() as int) =~= low@);
    }
    chars::same(text.as_str(), "default.md")
}

/// Where the first default template stands, if there is one.
fn find_default(names: &Vec<String>) -> (r: Option<usize>)
    ensures
        match r {
            Some(i) => i < names@.len() && default_at(views::strs(names@)) == Some(i as int),
            None => default_at(views::strs(names@)) is None,
        },
{
    let ghost all = views::strs(names@);
    let mut i: usize = 0;
    proof {
        assert(all.skip(0) =~= all);
    }
    while i < names.len()
        invariant
            i <= names@.len(),
            all == views::strs(names@),
            default_at(all) == match default_at(all.skip(i as int)) {
                Some(j) => Some(i + j),
                None => None,
            },
        decreases names.len() - i,
    {
        proof {
            assert(all.skip(i as int)[0] == names@[i as int]@);
            assert(all.skip(i as int).drop_first() =~= all.skip(i + 1));
        }
        if names_default(names[i].as_str()) {
            return Some(i);
        }
        i += 1;
    }
    None
}

/// The order in which GitLab's templates are tried, from the names of the files in their
/// directory.
pub fn gitlab_template_order(names: &Vec<String>) -> (r: Vec<String>)
    ensures
        template_order(views::strs(names@), views::strs(r@)),
{
    let ghost all = views::strs(names@);
    let ghost p = |n: Seq<char>| is_markdown(n);
    let mut files: Vec<String> = Vec::new();
    let mut i: usize = 0;
    proof {
        assert(all.take(0) =~= Seq::<Seq<char>>::empty());
        crate::text::pieces::lemma_filter_empty(p);
    }
    while i < names.len()
        invariant
            i <= names@.len(),
            all == views::strs(names@),
            p == (|n: Seq<char>| is_markdown(n)),
            views::strs(files@) == all.take(i as int).filter(p),
        decreases names.len() - i,
    {
        proof {
            assert(all.take(i + 1) =~= all.take(i as int).push(all[i as int]));
            crate::text::pieces::lemma_filter_push(all.take(i as int), all[i as int], p);
            assert(all[i as int] == names@[i as int]@);
        }
        let n = to_chars(names[i].as_str());
        if ends(names[i].as_str(), ".md") && n.len() > 3 {
            files.push(names[i].clone());
        }
        i += 1;
    }
    proof {
        assert(all.take(i as int) =~= all);
    }
    let mut files = sort(files);
    let ghost s = views::strs(files@);
    proof {
        assert(order::sorted(s));
    }
    match find_default(&files) {
        Some(k) => {
            let first = files.remove(k);
            files.insert(0, first);
            proof {
                assert(views::strs(files@) =~= seq![s[k as int]] + s.remove(k as int));
            }
        },
        None => {},
    }
    files
}

/// The template with the subject in its place.
pub open spec fn with_subject(template: Seq<char>, subject: Seq<char>) -> Seq<char> {
    if search::contains(template, "{{subject}}"@) {
        search::replace(template, "{{subject}}"@, subject)
    } else {
        template
    }
}

/// The template with the subject in its place.
fn substitute_subject(template: &str, subject: &str) -> (r: String)
    ensures
        r@ == with_subject(template@, subject@),
{
    if occurs(template, "{{subject}}") {
        proof {
            reveal_strlit("{{subject}}");
        }
        replaced(template, "{{subject}}", subject)
    } else {
        template.to_owned()
    }
}

/// The outline that holds where there is no template.
pub open spec fn builtin(subject: Seq<char>) -> Seq<char> {
    "## Description\n\n"@ + subject + "\n\n## Test Plan\n\n\n"@
}

/// The outline that holds where there is no template.
fn builtin_fallback(subject: &str) -> (r: String)
    ensures
        r@ == builtin(subject@),
{
    concat3("## Description\n\n", subject, "\n\n## Test Plan\n\n\n")
}

/// The text that a new description starts from: the configured template, if it is more
/// than white space, or else the platform's, or else the built-in outline.
pub open spec fn draft(
    configured: Option<Seq<char>>,
    hint: Option<Seq<char>>,
    subject: Seq<char>,
) -> Seq<char> {
    match first_filled(seq![configured]) {
        Some(t) => with_subject(t, subject),
        None => match hint {
            Some(h) => with_subject(h, subject),
            None => builtin(subject),
        },
    }
}

/// Editor seed for a new PR/MR: the content of the `[repo].pr_description_template` file,
/// if it could be read, then what the platform's conventions give, then a small built-in
/// outline.
pub fn compose_initial_draft(configured: Option<String>, hint: Option<String>, subject: &str) -> (r:
    String)
    ensures
        r@ == draft(views::opt(configured), views::opt(hint), subject@),
{
    proof {
        reveal_with_fuel(first_filled, 2);
    }
    if let Some(t) = &configured {
        if !trimmed(t.as_str()).as_str().is_empty() {
            return substitute_subject(t.as_str(), subject);
        }
    }
    match hint {
        Some(h) => substitute_subject(h.as_str(), subject),
        None => builtin_fallback(subject),
    }
}

} // verus!
