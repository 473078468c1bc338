//! When `[repo].base` is unset, optional detection of the default branch via each forge's CLI.
use vstd::prelude::*;

use super::ForgeKind;
use crate::git::call;
use crate::git::call::{capture, Call, Ran};
use crate::text::args::args;
use crate::text::chars;
use crate::text::chars::{concat2, same, trimmed};
use crate::text::views;

verus! {

/// The program that tells the default branch of the hosted repository.
pub fn default_branch_call() -> (r: Call)
    ensures
        r@ == call::captured(
            "gh"@,
            seq![
                "repo"@,
                "view"@,
                "--json"@,
                "defaultBranchRef"@,
                "--jq"@,
                ".defaultBranchRef.name"@,
            ],
        ),
{
    capture(
        "gh",
        args(&["repo", "view", "--json", "defaultBranchRef", "--jq", ".defaultBranchRef.name"]),
    )
}

/// The default branch that was told, if any.
pub open spec fn told_branch(ran: call::RanView) -> Option<Seq<char>> {
    match ran.output() {
        Some(out) => {
            let name = chars::trim(out);
            if name.len() == 0 || name == "null"@ {
                None
            } else {
                Some(name)
            }
        },
        None => None,
    }
}

/// The default branch that was told, if any.
pub fn default_branch(ran: &Ran) -> (r: Option<String>)
    ensures
        views::opt(r) == told_branch(ran@),
{
    match ran.output() {
        Some(out) => {
            let name = trimmed(out.as_str());
            if name.as_str().is_empty() || same(name.as_str(), "null") {
                None
            } else {
                Some(name)
            }
        },
        None => None,
    }
}

/// The ref that stands for the default branch: the remote's, or else the local one.
pub open spec fn hint(
    forge: ForgeKind,
    name: Option<Seq<char>>,
    on_origin: bool,
    local: bool,
) -> Option<Seq<char>> {
    match name {
        Some(n) => if forge != ForgeKind::GitHub {
            None
        } else if on_origin {
            Some("origin/"@ + n)
        } else if local {
            Some(n)
        } else {
            None
        },
        None => None,
    }
}

/// Best-effort default stack base from the configured forge's CLI (`None` → fall back to
/// git heuristics): `name` is the default branch that it told, `on_origin` and `local`
/// tell whether `origin/<name>` and `<name>` are refs.
pub fn try_from_forge_cli(
    forge: ForgeKind,
    name: Option<String>,
    on_origin: bool,
    local: bool,
) -> (r: Option<String>)
    ensures
        views::opt(r) == hint(forge, views::opt(name), on_origin, local),
{
    match (forge, name) {
        (ForgeKind::GitHub, Some(n)) => {
            if on_origin {
                Some(concat2("origin/", n.as_str()))
            } else if local {
                Some(n)
            } else {
                None
            }
        },
        _ => None,
    }
}

} // verus!
