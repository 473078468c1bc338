//! The code review platforms.
use vstd::prelude::*;

use crate::config::Config;
use crate::text::chars::same;
use crate::text::views;
use custom::Custom;
use gitea::Gitea;
use github::GitHub;
use gitlab::GitLab;
use phabricator::Phabricator;

pub mod base_edit;
pub mod custom;
pub mod gitea;
pub mod github;
pub mod gitlab;
pub mod json;
pub mod listing;
pub mod machine;
pub mod operation;
pub mod phabricator;
pub mod pr_description;
pub mod review;
pub mod stack_base_hint;
pub mod submission;
pub mod sync_state;
pub mod syncing;

verus! {

/// Forge platform from `.pilegit.toml` `[forge] type = ...`.
#[derive(Debug, Clone, Copy, PartialEq, Eq, Hash, Structural)]
pub enum ForgeKind {
    GitHub,
    GitLab,
    Gitea,
    Phabricator,
    Custom,
}

/// The platform that a name stands for. An unknown one is treated as GitHub.
pub open spec fn kind_of(s: Seq<char>) -> ForgeKind {
    if s == "gitlab"@ {
        ForgeKind::GitLab
    } else if s == "gitea"@ {
        ForgeKind::Gitea
    } else if s == "phabricator"@ {
        ForgeKind::Phabricator
    } else if s == "custom"@ {
        ForgeKind::Custom
    } else {
        ForgeKind::GitHub
    }
}

impl ForgeKind {
    /// Parse from config `type` string. Unknown values match [`create_forge`]: treated as GitHub.
    pub fn from_config_str(s: &str) -> (r: ForgeKind)
        ensures
            r == kind_of(s@),
    {
        if same(s, "gitlab") {
            ForgeKind::GitLab
        } else if same(s, "gitea") {
            ForgeKind::Gitea
        } else if same(s, "phabricator") {
            ForgeKind::Phabricator
        } else if same(s, "custom") {
            ForgeKind::Custom
        } else {
            ForgeKind::GitHub
        }
    }
}

/// A code review platform.
pub enum Forge {
    GitHub(GitHub),
    GitLab(GitLab),
    Gitea(Gitea),
    Phabricator(Phabricator),
    Custom(Custom),
}

/// A code review platform as it is seen in contracts.
pub enum ForgeView {
    GitHub,
    GitLab,
    Gitea,
    Phabricator,
    /// With the command that submits.
    Custom(Seq<char>),
}

impl View for Forge {
    type V = ForgeView;

    open spec fn view(&self) -> ForgeView {
        match *self {
            Forge::GitHub(f) => ForgeView::GitHub,
            Forge::GitLab(f) => ForgeView::GitLab,
            Forge::Gitea(f) => ForgeView::Gitea,
            Forge::Phabricator(f) => ForgeView::Phabricator,
            Forge::Custom(c) => ForgeView::Custom(c@),
        }
    }
}

impl ForgeView {
    /// Which platform it is.
    pub open spec fn kind(self) -> ForgeKind {
        match self {
            ForgeView::GitHub => ForgeKind::GitHub,
            ForgeView::GitLab => ForgeKind::GitLab,
            ForgeView::Gitea => ForgeKind::Gitea,
            ForgeView::Phabricator => ForgeKind::Phabricator,
            ForgeView::Custom(c) => ForgeKind::Custom,
        }
    }

    /// Whether a description is written before a review is made.
    pub open spec fn needs_description(self) -> bool {
        !(self is Phabricator || self is Custom)
    }

    /// The trailers of a commit's body that outlive a squash.
    pub open spec fn trailers(self, body: Seq<char>) -> Seq<Seq<char>> {
        match self {
            ForgeView::Phabricator => phabricator::trailers(body),
            _ => seq![],
        }
    }
}

impl Forge {
    /// Which platform it is.
    pub fn kind(&self) -> (r: ForgeKind)
        ensures
            r == self@.kind(),
    {
        match self {
            Forge::GitHub(f) => ForgeKind::GitHub,
            Forge::GitLab(f) => ForgeKind::GitLab,
            Forge::Gitea(f) => ForgeKind::Gitea,
            Forge::Phabricator(f) => ForgeKind::Phabricator,
            Forge::Custom(c) => ForgeKind::Custom,
        }
    }

    /// Display name of the platform.
    pub fn name(&self) -> (r: &'static str)
        ensures
            r@ == match self@ {
                ForgeView::GitHub => "GitHub"@,
                ForgeView::GitLab => "GitLab"@,
                ForgeView::Gitea => "Gitea"@,
                ForgeView::Phabricator => "Phabricator"@,
                ForgeView::Custom(c) => "Custom"@,
            },
    {
        match self {
            Forge::GitHub(f) => "GitHub",
            Forge::GitLab(f) => "GitLab",
            Forge::Gitea(f) => "Gitea",
            Forge::Phabricator(f) => "Phabricator",
            Forge::Custom(c) => "Custom",
        }
    }

    /// Whether pilegit should open an editor for the description before submit.
    /// Platforms like Phabricator have their own editor flow.
    pub fn needs_description_editor(&self) -> (r: bool)
        ensures
            r == self@.needs_description(),
    {
        match self {
            Forge::Phabricator(f) => false,
            Forge::Custom(c) => false,
            _ => true,
        }
    }

    /// Extract trailers from a commit body that should be preserved during squash.
    /// Each forge knows its own trailer format ("Differential Revision:" for
    /// Phabricator). Default: none.
    pub fn get_trailers(&self, body: &str) -> (r: Vec<String>)
        ensures
            views::strs(r@) == self@.trailers(body@),
    {
        match self {
            Forge::Phabricator(f) => f.get_trailers(body),
            _ => {
                let r: Vec<String> = Vec::new();
                proof {
                    assert(views::strs(r@) =~= Seq::<Seq<char>>::empty());
                }
                r
            },
        }
    }
}

/// The platform that a configuration asks for.
pub open spec fn configured_forge(
    forge_type: Seq<char>,
    submit_cmd: Option<Seq<char>>,
) -> ForgeView {
    match kind_of(forge_type) {
        ForgeKind::GitHub => ForgeView::GitHub,
        ForgeKind::GitLab => ForgeView::GitLab,
        ForgeKind::Gitea => ForgeView::Gitea,
        ForgeKind::Phabricator => ForgeView::Phabricator,
        ForgeKind::Custom => ForgeView::Custom(
            match submit_cmd {
                Some(c) => c,
                None => seq![],
            },
        ),
    }
}

/// Create the appropriate Forge based on config.
pub fn create_forge(config: &Config) -> (r: Forge)
    ensures
        r@ == configured_forge(config@.forge_type, config@.submit_cmd),
{
    match ForgeKind::from_config_str(config.forge.forge_type.as_str()) {
        ForgeKind::GitHub => Forge::GitHub(GitHub),
        ForgeKind::GitLab => Forge::GitLab(GitLab),
        ForgeKind::Gitea => Forge::Gitea(Gitea),
        ForgeKind::Phabricator => Forge::Phabricator(Phabricator),
        ForgeKind::Custom => Forge::Custom(
            Custom::new(
                match &config.forge.submit_cmd {
                    Some(c) => c.clone(),
                    None => String::new(),
                },
            ),
        ),
    }
}

/// The platform that is made is the one that the name stands for; every unknown name
/// makes GitHub.
pub proof fn law_unknown_is_github(forge_type: Seq<char>, submit_cmd: Option<Seq<char>>)
    ensures
        configured_forge(forge_type, submit_cmd).kind() == kind_of(forge_type),
        forge_type != "gitlab"@ && forge_type != "gitea"@ && forge_type != "phabricator"@
            && forge_type != "custom"@ ==> configured_forge(forge_type, submit_cmd)
            == ForgeView::GitHub,
{
}

} // verus!
