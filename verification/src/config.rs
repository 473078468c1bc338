//! The configuration of a repository, the questions that set it up, and the tools
//! that it asks for.
use vstd::prelude::*;

use crate::text::chars;
use crate::text::chars::{concat2, concat3, copy_opt, digit, piece, same, to_chars, trimmed};
use crate::text::number;
use crate::text::number::{decimal, to_u32};
use crate::text::pieces;
use crate::text::pieces::split_text;
use crate::text::views;

verus! {

broadcast use views::group_views;

/// The configuration of a repository.
#[derive(Debug)]
pub struct Config {
    pub forge: ForgeConfig,
    pub repo: RepoConfig,
}

/// The code review platform of a repository.
#[derive(Debug)]
pub struct ForgeConfig {
    /// Platform type: github, gitlab, gitea, phabricator, custom
    pub forge_type: String,
    /// Custom submit command (only used when forge_type = "custom")
    pub submit_cmd: Option<String>,
}

/// The repository's own settings.
#[derive(Debug)]
pub struct RepoConfig {
    /// Base branch override (e.g. "origin/main"). Auto-detected if not set.
    pub base: Option<String>,
    /// The file, relative to the work tree, that a new description starts from.
    pub pr_description_template: Option<String>,
}

/// The configuration as it is seen in contracts.
pub struct ConfigView {
    pub forge_type: Seq<char>,
    pub submit_cmd: Option<Seq<char>>,
    pub base: Option<Seq<char>>,
    pub pr_description_template: Option<Seq<char>>,
}

impl View for Config {
    type V = ConfigView;

    open spec fn view(&self) -> ConfigView {
        ConfigView {
            forge_type: self.forge.forge_type@,
            submit_cmd: views::opt(self.forge.submit_cmd),
            base: views::opt(self.repo.base),
            pr_description_template: views::opt(self.repo.pr_description_template),
        }
    }
}

impl Clone for Config {
    fn clone(&self) -> (r: Config)
        ensures
            r@ == self@,
    {
        Config {
            forge: ForgeConfig {
                forge_type: self.forge.forge_type.clone(),
                submit_cmd: copy_opt(&self.forge.submit_cmd),
            },
            repo: RepoConfig {
                base: copy_opt(&self.repo.base),
                pr_description_template: copy_opt(&self.repo.pr_description_template),
            },
        }
    }
}

impl Default for RepoConfig {
    fn default() -> (r: RepoConfig)
        ensures
            r.base is None,
            r.pr_description_template is None,
    {
        RepoConfig { base: None, pr_description_template: None }
    }
}

/// `rel` as a path under `root`; a path that begins with a slash stands for itself.
pub open spec fn path_under(root: Seq<char>, rel: Seq<char>) -> Seq<char> {
    if rel.len() > 0 && rel[0] == '/' {
        rel
    } else if root.len() == 0 || root.last() == '/' {
        root + rel
    } else {
        root + "/"@ + rel
    }
}

/// `rel` as a path under `root`.
pub fn join_path(root: &str, rel: &str) -> (r: String)
    ensures
        r@ == path_under(root@, rel@),
{
    let a = to_chars(root);
    let b = to_chars(rel);
    if b.len() > 0 && b[0] == '/' {
        rel.to_owned()
    } else if a.len() == 0 || a[a.len() - 1] == '/' {
        concat2(root, rel)
    } else {
        concat3(root, "/", rel)
    }
}

/// The configuration under a command from the environment, if one is given that is not
/// blank.
pub open spec fn commanded(c: ConfigView, command: Option<Seq<char>>) -> ConfigView {
    match command {
        Some(t) => if chars::trim(t).len() > 0 {
            ConfigView {
                forge_type: "custom"@,
                submit_cmd: Some(chars::trim(t)),
                ..c
            }
        } else {
            c
        },
        None => c,
    }
}

/// The configuration that holds where there is no file.
pub open spec fn default_config() -> ConfigView {
    ConfigView {
        forge_type: "github"@,
        submit_cmd: None,
        base: None,
        pr_description_template: None,
    }
}

impl Config {
    /// Config file path for a repo.
    pub fn _path(repo_root: &str) -> (r: String)
        ensures
            r@ == path_under(repo_root@, ".pilegit.toml"@),
    {
        join_path(repo_root, ".pilegit.toml")
    }

    /// The configuration under a command from the environment: where one is given, it is
    /// run for each review in place of the platform's own tool.
    pub fn with_command(self, command: Option<String>) -> (r: Config)
        ensures
            r@ == commanded(self@, views::opt(command)),
    {
        match command {
            Some(c) => {
                let c = trimmed(c.as_str());
                if c.as_str().is_empty() {
                    self
                } else {
                    Config {
                        forge: ForgeConfig {
                            forge_type: "custom".to_owned(),
                            submit_cmd: Some(c),
                        },
                        repo: self.repo,
                    }
                }
            },
            None => self,
        }
    }

    /// The configuration that was read, or the default one where there was none.
    pub fn load_or_default(loaded: Option<Config>) -> (r: Config)
        ensures
            r@ == match loaded {
                Some(c) => c@,
                None => default_config(),
            },
    {
        match loaded {
            Some(c) => c,
            None => Config {
                forge: ForgeConfig { forge_type: "github".to_owned(), submit_cmd: None },
                repo: RepoConfig::default(),
            },
        }
    }
}

/// The platform that an answer to the first question chooses.
pub open spec fn chosen_forge(answer: Seq<char>) -> Option<Seq<char>> {
    let a = chars::trim(answer);
    if a == "1"@ {
        Some("github"@)
    } else if a == "2"@ {
        Some("gitlab"@)
    } else if a == "3"@ {
        Some("gitea"@)
    } else if a == "4"@ {
        Some("phabricator"@)
    } else if a == "5"@ {
        Some("custom"@)
    } else {
        None
    }
}

/// An answer without the white space around it, or none where nothing else is there.
pub open spec fn answered(answer: Seq<char>) -> Option<Seq<char>> {
    let a = chars::trim(answer);
    if a.len() == 0 {
        None
    } else {
        Some(a)
    }
}

/// How far the questions have come.
pub enum Setup {
    /// Which platform?
    Forge,
    /// Which submit command?
    Command,
    /// Which base branch?
    Base { forge_type: String, submit_cmd: Option<String> },
    /// All answered.
    Done(Config),
}

/// How far the questions have come, as it is seen in contracts.
pub enum SetupView {
    Forge,
    Command,
    Base { forge_type: Seq<char>, submit_cmd: Option<Seq<char>> },
    Done(ConfigView),
}

impl View for Setup {
    type V = SetupView;

    open spec fn view(&self) -> SetupView {
        match *self {
            Setup::Forge => SetupView::Forge,
            Setup::Command => SetupView::Command,
            Setup::Base { forge_type, submit_cmd } => SetupView::Base {
                forge_type: forge_type@,
                submit_cmd: views::opt(submit_cmd),
            },
            Setup::Done(c) => SetupView::Done(c@),
        }
    }
}

/// What follows an answer. An answer that names no platform leaves the question
/// open. Only a custom platform is asked for a command; an empty command is none.
/// An empty base branch is the detected one.
pub open spec fn setup_next(
    s: SetupView,
    answer: Seq<char>,
    detected: Option<Seq<char>>,
) -> SetupView {
    match s {
        SetupView::Forge => match chosen_forge(answer) {
            None => SetupView::Forge,
            Some(t) => if t == "custom"@ {
                SetupView::Command
            } else {
                SetupView::Base { forge_type: t, submit_cmd: None }
            },
        },
        SetupView::Command => SetupView::Base {
            forge_type: "custom"@,
            submit_cmd: answered(answer),
        },
        SetupView::Base { forge_type, submit_cmd } => SetupView::Done(
            ConfigView {
                forge_type,
                submit_cmd,
                base: match answered(answer) {
                    Some(b) => Some(b),
                    None => detected,
                },
                pr_description_template: None,
            },
        ),
        SetupView::Done(c) => SetupView::Done(c),
    }
}

/// An answer without the white space around it.
fn read_answer(answer: &str) -> (r: Option<String>)
    ensures
        views::opt(r) == answered(answer@),
{
    let a = trimmed(answer);
    if a.as_str().is_empty() {
        None
    } else {
        Some(a)
    }
}

/// The platform that an answer chooses.
pub fn forge_for_answer(answer: &str) -> (r: Option<String>)
    ensures
        views::opt(r) == chosen_forge(answer@),
{
    let a = trimmed(answer);
    if same(a.as_str(), "1") {
        Some("github".to_owned())
    } else if same(a.as_str(), "2") {
        Some("gitlab".to_owned())
    } else if same(a.as_str(), "3") {
        Some("gitea".to_owned())
    } else if same(a.as_str(), "4") {
        Some("phabricator".to_owned())
    } else if same(a.as_str(), "5") {
        Some("custom".to_owned())
    } else {
        None
    }
}

/// Takes one answer of the interactive setup; `detected` is the base branch that the
/// repository seems to have.
pub fn run_setup(state: Setup, answer: &str, detected: Option<String>) -> (r: Setup)
    ensures
        r@ == setup_next(state@, answer@, views::opt(detected)),
{
    match state {
        Setup::Forge => match forge_for_answer(answer) {
            None => Setup::Forge,
            Some(t) => if same(t.as_str(), "custom") {
                Setup::Command
            } else {
                Setup::Base { forge_type: t, submit_cmd: None }
            },
        },
        Setup::Command => Setup::Base {
            forge_type: "custom".to_owned(),
            submit_cmd: read_answer(answer),
        },
        Setup::Base { forge_type, submit_cmd } => {
            let base = match read_answer(answer) {
                Some(b) => Some(b),
                None => detected,
            };
            Setup::Done(
                Config {
                    forge: ForgeConfig { forge_type, submit_cmd },
                    repo: RepoConfig { base, pr_description_template: None },
                },
            )
        },
        Setup::Done(c) => Setup::Done(c),
    }
}

/// Answers that name a platform lead to a configuration for it: with the command that was
/// given, for a custom one, and with the base that was given, or else the detected one.
pub proof fn law_setup_keeps_answers(
    platform: Seq<char>,
    command: Seq<char>,
    base: Seq<char>,
    detected: Option<Seq<char>>,
)
    requires
        chosen_forge(platform) is Some,
    ensures
        ({
            let custom = chosen_forge(platform) == Some("custom"@);
            let one = setup_next(SetupView::Forge, platform, detected);
            let two = if custom {
                setup_next(one, command, detected)
            } else {
                one
            };
            setup_next(two, base, detected) == SetupView::Done(
                ConfigView {
                    forge_type: chosen_forge(platform)->0,
                    submit_cmd: if custom {
                        answered(command)
                    } else {
                        None
                    },
                    base: match answered(base) {
                        Some(b) => Some(b),
                        None => detected,
                    },
                    pr_description_template: None,
                },
            )
        }),
{
}

/// The question for the platform, when it is first asked.
pub const WHICH_FORGE: &'static str =
    "\n  \x1b[1;36m▸ pilegit setup\x1b[0m\n\n  Which code review platform do you use?\n\n    \x1b[1;33m1\x1b[0m  GitHub      (uses \x1b[33mgh\x1b[0m CLI)\n    \x1b[1;33m2\x1b[0m  GitLab      (uses \x1b[33mglab\x1b[0m CLI)\n    \x1b[1;33m3\x1b[0m  Gitea       (uses \x1b[33mtea\x1b[0m CLI)\n    \x1b[1;33m4\x1b[0m  Phabricator (uses \x1b[33marc\x1b[0m CLI)\n    \x1b[1;33m5\x1b[0m  Custom command\n\n  Select [1-5]: ";

/// The question for the platform, once an answer named none.
pub const WHICH_FORGE_AGAIN: &'static str = "  Please enter 1-5.\n  Select [1-5]: ";

/// The question for the command.
pub const WHICH_COMMAND: &'static str =
    "\n  Enter your submit command template.\n  Placeholders: {hash}, {subject}, {message}, {message_file}\n\n  Command: ";

/// The question for the base branch, where none was detected.
pub const WHICH_BASE: &'static str = "\n  Base branch (e.g. origin/main): ";

/// What is said once the answers are kept.
pub const SAVED: &'static str = "\n  \x1b[32m✓ Config saved to .pilegit.toml\x1b[0m\n\n";

/// What is said before the next answer; `again` tells that the last one was none.
pub open spec fn question(s: SetupView, again: bool, detected: Option<Seq<char>>) -> Seq<char> {
    match s {
        SetupView::Forge => if again {
            WHICH_FORGE_AGAIN@
        } else {
            WHICH_FORGE@
        },
        SetupView::Command => WHICH_COMMAND@,
        SetupView::Base { forge_type, submit_cmd } => match detected {
            Some(b) => "\n  Base branch detected: \x1b[1;32m"@ + b
                + "\x1b[0m\n  Use this? (Enter to accept, or type a different branch): "@,
            None => WHICH_BASE@,
        },
        SetupView::Done(c) => SAVED@,
    }
}

impl Setup {
    /// What is said before the next answer; `again` tells that the last one was none.
    pub fn question(&self, again: bool, detected: &Option<String>) -> (r: String)
        ensures
            r@ == question(self@, again, views::opt(*detected)),
    {
        match self {
            Setup::Forge => {
                if again {
                    WHICH_FORGE_AGAIN.to_owned()
                } else {
                    WHICH_FORGE.to_owned()
                }
            },
            Setup::Command => WHICH_COMMAND.to_owned(),
            Setup::Base { forge_type, submit_cmd } => match detected {
                Some(b) => concat3(
                    "\n  Base branch detected: \x1b[1;32m",
                    b.as_str(),
                    "\x1b[0m\n  Use this? (Enter to accept, or type a different branch): ",
                ),
                None => WHICH_BASE.to_owned(),
            },
            Setup::Done(c) => SAVED.to_owned(),
        }
    }
}

/// The text from its first decimal digit on.
pub open spec fn from_digit(s: Seq<char>) -> Option<Seq<char>>
    decreases s.len(),
{
    if s.len() == 0 {
        None
    } else if chars::is_digit(s[0]) {
        Some(s)
    } else {
        from_digit(s.drop_first())
    }
}

/// The major and minor number of a version text: from its first digit on, the two
/// numbers around the first full stop; the second ends at the next full stop.
pub open spec fn version_of(s: Seq<char>) -> Option<(u32, u32)> {
    match from_digit(s) {
        None => None,
        Some(v) => {
            let parts = pieces::split(v, "."@);
            if parts.len() < 2 {
                None
            } else {
                match (number::parse_u32(parts[0]), number::parse_u32(parts[1])) {
                    (Some(major), Some(minor)) => Some((major, minor)),
                    _ => None,
                }
            }
        },
    }
}

/// Parse a major.minor version from a version string like "git version 2.43.0".
pub fn parse_version(version_str: &str) -> (r: Option<(u32, u32)>)
    ensures
        r == version_of(version_str@),
{
    let v = to_chars(version_str);
    let mut at: usize = 0;
    proof {
        assert(v@.skip(0) =~= v@);
    }
    while at < v.len() && !digit(v[at])
        invariant
            at <= v@.len(),
            from_digit(v@) == from_digit(v@.skip(at as int)),
        decreases v.len() - at,
    {
        proof {
            assert(v@.skip(at as int).drop_first() =~= v@.skip(at + 1));
        }
        at += 1;
    }
    if at == v.len() {
        return None;
    }
    proof {
        assert(v@.subrange(at as int, v@.len() as int) =~= v@.skip(at as int));
        reveal_strlit(".");
    }
    let part = piece(&v, at, v.len());
    let parts = split_text(part.as_str(), ".");
    let ghost texts = pieces::split(part@, "."@);
    proof {
        assert(texts.len() == parts@.len());
    }
    if parts.len() < 2 {
        return None;
    }
    proof {
        assert(texts[0] == parts@[0]@);
        assert(texts[1] == parts@[1]@);
    }
    match to_u32(parts[0].as_str()) {
        None => None,
        Some(major) => match to_u32(parts[1].as_str()) {
            None => None,
            Some(minor) => Some((major, minor)),
        },
    }
}

/// What a tool says of its version: its output, or what it wrote as an error where
/// the output is blank.
pub open spec fn version_text(stdout: Seq<char>, stderr: Seq<char>) -> Option<Seq<char>> {
    match answered(stdout) {
        Some(t) => Some(t),
        None => answered(stderr),
    }
}

/// Checks stdout first, falls back to stderr (some tools like arc output to stderr).
/// `output` is what `tool <args>` wrote, if it ran.
pub fn get_tool_version(output: Option<(String, String)>) -> (r: Option<String>)
    ensures
        views::opt(r) == match output {
            Some((out, err)) => version_text(out@, err@),
            None => None,
        },
{
    match output {
        None => None,
        Some((out, err)) => match read_answer(out.as_str()) {
            Some(t) => Some(t),
            None => read_answer(err.as_str()),
        },
    }
}

/// The command line tool that a platform is used through.
pub struct Tool {
    pub name: String,
    /// The arguments that make it tell its version.
    pub version_arg: String,
    /// The lowest recommended version; `(0, 0)` where any will do.
    pub min_major: u32,
    pub min_minor: u32,
    /// Where it can be had.
    pub install_hint: String,
}

/// A tool as it is seen in contracts.
pub struct ToolView {
    pub name: Seq<char>,
    pub version_arg: Seq<char>,
    pub min_major: u32,
    pub min_minor: u32,
    pub install_hint: Seq<char>,
}

impl View for Tool {
    type V = ToolView;

    open spec fn view(&self) -> ToolView {
        ToolView {
            name: self.name@,
            version_arg: self.version_arg@,
            min_major: self.min_major,
            min_minor: self.min_minor,
            install_hint: self.install_hint@,
        }
    }
}

/// The tool that each platform is used through; a custom one has none, nor has a
/// platform of another name.
pub open spec fn tool_of(forge_type: Seq<char>) -> Option<ToolView> {
    if forge_type == "github"@ {
        Some(
            ToolView {
                name: "gh"@,
                version_arg: "--version"@,
                min_major: 2,
                min_minor: 0,
                install_hint: "https://cli.github.com/"@,
            },
        )
    } else if forge_type == "gitlab"@ {
        Some(
            ToolView {
                name: "glab"@,
                version_arg: "--version"@,
                min_major: 1,
                min_minor: 20,
                install_hint: "https://gitlab.com/gitlab-org/cli"@,
            },
        )
    } else if forge_type == "gitea"@ {
        Some(
            ToolView {
                name: "tea"@,
                version_arg: "--version"@,
                min_major: 0,
                min_minor: 9,
                install_hint: "https://gitea.com/gitea/tea"@,
            },
        )
    } else if forge_type == "phabricator"@ {
        Some(
            ToolView {
                name: "arc"@,
                version_arg: "version"@,
                min_major: 0,
                min_minor: 0,
                install_hint: "arcanist"@,
            },
        )
    } else {
        None
    }
}

/// The tool that the platform is used through.
pub fn platform_tool(forge_type: &str) -> (r: Option<Tool>)
    ensures
        match r {
            Some(t) => tool_of(forge_type@) == Some(t@),
            None => tool_of(forge_type@) is None,
        },
{
    if same(forge_type, "github") {
        Some(
            Tool {
                name: "gh".to_owned(),
                version_arg: "--version".to_owned(),
                min_major: 2,
                min_minor: 0,
                install_hint: "https://cli.github.com/".to_owned(),
            },
        )
    } else if same(forge_type, "gitlab") {
        Some(
            Tool {
                name: "glab".to_owned(),
                version_arg: "--version".to_owned(),
                min_major: 1,
                min_minor: 20,
                install_hint: "https://gitlab.com/gitlab-org/cli".to_owned(),
            },
        )
    } else if same(forge_type, "gitea") {
        Some(
            Tool {
                name: "tea".to_owned(),
                version_arg: "--version".to_owned(),
                min_major: 0,
                min_minor: 9,
                install_hint: "https://gitea.com/gitea/tea".to_owned(),
            },
        )
    } else if same(forge_type, "phabricator") {
        Some(
            Tool {
                name: "arc".to_owned(),
                version_arg: "version".to_owned(),
                min_major: 0,
                min_minor: 0,
                install_hint: "arcanist".to_owned(),
            },
        )
    } else {
        None
    }
}

/// Whether a version text tells a version below `major.minor`.
pub open spec fn is_older(v: Seq<char>, major: u32, minor: u32) -> bool {
    match version_of(v) {
        Some((a, b)) => a < major || (a == major && b < minor),
        None => false,
    }
}

/// What there is to say of git, of which version 2.26 is asked for.
pub open spec fn git_warnings(git: Option<Seq<char>>) -> Seq<Seq<char>> {
    match git {
        Some(v) => if is_older(v, 2, 26) {
            seq!["  \x1b[33m⚠ git "@ + v + " found — pgit requires git 2.26+\x1b[0m"@]
        } else {
            seq![]
        },
        None => seq!["  \x1b[31m✗ git not found. pgit requires git.\x1b[0m"@],
    }
}

/// What there is to say of the platform's tool.
pub open spec fn tool_warnings(t: ToolView, version: Option<Seq<char>>) -> Seq<Seq<char>> {
    match version {
        Some(v) => if is_older(v, t.min_major, t.min_minor) {
            seq![
                "  \x1b[33m⚠ "@ + t.name + " "@ + v + " found — pgit recommends "@ + number::dec(
                    t.min_major as nat,
                ) + "."@ + number::dec(t.min_minor as nat) + "+\x1b[0m"@,
            ]
        } else {
            seq![]
        },
        None => seq![
            "  \x1b[31m✗ `"@ + t.name + "` not found. Install it: "@ + t.install_hint
                + "\x1b[0m"@,
        ],
    }
}

/// The lines that are written of the tools: the warnings, and a blank line after
/// them where the platform has a tool.
pub open spec fn dependency_report(
    forge_type: Seq<char>,
    git: Option<Seq<char>>,
    version: Option<Seq<char>>,
) -> Seq<Seq<char>> {
    match tool_of(forge_type) {
        None => git_warnings(git),
        Some(t) => {
            let all = git_warnings(git) + tool_warnings(t, version);
            if all.len() == 0 {
                all
            } else {
                all.push(seq![])
            }
        },
    }
}

/// Whether a version text tells a version below `major.minor`.
fn older(v: &str, major: u32, minor: u32) -> (r: bool)
    ensures
        r == is_older(v@, major, minor),
{
    match parse_version(v) {
        Some((a, b)) => a < major || (a == major && b < minor),
        None => false,
    }
}

/// The lines to write of the tools that the configuration needs, given what git and
/// the platform's tool say of their versions. Warnings are non-fatal.
pub fn check_dependencies(config: &Config, git: Option<String>, version: Option<String>) -> (r: Vec<
    String,
>)
    ensures
        views::strs(r@) == dependency_report(
            config@.forge_type,
            views::opt(git),
            views::opt(version),
        ),
{
    let mut lines: Vec<String> = Vec::new();
    let ghost gw = git_warnings(views::opt(git));
    match git {
        Some(v) => {
            if older(v.as_str(), 2, 26) {
                lines.push(
                    concat3(
                        "  \x1b[33m⚠ git ",
                        v.as_str(),
                        " found — pgit requires git 2.26+\x1b[0m",
                    ),
                );
            }
        },
        None => {
            lines.push("  \x1b[31m✗ git not found. pgit requires git.\x1b[0m".to_owned());
        },
    }
    proof {
        assert(views::strs(lines@) =~= gw);
    }
    match platform_tool(config.forge.forge_type.as_str()) {
        None => lines,
        Some(t) => {
            let ghost tw = tool_warnings(t@, views::opt(version));
            match version {
                Some(v) => {
                    if older(v.as_str(), t.min_major, t.min_minor) {
                        let mut m = concat3("  \x1b[33m⚠ ", t.name.as_str(), " ");
                        m.append(v.as_str());
                        m.append(" found — pgit recommends ");
                        m.append(decimal(t.min_major as u64).as_str());
                        m.append(".");
                        m.append(decimal(t.min_minor as u64).as_str());
                        m.append("+\x1b[0m");
                        lines.push(m);
                    }
                },
                None => {
                    let mut m = concat3(
                        "  \x1b[31m✗ `",
                        t.name.as_str(),
                        "` not found. Install it: ",
                    );
                    m.append(t.install_hint.as_str());
                    m.append("\x1b[0m");
                    lines.push(m);
                },
            }
            proof {
                assert(views::strs(lines@) =~= gw + tw);
                assert(views::strs(lines@).len() == lines@.len());
            }
            if lines.len() > 0 {
                lines.push(String::new());
            }
            lines
        },
    }
}

} // verus!
