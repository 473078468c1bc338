use pilegit::config::{
    check_dependencies, forge_for_answer, get_tool_version, join_path, parse_version,
    platform_tool, run_setup, Config, ForgeConfig, RepoConfig, Setup,
};

fn config_for(forge_type: &str) -> Config {
    Config {
        forge: ForgeConfig { forge_type: forge_type.to_string(), submit_cmd: None },
        repo: RepoConfig::default(),
    }
}

#[test]
fn parse_git_version() {
    assert_eq!(parse_version("git version 2.43.0"), Some((2, 43)));
    assert_eq!(parse_version("git version 2.26.0"), Some((2, 26)));
}

#[test]
fn parse_gh_version() {
    assert_eq!(parse_version("gh version 2.62.0 (2024-11-14)"), Some((2, 62)));
}

#[test]
fn parse_glab_version() {
    assert_eq!(parse_version("glab version 1.46.1 (2024-10-01)"), Some((1, 46)));
}

#[test]
fn parse_bare_version() {
    assert_eq!(parse_version("0.9.2"), Some((0, 9)));
}

#[test]
fn parse_garbage_returns_none() {
    assert_eq!(parse_version("no version here"), None);
    assert_eq!(parse_version(""), None);
}

#[test]
fn parse_version_edges() {
    assert_eq!(parse_version("v7"), None);
    assert_eq!(parse_version("v7.x"), None);
    assert_eq!(parse_version("v4294967295.0"), Some((u32::MAX, 0)));
    assert_eq!(parse_version("v4294967296.0"), None);
    assert_eq!(parse_version("tea version 0.9"), Some((0, 9)));
}

#[test]
fn tool_versions_fall_back_to_stderr() {
    let both = Some(("  out \n".to_string(), "err".to_string()));
    assert_eq!(get_tool_version(both).as_deref(), Some("out"));
    let only_err = Some((" \n".to_string(), " arc 1 \n".to_string()));
    assert_eq!(get_tool_version(only_err).as_deref(), Some("arc 1"));
    assert_eq!(get_tool_version(Some((String::new(), String::new()))), None);
    assert_eq!(get_tool_version(None), None);
}

#[test]
fn every_platform_has_its_tool() {
    let tools = [("github", "gh", 2, 0), ("gitlab", "glab", 1, 20), ("gitea", "tea", 0, 9)];
    for (forge, name, major, minor) in tools {
        let t = platform_tool(forge).unwrap();
        assert_eq!(t.name, name);
        assert_eq!((t.min_major, t.min_minor), (major, minor));
        assert_eq!(t.version_arg, "--version");
    }
    let arc = platform_tool("phabricator").unwrap();
    assert_eq!((arc.name.as_str(), arc.version_arg.as_str()), ("arc", "version"));
    assert!(platform_tool("custom").is_none());
    assert!(platform_tool("sourcehut").is_none());
}

#[test]
fn dependencies_in_order_are_silent() {
    let lines = check_dependencies(
        &config_for("github"),
        Some("git version 2.26.0".to_string()),
        Some("gh version 2.0.0".to_string()),
    );
    assert!(lines.is_empty());
}

#[test]
fn dependency_warnings() {
    let lines = check_dependencies(
        &config_for("gitlab"),
        Some("git version 2.25.9".to_string()),
        Some("glab version 1.19.0".to_string()),
    );
    assert_eq!(
        lines,
        vec![
            "  \x1b[33m⚠ git git version 2.25.9 found — pgit requires git 2.26+\x1b[0m",
            "  \x1b[33m⚠ glab glab version 1.19.0 found — pgit recommends 1.20+\x1b[0m",
            "",
        ]
    );
    let lines = check_dependencies(&config_for("phabricator"), None, None);
    assert_eq!(
        lines,
        vec![
            "  \x1b[31m✗ git not found. pgit requires git.\x1b[0m",
            "  \x1b[31m✗ `arc` not found. Install it: arcanist\x1b[0m",
            "",
        ]
    );
    let lines = check_dependencies(&config_for("custom"), None, None);
    assert_eq!(lines, vec!["  \x1b[31m✗ git not found. pgit requires git.\x1b[0m"]);
}

#[test]
fn setup_for_a_platform() {
    let s = run_setup(Setup::Forge, "9\n", None);
    assert!(matches!(s, Setup::Forge));
    let s = run_setup(s, " 2 \n", None);
    let s = match s {
        Setup::Base { forge_type, submit_cmd } => {
            assert_eq!(forge_type, "gitlab");
            assert_eq!(submit_cmd, None);
            Setup::Base { forge_type, submit_cmd }
        }
        _ => panic!("the base is asked for"),
    };
    match run_setup(s, "\n", Some("origin/main".to_string())) {
        Setup::Done(c) => {
            assert_eq!(c.forge.forge_type, "gitlab");
            assert_eq!(c.repo.base.as_deref(), Some("origin/main"));
            assert_eq!(c.repo.pr_description_template, None);
        }
        _ => panic!("all is answered"),
    }
}

#[test]
fn setup_for_a_custom_command() {
    let s = run_setup(Setup::Forge, "5", None);
    assert!(matches!(s, Setup::Command));
    let s = run_setup(s, " arc diff HEAD^ \n", None);
    match run_setup(s, " origin/develop\n", Some("main".to_string())) {
        Setup::Done(c) => {
            assert_eq!(c.forge.forge_type, "custom");
            assert_eq!(c.forge.submit_cmd.as_deref(), Some("arc diff HEAD^"));
            assert_eq!(c.repo.base.as_deref(), Some("origin/develop"));
        }
        _ => panic!("all is answered"),
    }
    match run_setup(run_setup(Setup::Command, " \n", None), "", None) {
        Setup::Done(c) => {
            assert_eq!(c.forge.submit_cmd, None);
            assert_eq!(c.repo.base, None);
        }
        _ => panic!("all is answered"),
    }
}

#[test]
fn answers_choose_platforms() {
    let names = ["github", "gitlab", "gitea", "phabricator", "custom"];
    for (i, name) in names.iter().enumerate() {
        assert_eq!(forge_for_answer(&format!(" {}\n", i + 1)).as_deref(), Some(*name));
    }
    assert_eq!(forge_for_answer("0"), None);
    assert_eq!(forge_for_answer(""), None);
}

#[test]
fn no_file_means_github() {
    let c = Config::load_or_default(None);
    assert_eq!(c.forge.forge_type, "github");
    assert_eq!(c.forge.submit_cmd, None);
    assert_eq!(c.repo.base, None);
    let kept = Config::load_or_default(Some(config_for("gitea")));
    assert_eq!(kept.forge.forge_type, "gitea");
}

#[test]
fn paths_are_joined() {
    assert_eq!(Config::_path("/repo"), "/repo/.pilegit.toml");
    assert_eq!(join_path("/repo/", "a"), "/repo/a");
    assert_eq!(join_path("", "a"), "a");
    assert_eq!(join_path("/repo", "/etc/a"), "/etc/a");
}

#[test]
fn setup_asks_its_questions() {
    let base = || Setup::Base { forge_type: "github".to_string(), submit_cmd: None };
    assert!(Setup::Forge.question(false, &None).ends_with("Custom command\n\n  Select [1-5]: "));
    assert_eq!(Setup::Forge.question(true, &None), "  Please enter 1-5.\n  Select [1-5]: ");
    assert!(Setup::Command.question(false, &None).ends_with("{message_file}\n\n  Command: "));
    assert_eq!(base().question(false, &None), "\n  Base branch (e.g. origin/main): ");
    assert_eq!(
        base().question(false, &Some("origin/dev".to_string())),
        "\n  Base branch detected: \x1b[1;32morigin/dev\x1b[0m\n  Use this? (Enter to accept, \
         or type a different branch): "
    );
    assert_eq!(
        Setup::Done(config_for("gitea")).question(false, &None),
        "\n  \x1b[32m✓ Config saved to .pilegit.toml\x1b[0m\n\n"
    );
}

#[test]
fn a_command_from_the_environment_comes_first() {
    let with = |c: Option<&str>| config_for("gitlab").with_command(c.map(String::from)).forge;
    let f = with(Some(" arc diff HEAD^ \n"));
    assert_eq!((f.forge_type.as_str(), f.submit_cmd.as_deref()), ("custom", Some("arc diff HEAD^")));
    for c in [None, Some(""), Some("  ")] {
        let f = with(c);
        assert_eq!((f.forge_type.as_str(), f.submit_cmd), ("gitlab", None));
    }
}
