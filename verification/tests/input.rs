use mamba::document::{Entry, Held};
use mamba::input::{
    all_settings, load, mamba_home, needs_project, plan, strip_flags, Host, InputError, Invocation,
    Plan, ProjectId, ProjectRoot, Settings, CONFIG_FILE, PULL, SYMBOLS,
};
use mamba::paths::ancestors;

fn args(list: &[&str]) -> Vec<String> {
    list.iter().map(|s| s.to_string()).collect()
}

/// What a search that starts at `cwd` finds, where the config files are these.
fn disk(cwd: &str, files: &[(&str, &str)]) -> Vec<Option<Result<String, String>>> {
    ancestors(cwd)
        .iter()
        .map(|dir| {
            files
                .iter()
                .find(|(at, _)| at == dir)
                .map(|(_, text)| Ok(text.to_string()))
        })
        .collect()
}

/// What `plan` makes of a command line typed in a directory with this config file.
fn planned(contents: &str, argv: &[&str]) -> Plan {
    let dir = "/home/dev/proj";
    plan(dir, &args(argv), &disk(dir, &[(dir, contents)]))
}

/// The invocation `plan` produced, or a panic naming what it produced instead.
fn remote(contents: &str, argv: &[&str]) -> Invocation {
    match planned(contents, argv) {
        Plan::Remote(invocation) => invocation,
        other => panic!("expected a remote build, got {other:?}"),
    }
}

#[test]
fn input_host_accepts_plain_and_user_at_host() {
    assert_eq!(Host::new("gpu-box").unwrap().as_str(), "gpu-box");
    assert_eq!(
        Host::new("sura@10.0.0.4").unwrap().as_str(),
        "sura@10.0.0.4"
    );
    assert_eq!(Host::new("build_1.lan").unwrap().as_str(), "build_1.lan");
}

#[test]
fn input_host_rejects_shell_metacharacters_and_empty() {
    for bad in [
        "",
        "host; rm -rf /",
        "host $(id)",
        "host name",
        "a`b`",
        "h|c",
        "x'y",
    ] {
        assert!(Host::new(bad).is_err(), "should have rejected {bad:?}");
    }
}

#[test]
fn a_project_id_is_always_a_plain_name() {
    // It crosses the wire and becomes a directory on another machine, so the
    // constructor has to leave nothing a shell or a path could reinterpret.
    for raw in ["my project!", "../../etc", "", ".", "..", "a;b"] {
        let id = ProjectId::new(raw);
        assert!(
            id.as_str()
                .chars()
                .all(|c| c.is_ascii_alphanumeric() || matches!(c, '.' | '-' | '_')),
            "{raw:?} produced {id:?}"
        );
        assert!(!id.as_str().is_empty());
    }
}

#[test]
fn a_project_id_keeps_what_it_can() {
    assert_eq!(ProjectId::new("my project!").as_str(), "my_project_");
    assert_eq!(ProjectId::new("../../etc").as_str(), ".._.._etc");
    assert_eq!(ProjectId::new("..").as_str(), "project");
    assert_eq!(ProjectId::new("café").as_str(), "caf_");
    assert_eq!(ProjectId::new("app-1.2_x").as_str(), "app-1.2_x");
}

#[test]
fn project_id_is_the_directory_name_and_is_never_configured() {
    let dir = "/tmp/pid-derived/myproject";
    // A project_id key in the file must be ignored, not honoured.
    let files = disk(dir, &[(dir, "host = \"gpu-box\"\nproject_id = \"ignored\"\n")]);

    match plan(dir, &args(&["build"]), &files) {
        Plan::Remote(invocation) => assert_eq!(invocation.project_id.as_str(), "myproject"),
        other => panic!("expected a remote build, got {other:?}"),
    }
}

#[test]
fn every_setting_is_spelled_once_and_owns_a_bit_of_its_own() {
    // The whole point of the table: a new switch cannot silently collide with an
    // existing one, and cannot be given two different names in two different places.
    let mut seen = 0u8;
    for setting in all_settings() {
        assert_eq!(
            setting.switch.bit().count_ones(),
            1,
            "{} must own exactly one bit",
            setting.key
        );
        assert_eq!(seen & setting.switch.bit(), 0, "{} reuses a bit", setting.key);
        seen |= setting.switch.bit();

        assert!(setting.flag.starts_with("--mamba-"));
        assert!(!setting.help.is_empty());
    }
}

#[test]
fn mamba_flags_are_stripped_before_cargo_ever_sees_them() {
    // They are the shim's flags, not cargo's. A real cargo given one fails the build.
    let flags = remote("host = \"gpu-box\"\n", &["build", "--mamba-pull", "--release"]).flags;

    assert_eq!(flags, args(&["--release"]));
}

#[test]
fn a_mamba_flag_on_a_command_that_stays_local_is_stripped_too() {
    match plan("/tmp/strip-local", &args(&["test", "--mamba-pull"]), &[]) {
        Plan::Local(args) => assert_eq!(args, vec!["test".to_string()]),
        other => panic!("expected a local run, got {other:?}"),
    }
}

#[test]
fn a_flag_turns_a_switch_on_that_the_config_file_left_off() {
    let settings = remote(
        "host = \"gpu-box\"\npull = false\n",
        &["build", "--mamba-pull"],
    )
    .settings;

    assert!(settings.has(PULL), "what someone just typed has to win");
}

#[test]
fn a_config_file_turns_a_switch_on_without_any_flag() {
    assert!(remote("host = \"gpu-box\"\npull = true\n", &["build"]).settings.has(PULL));
}

#[test]
fn switches_default_to_off() {
    let settings = remote("host = \"gpu-box\"\n", &["build"]).settings;

    assert!(!settings.has(PULL));
    assert!(!settings.has(SYMBOLS));
}

#[test]
fn asking_for_symbols_asks_for_the_binary_they_belong_to() {
    // Symbols alone are useless: the stripped binary carries the debuglink that points
    // at them. This has to hold from either source, or the two disagree.
    assert!(
        remote("host = \"gpu-box\"\npull-symbols = true\n", &["build"])
            .settings
            .has(PULL)
    );
    assert!(Settings::from_flags(&args(&["--mamba-pull-symbols"])).has(PULL));
}

#[test]
fn a_switch_of_the_wrong_type_is_an_error_not_a_silent_false() {
    for line in ["pull = \"yes\"", "pull-symbols = 1"] {
        assert!(
            matches!(
                planned(&format!("host = \"gpu-box\"\n{line}\n"), &["build"]),
                Plan::Broken(_)
            ),
            "{line} should have been rejected"
        );
    }
}

#[test]
fn bits_survive_the_trip_through_the_wire_and_drop_ones_that_name_nothing() {
    let both = Settings::from_flags(&args(&["--mamba-pull-symbols"]));

    assert_eq!(Settings::from_bits(both.bits()), both);
    assert_eq!(Settings::from_bits(0b1111_1100), Settings::default());
}

#[test]
fn discovery_walks_up_to_a_parent_the_way_cargo_does() {
    let root = "/home/dev/proj";
    let nested = "/home/dev/proj/crates/inner/src";

    match plan(
        nested,
        &args(&["build"]),
        &disk(nested, &[(root, "host = \"gpu-box\"\n")]),
    ) {
        Plan::Remote(invocation) => {
            assert_eq!(invocation.root.as_path(), root);
            assert_eq!(invocation.host.as_str(), "gpu-box");
        }
        other => panic!("expected a remote build, got {other:?}"),
    }
}

#[test]
fn the_nearest_config_is_the_one_that_counts() {
    let nested = "/home/dev/proj/inner";
    let files = disk(
        nested,
        &[("/home/dev", "host = \"far\"\n"), ("/home/dev/proj", "host = \"near\"\n")],
    );

    match plan(nested, &args(&["build"]), &files) {
        Plan::Remote(invocation) => {
            assert_eq!(invocation.host.as_str(), "near");
            assert_eq!(invocation.project_id.as_str(), "proj");
        }
        other => panic!("expected a remote build, got {other:?}"),
    }
}

#[test]
fn a_directory_with_no_config_anywhere_above_it_just_runs_cargo() {
    let dir = "/tmp/discover-none";

    assert!(matches!(
        plan(dir, &args(&["build"]), &disk(dir, &[])),
        Plan::Local(_)
    ));
}

#[test]
fn only_build_goes_remote() {
    for command in ["test", "check", "run", "clippy"] {
        assert!(
            matches!(planned("host = \"gpu-box\"\n", &[command]), Plan::Local(_)),
            "{command} is cargo's business"
        );
    }
}

#[test]
fn a_bare_cargo_with_no_arguments_at_all_stays_local() {
    assert!(matches!(planned("host = \"gpu-box\"\n", &[]), Plan::Local(_)));
}

#[test]
fn a_project_is_looked_for_only_where_something_is_built() {
    assert!(needs_project(&args(&["build", "--release"])));
    assert!(needs_project(&args(&["--mamba-pull", "build"])));
    assert!(!needs_project(&args(&["test"])));
    assert!(!needs_project(&args(&["--release", "build"])));
    assert!(!needs_project(&[]));
}

#[test]
fn a_broken_config_is_reported_rather_than_ignored() {
    // Silently building locally would look like it worked, which is the one outcome
    // someone who configured a remote build must not get.
    for contents in [
        "pull = true\n",
        "host = \n",
        "host = 42\n",
        "host = \"a b\"\n",
    ] {
        assert!(
            matches!(planned(contents, &["build"]), Plan::Broken(_)),
            "{contents:?} should have been reported"
        );
    }
}

#[test]
fn the_local_fallback_runs_the_same_build_that_was_asked_for() {
    let invocation = remote(
        "host = \"gpu-box\"\n",
        &["build", "--mamba-pull", "--release", "-p", "app"],
    );

    assert_eq!(
        invocation.local_argv(),
        args(&["build", "--release", "-p", "app"]),
        "the same flags, minus the shim's own"
    );
}

#[test]
fn mamba_home_is_one_directory_every_caller_agrees_on() {
    assert!(mamba_home(Some("/home/dev")).ends_with(".mamba"));
    assert_eq!(mamba_home(Some("/home/dev")), "/home/dev/.mamba");
    assert_eq!(mamba_home(None), "/tmp/.mamba");
}

#[test]
fn every_input_error_says_what_is_wrong() {
    let dir = "/home/dev/proj";
    let message = |contents: &str| match planned(contents, &["build"]) {
        Plan::Broken(e) => e.message(),
        other => panic!("expected a refusal, got {other:?}"),
    };

    assert_eq!(
        message("pull = true\n"),
        ".mamba.toml needs a `host` key, for example: host = \"gpu-box\""
    );
    assert_eq!(message("host = 42\n"), message("pull = true\n"));
    assert_eq!(
        message("host = \"a b\"\n"),
        "host \"a b\" is not a plain ssh destination (letters, digits, . - _ @ only)"
    );
    assert_eq!(
        message("host = \"h\"\npull = \"yes\"\n"),
        "pull must be true or false, got String(\"yes\")"
    );
    assert_eq!(
        message("host = \"h\"\npull-symbols = 1\n"),
        "pull-symbols must be true or false, got Integer(1)"
    );
    assert!(message("host = \n").starts_with("/home/dev/proj/.mamba.toml is not valid TOML: "));

    let unreadable = vec![Some(Err("permission denied".to_string()))];
    match plan(dir, &args(&["build"]), &unreadable) {
        Plan::Broken(InputError::Unreadable(path, why)) => {
            assert_eq!(path, "/home/dev/proj/.mamba.toml");
            assert_eq!(why, "permission denied");
            assert_eq!(
                InputError::Unreadable(path, why).message(),
                "cannot read /home/dev/proj/.mamba.toml: permission denied"
            );
        }
        other => panic!("expected a refusal, got {other:?}"),
    }
}

#[test]
fn a_wrong_host_is_told_before_a_wrong_switch() {
    match planned("host = \"a b\"\npull = 3\n", &["build"]) {
        Plan::Broken(InputError::BadHost(host)) => assert_eq!(host, "a b"),
        other => panic!("expected a bad host, got {other:?}"),
    }
    match planned("host = \"h\"\npull = 3\npull-symbols = 4\n", &["build"]) {
        Plan::Broken(InputError::BadSetting(key, shown)) => {
            assert_eq!(key, "pull");
            assert_eq!(shown, "Integer(3)");
        }
        other => panic!("expected a bad setting, got {other:?}"),
    }
}

#[test]
fn entries_are_judged_by_their_values_alone() {
    let root = || ProjectRoot::new("/home/dev/proj".to_string());
    let text = |t: &str| {
        Some(Entry {
            value: Held::Text(t.to_string()),
            rendered: format!("String({t:?})"),
        })
    };
    let flag = |on: bool| {
        Some(Entry {
            value: Held::Flag(on),
            rendered: format!("Boolean({on})"),
        })
    };
    let other = Some(Entry { value: Held::Other, rendered: "Integer(1)".to_string() });

    let made = Invocation::from_entries(
        root(),
        &text("gpu-box"),
        &flag(true),
        &None,
        Settings::default(),
        args(&["--release"]),
    )
    .unwrap();
    assert_eq!(made.host.as_str(), "gpu-box");
    assert_eq!(made.project_id.as_str(), "proj");
    assert!(made.settings.has(PULL) && !made.settings.has(SYMBOLS));
    assert_eq!(made.flags, args(&["--release"]));

    assert!(matches!(
        Invocation::from_entries(root(), &other, &None, &None, Settings::default(), vec![]),
        Err(InputError::MissingHost)
    ));
    assert!(matches!(
        Invocation::from_entries(root(), &text("h"), &other, &None, Settings::default(), vec![]),
        Err(InputError::BadSetting("pull", _))
    ));
    assert!(matches!(Settings::from_entries(&None, &text("x")), Err(InputError::BadSetting("pull-symbols", _))));
    assert_eq!(Settings::from_entries(&flag(false), &flag(false)).unwrap(), Settings::default());
}

#[test]
fn loading_folds_the_file_into_what_was_typed() {
    let typed = Settings::from_flags(&args(&["--mamba-pull"]));
    let invocation = load(
        ProjectRoot::new("/srv/app".to_string()),
        &Ok("host = \"box\"\npull = false\n".to_string()),
        typed,
        vec![],
    )
    .unwrap();

    assert!(invocation.settings.has(PULL));
    assert_eq!(invocation.clone(), invocation);
    assert_eq!(ProjectId::from_root(&invocation.root), invocation.project_id);
}

#[test]
fn merging_two_sets_is_a_union() {
    let pull = Settings::from_bits(1);
    let both = Settings::from_bits(2);

    assert_eq!((pull | Settings::default()).bits(), 1);
    assert_eq!((Settings::default() | both).bits(), 3);
    assert_eq!((pull | both).bits(), 3);
    assert_eq!((Settings::default() | Settings::default()).bits(), 0);
}

#[test]
fn stripping_keeps_everything_else_in_order() {
    assert_eq!(
        strip_flags(&args(&["--mamba-pull", "build", "a", "--mamba-pull-symbols", "--mamba-pullx", "a"])),
        args(&["build", "a", "--mamba-pullx", "a"])
    );
    assert_eq!(CONFIG_FILE, ".mamba.toml");
}
