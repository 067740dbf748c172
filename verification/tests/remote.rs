use mamba::config::RemoteDir;
use mamba::remote::{build, remote_command, rsync_args, sync, BuildOutcome};
use mamba::shell::Quoted;

/// The one word a POSIX shell makes of quoted text.
fn round_trip(arg: &str) -> String {
    let quoted = Quoted::new(arg);
    let mut word = String::new();
    let mut chars = quoted.as_str().chars();
    while let Some(c) = chars.next() {
        match c {
            '\'' => {
                for inner in chars.by_ref() {
                    if inner == '\'' {
                        break;
                    }
                    word.push(inner);
                }
            }
            '\\' => word.push(chars.next().expect("something must follow a backslash")),
            other => panic!("{other:?} stands outside quotes"),
        }
    }
    word
}

fn args_for(root: &str, host: &str, dir: &str) -> Vec<String> {
    rsync_args(root, host, &RemoteDir::new(dir).unwrap())
}

#[test]
fn plain_argument_is_unchanged_after_the_shell_sees_it() {
    assert_eq!(round_trip("--release"), "--release");
}

#[test]
fn spaces_survive() {
    assert_eq!(round_trip("--features foo bar"), "--features foo bar");
}

#[test]
fn single_quotes_survive() {
    assert_eq!(round_trip("it's"), "it's");
    assert_eq!(round_trip("'"), "'");
    assert_eq!(round_trip("a'b'c"), "a'b'c");
}

#[test]
fn shell_metacharacters_are_never_executed() {
    assert_eq!(round_trip("$(id)"), "$(id)");
    assert_eq!(round_trip("`id`"), "`id`");
    assert_eq!(round_trip("; rm -rf /"), "; rm -rf /");
    assert_eq!(round_trip("$HOME"), "$HOME");
    assert_eq!(round_trip("a|b&c"), "a|b&c");
}

#[test]
fn empty_argument_stays_a_single_empty_argument() {
    assert_eq!(Quoted::new("").as_str(), "''");
    assert_eq!(round_trip(""), "");
}

#[test]
fn a_quote_is_closed_escaped_and_reopened() {
    assert_eq!(Quoted::new("it's").as_str(), "'it'\\''s'");
    assert_eq!(Quoted::new("--features a b").as_str(), "'--features a b'");
    assert_eq!(Quoted::new("it's").clone(), Quoted::new("it's"));
}

#[test]
fn rsync_args_carry_both_filter_rules() {
    let args = args_for("/home/me/proj", "gpu-box", ".mamba/proj");

    assert!(args.contains(&"--filter=:- .gitignore".to_string()));
    assert!(args.contains(&"--filter=P /target/".to_string()));
    assert!(args.contains(&"--delete".to_string()));
    assert!(args.contains(&"--exclude=.git/".to_string()));
}

#[test]
fn rsync_source_has_a_trailing_slash_so_contents_are_copied_not_the_directory() {
    let args = args_for("/home/me/proj", "gpu-box", ".mamba/proj");
    assert!(args.contains(&"/home/me/proj/".to_string()), "got {args:?}");
}

#[test]
fn rsync_destination_is_host_colon_dir() {
    let args = args_for("/home/me/proj", "gpu-box", ".mamba/proj");
    assert!(args.contains(&"gpu-box:.mamba/proj/".to_string()), "got {args:?}");
}

#[test]
fn rsync_creates_the_remote_directory_before_transferring() {
    let args = args_for("/home/me/proj", "gpu-box", ".mamba/proj");
    assert!(
        args.iter()
            .any(|a| a.starts_with("--rsync-path=mkdir -p '.mamba/proj'")),
        "got {args:?}"
    );
}

#[test]
fn an_upload_is_exactly_this_command() {
    assert_eq!(
        args_for("/home/me/proj", "gpu-box", ".mamba/proj"),
        [
            "-az",
            "--delete",
            "--filter=:- .gitignore",
            "--filter=P /target/",
            "--exclude=.git/",
            "--rsync-path=mkdir -p '.mamba/proj' && rsync",
            "/home/me/proj/",
            "gpu-box:.mamba/proj/",
        ]
    );
}

#[test]
fn syncing_to_an_unreachable_host_reports_an_error_instead_of_panicking() {
    // What rsync says where ssh cannot resolve the host.
    assert!(sync(&Ok(Some(255))).is_err());
    assert_eq!(sync(&Ok(Some(255))), Err("rsync exited with 255".to_string()));
    assert_eq!(sync(&Ok(None)), Err("rsync was killed by a signal".to_string()));
    assert_eq!(sync(&Err("gone".to_string())), Err("could not run rsync: gone".to_string()));
    assert_eq!(sync(&Ok(Some(0))), Ok(()));
}

#[test]
fn remote_command_preserves_the_build_exit_code_across_the_post_build_step() {
    let dir = RemoteDir::new(".mamba/proj").unwrap();
    let cmd = remote_command(&dir, &[], "echo split");

    // rc is captured immediately after cargo and re-exited at the end, so a
    // compile failure stays a compile failure no matter what the split step does.
    assert!(cmd.contains("rc=$?"), "got {cmd}");
    assert!(
        cmd.contains("if [ $rc -eq 0 ]; then echo split; fi"),
        "got {cmd}"
    );
    assert!(cmd.ends_with("exit $rc"), "got {cmd}");
}

#[test]
fn remote_command_without_a_post_build_step_is_unchanged() {
    let dir = RemoteDir::new(".mamba/proj").unwrap();
    let cmd = remote_command(&dir, &[], "");

    assert_eq!(
        cmd,
        ". \"$HOME/.cargo/env\" 2>/dev/null; cd '.mamba/proj' && CARGO_TERM_COLOR=always cargo build"
    );
}

#[test]
fn remote_command_sources_cargo_env_before_anything_else() {
    let dir = RemoteDir::new(".mamba/proj").unwrap();
    let cmd = remote_command(&dir, &[], "");

    assert!(
        cmd.starts_with(". \"$HOME/.cargo/env\" 2>/dev/null; "),
        "got {cmd}"
    );
}

#[test]
fn remote_command_changes_directory_and_forces_colour() {
    let dir = RemoteDir::new(".mamba/proj").unwrap();
    let cmd = remote_command(&dir, &[], "");

    assert_eq!(
        cmd,
        ". \"$HOME/.cargo/env\" 2>/dev/null; cd '.mamba/proj' && CARGO_TERM_COLOR=always cargo build"
    );
}

#[test]
fn remote_command_appends_every_forwarded_flag_quoted() {
    let dir = RemoteDir::new(".mamba/proj").unwrap();
    let args = [
        Quoted::new("--release"),
        Quoted::new("--features"),
        Quoted::new("a b"),
    ];

    let cmd = remote_command(&dir, &args, "");

    assert_eq!(
        cmd,
        ". \"$HOME/.cargo/env\" 2>/dev/null; cd '.mamba/proj' && CARGO_TERM_COLOR=always cargo build '--release' '--features' 'a b'"
    );
}

#[test]
fn remote_command_cannot_be_hijacked_by_a_malicious_flag() {
    let dir = RemoteDir::new(".mamba/proj").unwrap();
    let cmd = remote_command(&dir, &[Quoted::new("; rm -rf ~")], "");

    // The whole thing stays one quoted argument to cargo.
    assert!(cmd.ends_with("cargo build '; rm -rf ~'"), "got {cmd}");
}

#[test]
fn an_unreachable_host_is_reported_as_unreachable_not_as_a_failed_build() {
    // What ssh says where it cannot resolve the host.
    match build(&Ok(Some(255))) {
        BuildOutcome::Unreachable(why) => assert_eq!(why, "ssh could not connect"),
        BuildOutcome::Finished(code) => panic!("expected Unreachable, got Finished({code})"),
    }
    match build(&Err("not found".to_string())) {
        BuildOutcome::Unreachable(why) => assert_eq!(why, "could not run ssh: not found"),
        BuildOutcome::Finished(code) => panic!("expected Unreachable, got Finished({code})"),
    }
}

#[test]
fn every_other_status_is_the_builds_own() {
    assert!(matches!(build(&Ok(Some(0))), BuildOutcome::Finished(0)));
    assert!(matches!(build(&Ok(Some(101))), BuildOutcome::Finished(101)));
    assert!(matches!(build(&Ok(None)), BuildOutcome::Finished(130)));
}
