use mamba::input::{ProjectId, ProjectRoot};
use mamba::layout::SplitRun;
use mamba::proto::{Kind, Payload};
use mamba::shell::Quoted;
use mamba::ssh::{
    build_command, exit_event, line_event, unstarted, Origin, Relay, SshControlChannel,
};

/// The words a POSIX shell makes of a line of single-quoted, backslashed and ordinary text.
fn words(line: &str) -> Vec<String> {
    let mut all = Vec::new();
    let mut word: Option<String> = None;
    let mut chars = line.chars();
    while let Some(c) = chars.next() {
        match c {
            ' ' => all.extend(word.take()),
            '\'' => {
                let held = word.get_or_insert_with(String::new);
                for inner in chars.by_ref() {
                    if inner == '\'' {
                        break;
                    }
                    held.push(inner);
                }
            }
            '\\' => {
                let next = chars.next().expect("something must follow a backslash");
                word.get_or_insert_with(String::new).push(next);
            }
            other => word.get_or_insert_with(String::new).push(other),
        }
    }
    all.extend(word);
    all
}

fn nothing() -> Result<String, String> {
    Err("not read".to_string())
}

#[test]
fn quoting_survives_spaces_quotes_and_metacharacters() {
    for raw in [
        "plain",
        "--features a b",
        "it's",
        "$(id)",
        "a`b`",
        "x;rm -rf /",
        "",
    ] {
        assert_eq!(
            words(Quoted::new(raw).as_str()),
            vec![raw.to_string()],
            "quoting changed {raw:?}"
        );
    }
}

#[test]
fn an_upload_target_points_at_the_configured_host_by_convention() {
    let ssh = SshControlChannel::new("gpu-box");

    let t = ssh.request_upload("myproj").unwrap();

    assert_eq!(t.host, "gpu-box");
    assert_eq!(t.path, ".mamba/myproj");
    assert!(t.user.is_empty(), "the ssh config decides the user, not us");
}

#[test]
fn artifact_paths_follow_the_profile_of_the_last_build() {
    let mut ssh = SshControlChannel::new("gpu-box");
    ssh.remember("myproj", &["--release".to_string()], "/home/dev/proj");

    let t = ssh
        .request_artifact("myproj", Kind::ProcMacros, &nothing(), &SplitRun::Succeeded)
        .unwrap();

    assert_eq!(t.relative_path, "target/release/deps");
    assert_eq!(t.path, ".mamba/myproj/target/release/deps");
}

#[test]
fn two_projects_on_one_channel_keep_their_own_build_memory() {
    // The daemon caches one channel per host and serves builds concurrently, so two projects
    // interleave on the same channel. Project B building must not make project A's artifact
    // request resolve with B's profile.
    let mut ssh = SshControlChannel::new("gpu-box");
    ssh.remember("proj-a", &["--release".to_string()], "/home/dev/a");
    ssh.remember("proj-b", &[], "/home/dev/b");

    let a = ssh
        .request_artifact("proj-a", Kind::ProcMacros, &nothing(), &SplitRun::Succeeded)
        .unwrap();
    let b = ssh
        .request_artifact("proj-b", Kind::ProcMacros, &nothing(), &SplitRun::Succeeded)
        .unwrap();

    assert_eq!(a.relative_path, "target/release/deps", "A built --release");
    assert_eq!(b.relative_path, "target/debug/deps", "B built plain debug");
}

#[test]
fn the_build_command_sources_cargo_env_and_forces_colour() {
    let command = build_command(".mamba/proj", "/home/dev/proj", &["--release".to_string()]);

    assert!(
        command.contains(".cargo/env"),
        "a non-interactive shell has no cargo on PATH"
    );
    assert!(command.contains("CARGO_TERM_COLOR=always"));
    assert!(command.contains("--remap-path-prefix=$PWD="));
    assert!(
        command.contains("'--release'"),
        "flags must reach cargo quoted: {command}"
    );
}

#[test]
fn the_build_command_is_exactly_this_line() {
    assert_eq!(
        build_command(".mamba/proj", "/home/dev/proj", &["--release".to_string()]),
        ". \"$HOME/.cargo/env\" 2>/dev/null; cd '.mamba/proj' && \
         RUSTFLAGS=\"--remap-path-prefix=$PWD=\"'/home/dev/proj' CARGO_TERM_COLOR=always \
         cargo build '--release'"
    );
}

#[test]
fn starting_a_build_is_remembered() {
    let mut ssh = SshControlChannel::new("gpu-box");
    let command = ssh.start_build("proj", &["--release".to_string()], "/home/dev/proj");

    assert_eq!(
        command,
        build_command(".mamba/proj", "/home/dev/proj", &["--release".to_string()])
    );
    assert_eq!(ssh.host(), "gpu-box");
    assert_eq!(ssh.last_args("proj"), vec!["--release".to_string()]);
    assert_eq!(ssh.last_root("proj"), "/home/dev/proj");
    assert_eq!(ssh.last_root("other"), "");
    assert!(ssh.last_args("other").is_empty());
}

#[test]
fn the_binary_is_split_where_it_is_and_named_after_the_clients_package() {
    let mut ssh = SshControlChannel::new("gpu-box");
    ssh.remember("proj", &["--release".to_string()], "/home/dev/proj");
    let manifest = Ok("[package]\nname = \"app\"\n".to_string());

    let script = ssh.split_command("proj", Kind::Binary, &manifest).unwrap().unwrap();
    assert!(
        script.starts_with("cd '.mamba/proj' && b=target/release/app; objcopy "),
        "got {script}"
    );
    assert!(ssh.split_command("proj", Kind::Symbols, &manifest).unwrap().is_none());

    let t = ssh
        .request_artifact("proj", Kind::Binary, &manifest, &SplitRun::Succeeded)
        .unwrap();
    assert_eq!(t.path, ".mamba/proj/target/release/app.slim");
    assert_eq!(t.relative_path, "target/release/app");

    let failed = SplitRun::Ended("exit status: 2".to_string());
    assert_eq!(
        ssh.request_artifact("proj", Kind::Binary, &manifest, &failed).unwrap_err().0,
        "splitting debug info failed with exit status: 2"
    );
    let unstarted = SplitRun::Unstarted("no ssh".to_string());
    assert_eq!(
        ssh.request_artifact("proj", Kind::Binary, &manifest, &unstarted).unwrap_err().0,
        "could not run the split: no ssh"
    );
    assert_eq!(
        ssh.split_command("proj", Kind::Binary, &nothing()).unwrap_err().0,
        "could not read /home/dev/proj/Cargo.toml: not read"
    );
}

#[test]
fn a_line_of_output_is_passed_on_with_its_newline() {
    assert_eq!(
        line_event(Origin::Stdout, "hi").payload,
        Some(Payload::Stdout(b"hi\n".to_vec()))
    );
    assert_eq!(
        line_event(Origin::Stderr, "").payload,
        Some(Payload::Stderr(b"\n".to_vec()))
    );
}

#[test]
fn only_sshs_own_failure_is_an_error() {
    assert_eq!(exit_event(&Ok(Some(101))).unwrap().payload, Some(Payload::ExitCode(101)));
    assert_eq!(exit_event(&Ok(Some(0))).unwrap().payload, Some(Payload::ExitCode(0)));
    assert_eq!(exit_event(&Ok(None)).unwrap().payload, Some(Payload::ExitCode(130)));
    assert_eq!(exit_event(&Ok(Some(255))).unwrap_err().0, "ssh could not connect");
    assert_eq!(exit_event(&Err("gone".to_string())).unwrap_err().0, "ssh failed: gone");
    assert_eq!(unstarted("not found").0, "could not run ssh: not found");
}

#[test]
fn projects_with_the_same_directory_name_share_a_remote_directory() {
    let ssh = SshControlChannel::new("gpu-box");
    let dir = |root: &str| {
        let id = ProjectId::from_root(&ProjectRoot::new(root.to_string()));
        ssh.request_upload(id.as_str()).unwrap().path
    };

    assert_eq!(dir("/home/dev/app"), ".mamba/app");
    assert_eq!(dir("/srv/other/app/"), ".mamba/app");
}

#[test]
fn a_builds_end_is_reported_after_both_its_streams() {
    let mut relay = Relay::new();
    assert!(relay.listens_to(Origin::Stdout) && relay.listens_to(Origin::Stderr));

    let event = relay.read(Origin::Stderr, Some("   Compiling app")).unwrap();
    assert_eq!(event.payload, Some(Payload::Stderr(b"   Compiling app\n".to_vec())));
    assert!(relay.read(Origin::Stdout, None).is_none());
    assert!(!relay.listens_to(Origin::Stdout) && relay.listens_to(Origin::Stderr));
    assert!(!relay.is_drained());
    relay.close(Origin::Stderr);
    assert!(relay.is_drained());

    let last = relay.finish(&Ok(Some(0))).unwrap();
    assert_eq!(last.payload, Some(Payload::ExitCode(0)));
}
