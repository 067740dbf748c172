use mamba::proto::{Kind, TransferTarget};
use mamba::transfer::{
    fetch, fetch_args, needed_dir, push, push_args, remote_spec, ssh_control_args,
};

const HOME: Option<&str> = Some("/home/dev");
const ROOT: &str = "/home/dev/proj";

fn target(host: &str, path: &str, rel: &str) -> TransferTarget {
    TransferTarget {
        host: host.to_string(),
        port: 22,
        user: String::new(),
        path: path.to_string(),
        relative_path: rel.to_string(),
    }
}

#[test]
fn the_control_path_stays_under_the_sockaddr_un_limit() {
    let joined = ssh_control_args(HOME, 22).join(" ");
    let path = joined
        .split("ControlPath=")
        .nth(1)
        .and_then(|s| s.split_whitespace().next())
        .expect("a ControlPath must be set");

    // %C expands to a 40-character hash; sockaddr_un caps the whole path at 108.
    assert!(
        path.replace("%C", &"x".repeat(40)).len() < 108,
        "ControlPath would overflow sockaddr_un: {path}"
    );
}

#[test]
fn a_fetch_reads_the_targets_path_and_writes_the_relative_one() {
    let t = target(
        "worker-7",
        ".mamba/proj/target/debug/app.slim",
        "target/debug/app",
    );

    let (args, local) = fetch_args(HOME, ROOT, &t, Kind::Binary);

    assert!(
        args.iter()
            .any(|a| a == "worker-7:.mamba/proj/target/debug/app.slim"),
        "the remote side must come verbatim from the target: {args:?}"
    );
    assert_eq!(local, "/home/dev/proj/target/debug/app");
}

#[test]
fn a_target_on_a_different_host_than_the_control_endpoint_is_obeyed() {
    // The property that keeps the client topology-agnostic: whatever the far side
    // says, the client uses. It must never substitute the host it was configured with.
    let t = target(
        "some-other-worker",
        "/elsewhere/app.slim",
        "target/debug/app",
    );

    let (args, _) = fetch_args(HOME, ROOT, &t, Kind::Binary);

    assert!(args.iter().any(|a| a.contains("some-other-worker")));
}

#[test]
fn a_nonstandard_port_reaches_the_ssh_command_line() {
    // The contract the other tests advertise, that the client obeys the target exactly,
    // has to hold for the port, or a server advertising one is silently ignored.
    let mut t = target("h", "/p", "target/debug/app");
    t.port = 2222;

    let (args, _) = fetch_args(HOME, ROOT, &t, Kind::Binary);

    assert!(
        args.iter().any(|a| a.contains("-p 2222")),
        "port 2222 must appear in the -e ssh line: {args:?}"
    );
}

#[test]
fn the_default_port_stays_off_the_command_line() {
    // Port 22 is what ssh does anyway, and omitting it keeps ~/.ssh/config free to
    // override the port for aliases; an explicit -p 22 would clobber that.
    let t = target("h", "/p", "target/debug/app");

    let (args, _) = fetch_args(HOME, ROOT, &t, Kind::Binary);

    assert!(
        !args.iter().any(|a| a.contains("-p ")),
        "the default port must not be forced: {args:?}"
    );
}

#[test]
fn a_user_is_included_only_when_the_target_names_one() {
    let (bare, _) = fetch_args(HOME, ROOT, &target("h", "/p", "target/debug/app"), Kind::Binary);
    assert!(bare.iter().any(|a| a == "h:/p"));

    let mut with_user = target("h", "/p", "target/debug/app");
    with_user.user = "ubuntu".to_string();
    let (named, _) = fetch_args(HOME, ROOT, &with_user, Kind::Binary);
    assert!(named.iter().any(|a| a == "ubuntu@h:/p"));
    assert_eq!(remote_spec(&with_user), "ubuntu@h:/p");
}

#[test]
fn proc_macros_take_only_dylibs_and_generated_source_only_rust_files() {
    let (macros, _) = fetch_args(
        HOME,
        ROOT,
        &target("h", "/d", "target/debug/deps"),
        Kind::ProcMacros,
    );
    let wanted = macros.iter().position(|a| a == "--include=*.so").unwrap();
    let rest = macros.iter().position(|a| a == "--exclude=*").unwrap();
    assert!(
        wanted < rest,
        "the include must come first or rsync copies everything"
    );

    let (generated, _) = fetch_args(
        HOME,
        ROOT,
        &target("h", "/b", "target/debug/build"),
        Kind::GeneratedSource,
    );
    assert!(generated.contains(&"--include=*/".to_string()));
    assert!(generated.contains(&"--include=*.rs".to_string()));
    assert!(generated.contains(&"--prune-empty-dirs".to_string()));
}

#[test]
fn a_push_protects_the_receivers_target_directory() {
    let args = push_args(HOME, ROOT, &target("h", ".mamba/proj", ""));

    assert!(args.contains(&"--filter=P /target/".to_string()));
    assert!(args.contains(&"--filter=:- .gitignore".to_string()));
    assert!(args.contains(&"--delete".to_string()));
    assert!(
        args.iter().any(|a| a.starts_with("--rsync-path=mkdir -p")),
        "a project's first push must create its directory: {args:?}"
    );
}

#[test]
fn a_push_is_exactly_this_command() {
    assert_eq!(
        push_args(HOME, ROOT, &target("h", ".mamba/proj", "")),
        [
            "-az",
            "--delete",
            "--filter=:- .gitignore",
            "--filter=P /target/",
            "--exclude=.git/",
            "--rsync-path=mkdir -p '.mamba/proj' && rsync",
            "-e",
            "ssh -o ControlMaster=auto -o ControlPath=/home/dev/.mamba/cm-%C -o ControlPersist=600",
            "/home/dev/proj/",
            "h:.mamba/proj/",
        ]
    );
}

#[test]
fn fetches_are_exactly_these_commands() {
    let ssh = "ssh -o ControlMaster=auto -o ControlPath=/tmp/.mamba/cm-%C -o ControlPersist=600";
    assert_eq!(
        fetch_args(None, "/p", &target("h", "/d", "target/debug/deps"), Kind::ProcMacros).0,
        ["-az", "--include=*.so", "--exclude=*", "-e", ssh, "h:/d/", "/p/target/debug/deps"]
    );
    assert_eq!(
        fetch_args(None, "/p", &target("h", "/b", "target/debug/build"), Kind::GeneratedSource).0,
        [
            "-az",
            "--include=*/",
            "--include=*.rs",
            "--exclude=*",
            "--prune-empty-dirs",
            "-e",
            ssh,
            "h:/b/",
            "/p/target/debug/build",
        ]
    );
    let mut odd = target("h", "/a.slim", "target/debug/a");
    odd.port = 2222;
    assert_eq!(
        fetch_args(None, "/p", &odd, Kind::Binary).0,
        ["-az", "-e", &format!("{ssh} -p 2222"), "h:/a.slim", "/p/target/debug/a"]
    );
    odd.port = 0;
    assert_eq!(fetch_args(None, "/p", &odd, Kind::Symbols).0[2], ssh);
}

#[test]
fn rsyncs_end_becomes_a_message() {
    assert_eq!(push(&Ok(Some(0))), Ok(()));
    assert_eq!(push(&Ok(Some(23))), Err("rsync exited with 23".to_string()));
    assert_eq!(push(&Ok(Some(-1))), Err("rsync exited with -1".to_string()));
    assert_eq!(push(&Ok(None)), Err("rsync was killed by a signal".to_string()));
    assert_eq!(
        push(&Err("not found".to_string())),
        Err("could not run rsync: not found".to_string())
    );
}

#[test]
fn a_fetch_needs_its_directory_before_it_runs() {
    let local = "/home/dev/proj/target/debug/app";
    assert_eq!(needed_dir(local, Kind::Binary), Some("/home/dev/proj/target/debug".to_string()));
    assert_eq!(needed_dir(local, Kind::ProcMacros), Some(local.to_string()));
    assert_eq!(needed_dir("/", Kind::Binary), None);

    assert_eq!(fetch(local, Kind::Binary, &Ok(()), &Ok(Some(0))), Ok(local.to_string()));
    assert_eq!(
        fetch(local, Kind::Binary, &Err("read-only".to_string()), &Ok(Some(0))),
        Err("could not create /home/dev/proj/target/debug: read-only".to_string())
    );
    assert_eq!(
        fetch(local, Kind::Symbols, &Ok(()), &Ok(Some(12))),
        Err("rsync exited with 12".to_string())
    );
}
