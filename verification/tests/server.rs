use mamba::server::{configure, parse_port};

fn args(list: &[&str]) -> Vec<String> {
    list.iter().map(|s| s.to_string()).collect()
}

#[test]
fn a_server_that_is_told_nothing_serves_the_home_directory() {
    let config = configure(Some("/home/dev"), Some("dev"), &[]).unwrap();
    assert_eq!(config.root, "/home/dev/.mamba/projects");
    assert_eq!(config.port, 7777);
    assert_eq!(config.advertise_host, "localhost");
    assert_eq!(config.advertise_user, "dev");

    let bare = configure(None, None, &[]).unwrap();
    assert_eq!(bare.root, "./.mamba/projects");
    assert_eq!(bare.advertise_user, "root");
}

#[test]
fn every_flag_is_obeyed_and_the_later_one_counts() {
    let config = configure(
        None,
        None,
        &args(&[
            "--root",
            "/srv",
            "--port",
            "1",
            "--advertise-host",
            "gpu-box",
            "--advertise-user",
            "ubuntu",
            "--port",
            "8080",
        ]),
    )
    .unwrap();
    assert_eq!(config.root, "/srv");
    assert_eq!(config.port, 8080);
    assert_eq!(config.advertise_host, "gpu-box");
    assert_eq!(config.advertise_user, "ubuntu");
    assert_eq!(config.address(), "0.0.0.0:8080");
    assert_eq!(config.greeting(), "mamba-server: serving /srv on 0.0.0.0:8080");
}

#[test]
fn every_wrong_server_flag_is_refused() {
    let refused = |list: &[&str]| configure(None, None, &args(list)).unwrap_err();

    assert_eq!(refused(&["--root"]), "--root needs a path");
    assert_eq!(refused(&["--port"]), "--port needs a number");
    assert_eq!(refused(&["--advertise-host"]), "--advertise-host needs a name");
    assert_eq!(refused(&["--advertise-user"]), "--advertise-user needs a name");
    assert_eq!(refused(&["--verbose", "x"]), "unknown flag --verbose");
    assert_eq!(refused(&["--port", "x", "--bogus"]), "invalid digit found in string");
}

#[test]
fn ports_are_read_the_way_std_reads_them() {
    for text in [
        "0", "7777", "65535", "65536", "99999999999", "", "+", "+1", "++1", "-1", "-", "1x", "x", " 1",
        "00080", "65536x", "6553x6", "655360x", "٣",
    ] {
        let expected = text.parse::<u16>().map_err(|e| e.to_string());
        assert_eq!(parse_port(text), expected, "of {text:?}");
    }
}
