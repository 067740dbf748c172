use mamba::config::{Config, ConfigError, Host, RemoteDir, CONFIG_FILE};
use mamba::document::{Entry, Held};
use mamba::paths::ancestors;

/// What a search that starts at `start` finds, where the config files are these.
fn disk(start: &str, files: &[(&str, &str)]) -> Vec<Option<Result<String, String>>> {
    ancestors(start)
        .iter()
        .map(|dir| {
            files
                .iter()
                .find(|(at, _)| at == dir)
                .map(|(_, text)| Ok(text.to_string()))
        })
        .collect()
}

/// What is discovered in a directory with this config file.
fn discover(contents: &str) -> Result<Config, ConfigError> {
    let dir = "/home/dev/proj";
    Config::discover(dir, &disk(dir, &[(dir, contents)])).unwrap()
}

#[test]
fn config_host_accepts_plain_and_user_at_host() {
    assert_eq!(Host::new("gpu-box").unwrap().as_str(), "gpu-box");
    assert_eq!(Host::new("sura@10.0.0.4").unwrap().as_str(), "sura@10.0.0.4");
    assert_eq!(Host::new("build_1.lan").unwrap().as_str(), "build_1.lan");
}

#[test]
fn config_host_rejects_shell_metacharacters_and_empty() {
    for bad in ["", "host; rm -rf /", "host $(id)", "host name", "a`b`", "h|c", "x'y"] {
        assert!(Host::new(bad).is_err(), "should have rejected {bad:?}");
    }
}

#[test]
fn remote_dir_rejects_empty_and_single_quote() {
    assert!(RemoteDir::new("").is_err());
    assert!(RemoteDir::new("a'b").is_err());
    assert_eq!(RemoteDir::new(".mamba/x").unwrap().as_str(), ".mamba/x");
}

#[test]
fn discover_finds_config_in_the_starting_directory() {
    let config = discover("host = \"gpu-box\"\n").unwrap();

    assert_eq!(config.host.as_str(), "gpu-box");
    assert_eq!(config.root.as_path(), "/home/dev/proj");
}

#[test]
fn discover_walks_up_to_a_parent() {
    let nested = "/home/dev/proj/crates/inner/src";
    let files = disk(nested, &[("/home/dev/proj", "host = \"gpu-box\"\n")]);

    let config = Config::discover(nested, &files).unwrap().unwrap();

    assert_eq!(config.root.as_path(), "/home/dev/proj");
}

#[test]
fn discover_returns_none_when_no_config_exists_anywhere_above() {
    assert!(Config::discover("/tmp/discover-none", &disk("/tmp/discover-none", &[])).is_none());
}

#[test]
fn default_remote_dir_is_dot_mamba_plus_directory_name() {
    let root = "/tmp/default-dir/myproject";

    let config = Config::discover(root, &disk(root, &[(root, "host = \"gpu-box\"\n")]))
        .unwrap()
        .unwrap();

    assert_eq!(config.remote_dir.as_str(), ".mamba/myproject");
}

#[test]
fn explicit_remote_dir_overrides_the_default() {
    let config =
        discover("host = \"gpu-box\"\n# a comment\nremote_dir = \"builds/thing\"\n").unwrap();

    assert_eq!(config.remote_dir.as_str(), "builds/thing");
}

#[test]
fn missing_host_is_an_error_not_a_silent_pass() {
    assert!(discover("remote_dir = \"x\"\n").is_err());
}

#[test]
fn malformed_toml_is_an_error() {
    assert!(discover("host = \n").is_err());
}

#[test]
fn host_of_the_wrong_type_is_an_error() {
    assert!(discover("host = 42\n").is_err());
}

#[test]
fn pull_defaults_to_false_when_absent() {
    let config = discover("host = \"gpu-box\"\n").unwrap();

    assert!(!config.pull);
}

#[test]
fn explicit_pull_true_is_honoured() {
    let config = discover("host = \"gpu-box\"\npull = true\n").unwrap();

    assert!(config.pull);
}

#[test]
fn explicit_pull_false_is_honoured() {
    let config = discover("host = \"gpu-box\"\npull = false\n").unwrap();

    assert!(!config.pull);
}

#[test]
fn pull_of_the_wrong_type_is_an_error() {
    assert!(discover("host = \"gpu-box\"\npull = \"yes\"\n").is_err());
}

#[test]
fn symbols_in_a_config_file_bring_the_binary_with_them() {
    let config = discover("host = \"gpu-box\"\npull-symbols = true\n").unwrap();

    assert!(config.symbols);
    assert!(config.pull);
    assert!(!discover("host = \"gpu-box\"\npull = true\n").unwrap().symbols);
}

#[test]
fn every_config_error_says_what_is_wrong() {
    let message = |contents: &str| discover(contents).unwrap_err().message();

    assert_eq!(
        message("remote_dir = \"x\"\n"),
        ".mamba.toml needs a `host` key, for example: host = \"gpu-box\""
    );
    assert_eq!(
        message("host = \"a b\"\n"),
        "host \"a b\" is not a plain ssh destination (letters, digits, . - _ @ only)"
    );
    assert_eq!(
        message("host = \"h\"\nremote_dir = \"a'b\"\n"),
        "remote_dir \"a'b\" is empty or contains a quote"
    );
    assert_eq!(
        message("host = \"h\"\npull = \"yes\"\n"),
        "pull must be true or false, got String(\"yes\")"
    );
    assert_eq!(
        message("host = \"h\"\npull-symbols = 1\n"),
        "pull-symbols must be true or false, got Integer(1)"
    );
    assert!(message("host = \n").starts_with("/home/dev/proj/.mamba.toml is not valid TOML: "));

    let unreadable = Config::discover("/p", &[Some(Err("denied".to_string()))]);
    assert_eq!(
        unreadable.unwrap().unwrap_err().message(),
        "cannot read /p/.mamba.toml: denied"
    );
    assert_eq!(CONFIG_FILE, ".mamba.toml");
}

#[test]
fn a_directory_with_a_quote_in_its_name_needs_a_remote_dir() {
    let root = "/home/dev/it's";
    let found = |text: &str| Config::discover(root, &disk(root, &[(root, text)])).unwrap();

    assert!(matches!(
        found("host = \"h\"\n"),
        Err(ConfigError::BadRemoteDir(dir)) if dir == ".mamba/it's"
    ));
    assert!(found("host = \"h\"\nremote_dir = \"its\"\n").is_ok());
    assert_eq!(discover("host = \"h\"\nremote_dir = 3\n").unwrap().remote_dir.as_str(), ".mamba/proj");
}

#[test]
fn config_entries_are_judged_in_order() {
    let text = |t: &str| {
        Some(Entry {
            value: Held::Text(t.to_string()),
            rendered: format!("String({t:?})"),
        })
    };
    let other = Some(Entry { value: Held::Other, rendered: "Integer(1)".to_string() });

    assert!(matches!(
        Config::from_entries("/p", &None, &text("a'b"), &other, &other),
        Err(ConfigError::MissingHost)
    ));
    assert!(matches!(
        Config::from_entries("/p", &text("h"), &text("a'b"), &other, &other),
        Err(ConfigError::BadRemoteDir(_))
    ));
    assert!(matches!(
        Config::from_entries("/p", &text("h"), &None, &other, &other),
        Err(ConfigError::BadPull(shown)) if shown == "Integer(1)"
    ));
    assert!(matches!(
        Config::from_entries("/p", &text("h"), &None, &None, &other),
        Err(ConfigError::BadSymbols(_))
    ));
    let config = Config::from_entries("/p", &text("h"), &None, &None, &None).unwrap();
    assert_eq!(config.remote_dir.as_str(), ".mamba/p");
    assert_eq!(Config::load("/", &Ok("host = \"h\"\n".to_string())).unwrap().remote_dir.as_str(), ".mamba/project");
}
