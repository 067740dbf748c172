use mamba::artifact::{
    generated_source_args, proc_macro_args, profile_of, pull, pull_args, pull_symbols,
    split_command, symbols_args, sync_generated_source, sync_proc_macros,
};
use mamba::config::Config;
use mamba::layout::binary_name;

const ROOT: &str = "/home/dev/widget";

fn config() -> Config {
    let files = [Some(Ok(
        "host = \"gpu-box\"\nremote_dir = \".mamba/widget\"\n".to_string()
    ))];
    Config::discover(ROOT, &files).unwrap().unwrap()
}

fn manifest() -> Result<String, String> {
    Ok("[package]\nname = \"widget\"\nversion = \"0.1.0\"\n".to_string())
}

#[test]
fn split_command_produces_slim_and_debug_beside_the_binary() {
    let cmd = split_command("debug", "widget");

    assert!(cmd.contains("target/debug/widget"), "got {cmd}");
    assert!(cmd.contains("--only-keep-debug"), "got {cmd}");
    assert!(cmd.contains("--strip-debug"), "got {cmd}");
    assert!(cmd.contains("--add-gnu-debuglink="), "got {cmd}");
}

#[test]
fn split_command_falls_back_to_a_plain_copy_when_binutils_are_missing() {
    let cmd = split_command("release", "widget");

    // The `|| cp` tail is what guarantees <bin>.slim always exists, so the
    // puller never has to probe for which name to fetch.
    assert!(cmd.contains("|| cp "), "got {cmd}");
}

#[test]
fn binary_name_reads_the_package_name_from_cargo_toml() {
    assert_eq!(binary_name(ROOT, &manifest()).unwrap(), "widget");
}

#[test]
fn binary_name_errors_when_cargo_toml_is_missing() {
    assert!(binary_name(ROOT, &Err("No such file or directory".to_string())).is_err());
}

#[test]
fn pull_args_uses_debug_profile_by_default() {
    let (args, local) = pull_args(&config(), "widget", &[]);

    assert!(local.ends_with("target/debug/widget"), "got {local:?}");
    assert!(
        args.contains(&"gpu-box:.mamba/widget/target/debug/widget.slim".to_string()),
        "got {args:?}"
    );
}

#[test]
fn pull_fetches_the_slim_binary_but_lands_it_at_the_plain_local_path() {
    let (args, local) = pull_args(&config(), "widget", &[]);

    assert!(
        args.contains(&"gpu-box:.mamba/widget/target/debug/widget.slim".to_string()),
        "remote side should fetch the slim file, got {args:?}"
    );
    assert!(
        local.ends_with("target/debug/widget"),
        "local side must be the plain name cargo would have written, got {local:?}"
    );
}

#[test]
fn pull_symbols_fetches_the_debug_file_next_to_the_binary() {
    let (args, local) = symbols_args(&config(), "widget", &[]);

    assert!(
        args.contains(&"gpu-box:.mamba/widget/target/debug/widget.debug".to_string()),
        "got {args:?}"
    );
    // The debuglink recorded on the host stores a bare filename, so the symbol
    // file has to sit in the same directory as the binary for gdb to find it.
    assert!(
        local.ends_with("target/debug/widget.debug"),
        "got {local:?}"
    );
}

#[test]
fn pull_args_uses_release_profile_when_flagged() {
    let (_, local) = pull_args(&config(), "widget", &["--release".to_string()]);

    assert!(local.ends_with("target/release/widget"), "got {local:?}");
}

#[test]
fn proc_macro_sync_takes_only_shared_objects_from_deps() {
    let (args, local) = proc_macro_args(&config(), &[]);

    assert!(args.contains(&"--include=*.so".to_string()), "got {args:?}");
    assert!(args.contains(&"--exclude=*".to_string()), "got {args:?}");
    assert!(
        args.contains(&"gpu-box:.mamba/widget/target/debug/deps/".to_string()),
        "got {args:?}"
    );
    assert!(local.ends_with("target/debug/deps"), "got {local:?}");
}

#[test]
fn generated_source_args_point_at_the_build_directory() {
    let (args, local) = generated_source_args(&config(), &["--release".to_string()]);

    assert!(
        args.contains(&"--prune-empty-dirs".to_string()),
        "got {args:?}"
    );
    assert!(
        args.contains(&"gpu-box:.mamba/widget/target/release/build/".to_string()),
        "got {args:?}"
    );
    assert!(local.ends_with("target/release/build"), "got {local:?}");
}

#[test]
fn downloads_are_exactly_these_commands() {
    assert_eq!(
        pull_args(&config(), "widget", &[]).0,
        [
            "-az",
            "gpu-box:.mamba/widget/target/debug/widget.slim",
            "/home/dev/widget/target/debug/widget",
        ]
    );
    assert_eq!(
        proc_macro_args(&config(), &[]).0,
        [
            "-az",
            "--include=*.so",
            "--exclude=*",
            "gpu-box:.mamba/widget/target/debug/deps/",
            "/home/dev/widget/target/debug/deps",
        ]
    );
    assert_eq!(
        generated_source_args(&config(), &[]).0,
        [
            "-az",
            "--include=*/",
            "--include=*.rs",
            "--exclude=*",
            "--prune-empty-dirs",
            "gpu-box:.mamba/widget/target/debug/build/",
            "/home/dev/widget/target/debug/build",
        ]
    );
    assert_eq!(profile_of(&["--profile=bench".to_string()]), "debug");
}

#[test]
fn a_pull_tells_where_the_binary_landed_or_what_went_wrong() {
    let (config, none) = (config(), [] as [String; 0]);
    let made = Ok(());

    assert_eq!(
        pull(&config, &none, &manifest(), &made, &Ok(Some(0))),
        Ok("/home/dev/widget/target/debug/widget".to_string())
    );
    assert_eq!(
        pull(&config, &none, &Err("gone".to_string()), &made, &Ok(Some(0))),
        Err("could not read /home/dev/widget/Cargo.toml: gone".to_string())
    );
    assert_eq!(
        pull(&config, &none, &manifest(), &Err("full".to_string()), &Ok(Some(0))),
        Err("could not create /home/dev/widget/target/debug: full".to_string())
    );
    assert_eq!(
        pull(&config, &none, &manifest(), &made, &Ok(Some(23))),
        Err("rsync exited with 23".to_string())
    );
    assert_eq!(
        pull_symbols(&config, &none, &manifest(), &made, &Ok(Some(0))),
        Ok("/home/dev/widget/target/debug/widget.debug".to_string())
    );
    assert_eq!(
        pull_symbols(&config, &none, &manifest(), &made, &Ok(None)),
        Err("rsync was killed by a signal".to_string())
    );
    assert_eq!(
        sync_generated_source(&config, &none, &made, &Ok(Some(0))),
        Ok(())
    );
    assert_eq!(
        sync_generated_source(&config, &none, &Err("full".to_string()), &Ok(Some(0))),
        Err("could not create /home/dev/widget/target/debug/build: full".to_string())
    );
}

#[test]
fn only_shared_objects_are_counted() {
    let config = config();
    let names = |list: &[&str]| Some(list.iter().map(|n| n.to_string()).collect::<Vec<_>>());
    let count = |listing| sync_proc_macros(&config, &[], &Ok(()), &Ok(Some(0)), &listing);

    assert_eq!(
        count(names(&["libserde_derive-abc.so", "libserde-abc.rlib", ".so", "a.so", "so", "b.sox"])),
        Ok(2)
    );
    assert_eq!(count(names(&[])), Ok(0));
    assert_eq!(count(None), Ok(0));
    assert_eq!(
        sync_proc_macros(&config, &[], &Ok(()), &Err("no".to_string()), &None),
        Err("could not run rsync: no".to_string())
    );
}
