use mamba::layout::{
    artifact_paths, binary_name, flag_value, locate, manifest_path, name_found, profile_directory,
    split_script, split_verdict, target_subdir, SplitRun,
};
use mamba::proto::Kind;

fn args(list: &[&str]) -> Vec<String> {
    list.iter().map(|s| s.to_string()).collect()
}

fn read(text: &str) -> Result<String, String> {
    Ok(text.to_string())
}

#[test]
fn plain_build_lands_in_debug() {
    assert_eq!(target_subdir(&args(&[])), "debug");
}

#[test]
fn release_flag_lands_in_release() {
    assert_eq!(target_subdir(&args(&["--release"])), "release");
}

#[test]
fn dev_and_test_profiles_both_land_in_debug() {
    assert_eq!(target_subdir(&args(&["--profile", "dev"])), "debug");
    assert_eq!(target_subdir(&args(&["--profile=test"])), "debug");
}

#[test]
fn bench_profile_lands_in_release() {
    assert_eq!(target_subdir(&args(&["--profile", "bench"])), "release");
}

#[test]
fn a_custom_profile_uses_its_own_directory() {
    assert_eq!(target_subdir(&args(&["--profile", "quick"])), "quick");
}

#[test]
fn an_explicit_target_triple_nests_one_level_deeper() {
    assert_eq!(
        target_subdir(&args(&["--target", "aarch64-unknown-linux-gnu", "--release"])),
        "aarch64-unknown-linux-gnu/release"
    );
}

#[test]
fn binary_name_comes_from_the_package_name() {
    assert_eq!(
        binary_name("/tmp/binname", &read("[package]\nname = \"my-app\"\n")).unwrap(),
        "my-app"
    );
}

#[test]
fn a_manifest_without_a_package_name_is_an_error() {
    assert!(binary_name("/tmp/no-name", &read("[workspace]\n")).is_err());
}

#[test]
fn every_way_a_manifest_can_fail_is_told_with_its_path() {
    assert_eq!(
        binary_name("/p", &Err("gone".to_string())).unwrap_err(),
        "could not read /p/Cargo.toml: gone"
    );
    assert_eq!(
        binary_name("/p", &read("[workspace]\n")).unwrap_err(),
        "/p/Cargo.toml has no [package] name"
    );
    for text in ["package = 3\n", "[package]\nname = 3\n", "[package]\n"] {
        assert_eq!(
            binary_name("/p", &read(text)).unwrap_err(),
            "/p/Cargo.toml has no [package] name"
        );
    }
    let broken = binary_name("/p", &read("[package\n")).unwrap_err();
    assert!(broken.starts_with("/p/Cargo.toml is not valid TOML: "), "got {broken}");
    assert!(broken.len() > "/p/Cargo.toml is not valid TOML: ".len());
}

#[test]
fn the_split_script_always_leaves_a_slim_file_behind() {
    let script = split_script("debug", "app");

    assert!(script.contains("--only-keep-debug"));
    assert!(script.contains("--add-gnu-debuglink"));
    assert!(
        script.contains("|| cp"),
        "a host without binutils must still produce a .slim, or the pull fails confusingly"
    );
}

#[test]
fn the_split_script_is_exactly_these_steps() {
    assert_eq!(
        split_script("debug", "app"),
        "b=target/debug/app; objcopy --only-keep-debug \"$b\" \"$b.debug\" 2>/dev/null \
         && strip --strip-debug -o \"$b.slim\" \"$b\" 2>/dev/null \
         && objcopy --add-gnu-debuglink=\"$b.debug\" \"$b.slim\" 2>/dev/null \
         || cp \"$b\" \"$b.slim\""
    );
}

#[test]
fn a_flag_is_read_in_either_spelling_and_the_first_one_counts() {
    assert_eq!(flag_value(&args(&["--target", "a"]), "--target"), Some("a".to_string()));
    assert_eq!(flag_value(&args(&["--target=a"]), "--target"), Some("a".to_string()));
    assert_eq!(flag_value(&args(&["--target="]), "--target"), Some(String::new()));
    assert_eq!(flag_value(&args(&["--target", "a", "--target=b"]), "--target"), Some("a".to_string()));
    assert_eq!(flag_value(&args(&["--target"]), "--target"), None);
    assert_eq!(flag_value(&args(&["--targets=a"]), "--target"), None);
}

#[test]
fn a_profile_wins_over_the_release_flag() {
    assert_eq!(profile_directory(&args(&["--release", "--profile", "dev"])), "debug");
}

#[test]
fn a_manifest_is_looked_for_in_the_project() {
    assert_eq!(manifest_path("/home/dev/proj"), "/home/dev/proj/Cargo.toml");
    assert_eq!(name_found("/p/Cargo.toml", Some("app")).unwrap(), "app");
    assert_eq!(
        name_found("/p/Cargo.toml", None).unwrap_err(),
        "/p/Cargo.toml has no [package] name"
    );
}

#[test]
fn only_the_binary_travels_under_another_name() {
    assert_eq!(
        artifact_paths(Kind::Binary, "debug", "app"),
        ("target/debug/app.slim".to_string(), "target/debug/app".to_string())
    );
    assert_eq!(
        artifact_paths(Kind::Symbols, "debug", "app"),
        ("target/debug/app.debug".to_string(), "target/debug/app.debug".to_string())
    );
    assert_eq!(
        artifact_paths(Kind::ProcMacros, "release", ""),
        ("target/release/deps".to_string(), "target/release/deps".to_string())
    );
    assert_eq!(
        artifact_paths(Kind::GeneratedSource, "release", "app"),
        ("target/release/build".to_string(), "target/release/build".to_string())
    );
}

#[test]
fn a_split_that_fails_is_told_apart_from_one_that_never_ran() {
    assert_eq!(split_verdict(&SplitRun::Succeeded), Ok(()));
    assert_eq!(
        split_verdict(&SplitRun::Ended("exit status: 1".to_string())),
        Err("splitting debug info failed with exit status: 1".to_string())
    );
    assert_eq!(
        split_verdict(&SplitRun::Unstarted("no sh".to_string())),
        Err("could not run the split: no sh".to_string())
    );
}

#[test]
fn only_the_binary_waits_for_the_split() {
    let manifest = read("[package]\nname = \"app\"\n");
    let failed = SplitRun::Ended("exit status: 1".to_string());

    assert!(locate(Kind::Binary, &args(&[]), "/p", &manifest, &failed).is_err());
    assert_eq!(
        locate(Kind::Symbols, &args(&[]), "/p", &manifest, &failed).unwrap().0,
        "target/debug/app.debug"
    );
    assert_eq!(
        locate(Kind::ProcMacros, &args(&[]), "/p", &Err("gone".to_string()), &failed).unwrap().0,
        "target/debug/deps"
    );
}
