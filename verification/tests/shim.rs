use mamba::config::Config;
use mamba::remote::BuildOutcome;
use mamba::shim::{
    answer_means_yes, begin, build_locally, cannot_start_notice, cargo_candidates, exit_status,
    find_real_cargo, human_size, is_cargo, offer_local_build, project_name, status, unreachable_notice, usage,
    Candidate, Job, Landed, Line, Report, Start, Task,
};

fn args(list: &[&str]) -> Vec<String> {
    list.iter().map(|s| s.to_string()).collect()
}

fn file(path: &str) -> Candidate {
    Candidate::File(path.to_string())
}

fn config(more: &str) -> Config {
    let text = format!("host = \"gpu-box\"\n{more}");
    Config::discover("/home/dev/proj", &[Some(Ok(text))]).unwrap().unwrap()
}

fn job(more: &str, argv: &[&str]) -> Job {
    Job::new(config(more), &args(argv)).0
}

fn shown(lines: Vec<Line>) -> Vec<String> {
    lines.iter().map(|line| line.render(false)).collect()
}

fn landed(path: &str, size: u64) -> Result<Landed, String> {
    Ok(Landed { path: path.to_string(), size })
}

#[test]
fn skips_the_shim_and_finds_the_next_cargo_on_path() {
    // `cargo` in the first directory is a symlink to the shim, the genuine one is further along.
    let found = find_real_cargo(
        "/base/shim:/base/real",
        "/base/mamba",
        &[file("/base/mamba"), file("/base/real/cargo")],
    );

    assert_eq!(found, Some("/base/real/cargo".to_string()));
}

#[test]
fn returns_none_when_the_only_cargo_on_path_is_the_shim() {
    assert!(find_real_cargo("/base/shim", "/base/mamba", &[file("/base/mamba")]).is_none());
}

#[test]
fn ignores_path_entries_that_do_not_contain_a_cargo() {
    assert!(
        find_real_cargo(
            "/base/empty:/base/real",
            "/base/does-not-exist",
            &[Candidate::Missing, file("/base/real/cargo")],
        )
        .is_some()
    );
}

#[test]
fn a_cargo_whose_path_cannot_be_told_is_passed_over() {
    assert_eq!(
        find_real_cargo("/a:/b", "/me", &[Candidate::Unresolved, file("/opt/cargo")]),
        Some("/b/cargo".to_string())
    );
    assert_eq!(find_real_cargo("/a:/b", "/me", &[Candidate::Missing]), None);
}

#[test]
fn a_search_path_is_split_at_its_colons() {
    assert_eq!(cargo_candidates("/a:/b/"), args(&["/a/cargo", "/b/cargo"]));
    assert_eq!(cargo_candidates(""), args(&["cargo"]));
    assert_eq!(cargo_candidates(":/a:"), args(&["cargo", "/a/cargo", "cargo"]));
}

#[test]
fn empty_answer_means_yes_because_the_prompt_defaults_to_yes() {
    assert!(answer_means_yes(""));
    assert!(answer_means_yes("\n"));
    assert!(answer_means_yes("  \n"));
}

#[test]
fn only_an_explicit_no_declines() {
    assert!(!answer_means_yes("n"));
    assert!(!answer_means_yes("N"));
    assert!(!answer_means_yes("no\n"));
    assert!(!answer_means_yes(" NO "));
}

#[test]
fn anything_else_means_yes() {
    assert!(answer_means_yes("y"));
    assert!(answer_means_yes("yes"));
    assert!(answer_means_yes("sure"));
    assert!(answer_means_yes("n o"));
}

#[test]
fn with_nobody_to_ask_the_build_goes_local() {
    assert_eq!(
        offer_local_build("gpu-box", "ssh could not connect", false),
        (
            args(&[
                "mamba: gpu-box unreachable (ssh could not connect)",
                "mamba: no terminal to ask on, building locally",
            ]),
            false
        )
    );
    assert_eq!(
        offer_local_build("gpu-box", "ssh could not connect", true),
        (args(&["mamba: gpu-box unreachable (ssh could not connect)"]), true)
    );
    assert!(build_locally(None));
    assert!(build_locally(Some("\n")));
    assert!(!build_locally(Some("no\n")));
}

#[test]
fn human_size_stays_in_bytes_under_a_kilobyte() {
    assert_eq!(human_size(0), "0 B");
    assert_eq!(human_size(512), "512 B");
}

#[test]
fn human_size_picks_the_largest_unit_that_keeps_it_readable() {
    assert_eq!(human_size(1024), "1.00 KB");
    assert_eq!(human_size(4_362_824), "4.16 MB");
    assert_eq!(human_size(1024 * 1024 * 1024), "1.00 GB");
}

#[test]
fn human_size_agrees_with_floating_point() {
    fn in_floats(bytes: u64) -> String {
        let units = ["B", "KB", "MB", "GB"];
        let mut size = bytes as f64;
        let mut unit = 0;
        while size >= 1024.0 && unit < units.len() - 1 {
            size /= 1024.0;
            unit += 1;
        }
        if unit == 0 {
            format!("{bytes} B")
        } else {
            format!("{size:.2} {}", units[unit])
        }
    }

    let mut sizes = vec![0, 1, 1023, 1024, 1025, 1_048_575, 1_048_576, u64::MAX, u64::MAX - 1];
    for shift in 0..64u32 {
        for near in 0..40u64 {
            sizes.push((1u64 << shift).wrapping_add(near));
            sizes.push((1u64 << shift).wrapping_sub(near));
            sizes.push((3u64 << shift) ^ (near << (shift / 2)));
        }
    }
    // Sizes that stand exactly between two hundredths, in every unit.
    for eighth in 0..400u64 {
        sizes.push(eighth * 128 + 1024);
        sizes.push((eighth * 128 + 1024) * 1024);
        sizes.push((eighth * 128 + 1024) * 1024 * 1024);
    }
    let mut state = 0x2545_f491_4f6c_dd1du64;
    for _ in 0..20_000 {
        state ^= state << 13;
        state ^= state >> 7;
        state ^= state << 17;
        sizes.push(state >> (state % 60));
    }
    for bytes in sizes {
        assert_eq!(human_size(bytes), in_floats(bytes), "of {bytes} bytes");
    }
}

#[test]
fn the_program_is_the_shim_only_under_the_name_cargo() {
    assert!(is_cargo(Some("cargo")));
    assert!(is_cargo(Some("/home/dev/.local/bin/cargo")));
    assert!(!is_cargo(Some("/usr/bin/mamba")));
    assert!(!is_cargo(Some("/usr/bin/cargo/..")));
    assert!(!is_cargo(Some("")));
    assert!(!is_cargo(None));
}

#[test]
fn the_usage_text_names_every_switch() {
    let text = usage();

    assert!(text.starts_with("mamba builds your Rust project on another machine.\n"));
    assert!(text.contains("    ln -s \"$(command -v mamba)\" ~/.local/bin/cargo\n"));
    assert!(text.contains(
        "    cargo build --mamba-pull           fetch the built binary back\n    cargo build --mamba-pull-symbols   also fetch debug symbols for it\n"
    ));
    assert!(text.ends_with("Every other cargo command runs locally as usual."));
}

#[test]
fn a_status_line_follows_cargos_own_convention() {
    assert_eq!(status("Syncing", "proj to h", false), "     Syncing proj to h");
    assert_eq!(
        status("Syncing", "proj to h", true),
        "\x1b[1m\x1b[92m     Syncing\x1b[0m proj to h"
    );
    assert_eq!(status("Downloadingxyz", "m", false), "Downloadingxyz m");
    assert_eq!(status("Downloading", "m", false), " Downloading m");
}

#[test]
fn messages_read_as_they_should() {
    assert_eq!(
        unreachable_notice("gpu-box", "ssh could not connect"),
        "mamba: gpu-box unreachable (ssh could not connect)"
    );
    assert_eq!(cannot_start_notice("no"), "mamba: could not start cargo: no");
    assert_eq!(project_name(&config("")), "proj");
    assert_eq!(exit_status(101), 101);
    assert_eq!(exit_status(-1), 0);
    assert_eq!(exit_status(256), 255);
}

#[test]
fn a_job_syncs_then_builds_then_ends_with_the_builds_exit_code() {
    let (mut job, line) = Job::new(config(""), &args(&["build", "--release"]));
    assert_eq!(line.render(false), "     Syncing proj to gpu-box");
    match job.task() {
        Task::Sync(line) => assert_eq!(line.last().unwrap(), "gpu-box:.mamba/proj/"),
        other => panic!("expected a sync, got {other:?}"),
    }
    assert!(job.step(Report::Synced(Ok(()))).is_empty());
    assert!(matches!(job.task(), Task::Build));
    assert!(job.step(Report::Built(BuildOutcome::Finished(101))).is_empty());
    assert!(matches!(job.task(), Task::Exit(101)));
    assert_eq!(job.flags(), args(&["--release"]));
    assert_eq!(job.config().host.as_str(), "gpu-box");
}

#[test]
fn nothing_is_pulled_unless_the_build_succeeded_and_somebody_asked() {
    let mut plain = job("", &["build"]);
    plain.step(Report::Synced(Ok(())));
    plain.step(Report::Built(BuildOutcome::Finished(0)));
    assert!(matches!(plain.task(), Task::Exit(0)));

    let mut failed = job("pull = true\n", &["build"]);
    failed.step(Report::Synced(Ok(())));
    failed.step(Report::Built(BuildOutcome::Finished(1)));
    assert!(matches!(failed.task(), Task::Exit(1)));
}

#[test]
fn everything_is_pulled_where_symbols_were_asked_for() {
    let mut job = job("", &["build", "--mamba-pull-symbols"]);
    job.step(Report::Synced(Ok(())));
    assert_eq!(
        shown(job.step(Report::Built(BuildOutcome::Finished(0)))),
        [" Downloading proj from gpu-box"]
    );
    assert!(matches!(job.task(), Task::Pull));
    assert_eq!(
        shown(job.step(Report::Pulled(landed("/p/app", 4_362_824), "1.25".to_string()))),
        ["  Downloaded /p/app (4.16 MB) in 1.25s"]
    );
    assert!(matches!(job.task(), Task::PullSymbols));
    assert_eq!(
        shown(job.step(Report::Symbols(landed("/p/app.debug", 512)))),
        ["     Symbols /p/app.debug (512 B)"]
    );
    assert!(matches!(job.task(), Task::SyncMacros));
    assert_eq!(shown(job.step(Report::Macros(Ok(3)))), ["      Macros 3 proc-macro libraries"]);
    assert!(matches!(job.task(), Task::Exit(0)));
}

#[test]
fn a_pull_that_fails_changes_only_what_is_printed() {
    let mut job = job("pull-symbols = true\n", &["build"]);
    job.step(Report::Synced(Ok(())));
    job.step(Report::Built(BuildOutcome::Finished(0)));
    assert_eq!(
        shown(job.step(Report::Pulled(Err("no".to_string()), "0.00".to_string()))),
        ["mamba: pull failed: no"]
    );
    assert_eq!(
        shown(job.step(Report::Symbols(Err("no".to_string())))),
        ["mamba: symbols unavailable: no"]
    );
    assert_eq!(
        shown(job.step(Report::Macros(Err("no".to_string())))),
        ["mamba: proc-macro sync failed: no"]
    );
    assert!(matches!(job.task(), Task::Exit(0)));
}

#[test]
fn without_symbols_the_macros_come_right_after_the_binary() {
    let mut job = job("", &["build", "--mamba-pull"]);
    job.step(Report::Synced(Ok(())));
    job.step(Report::Built(BuildOutcome::Finished(0)));
    job.step(Report::Pulled(landed("/p/app", 1), "0.10".to_string()));
    assert!(matches!(job.task(), Task::SyncMacros));
    assert!(job.step(Report::Macros(Ok(0))).is_empty());
}

#[test]
fn a_local_build_is_offered_only_where_the_build_never_ran() {
    let mut unsynced = job("", &["build"]);
    unsynced.step(Report::Synced(Err("rsync exited with 255".to_string())));
    assert!(matches!(unsynced.task(), Task::Offer(why) if why == "rsync exited with 255"));

    let mut unreachable = job("", &["build"]);
    unreachable.step(Report::Synced(Ok(())));
    unreachable.step(Report::Built(BuildOutcome::Unreachable("ssh could not connect".to_string())));
    assert!(matches!(unreachable.task(), Task::Offer(why) if why == "ssh could not connect"));
}

#[test]
fn the_split_is_left_out_where_the_binary_has_no_name() {
    let job = job("", &["build", "--release", "a b"]);
    let head = ". \"$HOME/.cargo/env\" 2>/dev/null; cd '.mamba/proj' && CARGO_TERM_COLOR=always cargo build '--release' 'a b'";

    assert_eq!(job.command(&Ok("[workspace]\n".to_string())), head);
    let full = job.command(&Ok("[package]\nname = \"app\"\n".to_string()));
    assert!(full.starts_with(&format!("{head}; rc=$?; if [ $rc -eq 0 ]; then b=target/release/app; ")));
    assert!(full.ends_with("; fi; exit $rc"));
}

#[test]
fn a_command_line_comes_to_a_remote_build_only_where_it_should() {
    let good = || vec![Some(Ok("host = \"gpu-box\"\n".to_string()))];
    let dir = Some("/home/dev/proj");

    match begin(&args(&["build", "--mamba-pull", "--release"]), dir, &good()) {
        Start::Build(job, line) => {
            assert_eq!(line.render(false), "     Syncing proj to gpu-box");
            assert_eq!(job.flags(), args(&["--release"]));
        }
        _ => panic!("expected a remote build"),
    }
    for (line, cwd, files) in [
        (vec!["test", "--mamba-pull"], dir, good()),
        (vec!["build", "--mamba-pull"], None, good()),
        (vec!["build"], dir, vec![]),
    ] {
        match begin(&args(&line), cwd, &files) {
            Start::RunCargo(rest) => assert_eq!(rest, args(&line[..1])),
            _ => panic!("expected a local run of {line:?}"),
        }
    }
    match begin(&args(&["build"]), dir, &[Some(Ok("host = 42\n".to_string()))]) {
        Start::Refuse(why) => assert_eq!(
            why,
            "mamba: .mamba.toml needs a `host` key, for example: host = \"gpu-box\""
        ),
        _ => panic!("expected a refusal"),
    }
}
