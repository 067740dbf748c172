use mamba::layout::SplitRun;
use mamba::proto::Kind;
use mamba::service::ControlService;

const ROOT: &str = "/srv/projects";

fn service() -> ControlService {
    ControlService::new(ROOT.to_string(), "gpu-box".to_string(), "ubuntu".to_string())
}

fn nothing() -> Result<String, String> {
    Err("not read".to_string())
}

fn manifest() -> Result<String, String> {
    Ok("[package]\nname = \"app\"\n".to_string())
}

#[test]
fn a_project_id_maps_under_the_server_root() {
    assert_eq!(service().project_dir("proj").unwrap(), "/srv/projects/proj");
}

#[test]
fn a_project_id_cannot_escape_the_server_root() {
    let svc = service();

    for bad in ["../etc", "a/../../b", "/etc", "", ".", ".."] {
        assert!(svc.project_dir(bad).is_err(), "should have rejected {bad:?}");
    }
}

#[test]
fn a_refused_id_is_shown_the_way_it_was_written() {
    assert_eq!(
        service().project_dir("a\"b").unwrap_err(),
        "project id \"a\\\"b\" is not a plain name"
    );
    assert_eq!(
        service().project_dir("../etc").unwrap_err(),
        "project id \"../etc\" is not a plain name"
    );
}

#[test]
fn proc_macros_resolve_to_the_deps_directory() {
    let t = service()
        .resolve_artifact(
            "proj",
            Kind::ProcMacros,
            &["--release".to_string()],
            &nothing(),
            &SplitRun::Succeeded,
        )
        .unwrap();

    assert_eq!(t.relative_path, "target/release/deps");
    assert_eq!(t.path, "/srv/projects/proj/target/release/deps");
    assert_eq!(t.host, "gpu-box");
    assert_eq!(t.user, "ubuntu");
}

#[test]
fn generated_source_resolves_to_the_build_directory() {
    let t = service()
        .resolve_artifact("proj", Kind::GeneratedSource, &[], &nothing(), &SplitRun::Succeeded)
        .unwrap();

    assert_eq!(t.relative_path, "target/debug/build");
}

#[test]
fn the_binary_travels_stripped_but_lands_under_its_plain_name() {
    let svc = service();
    let script = svc
        .split_script_for("proj", Kind::Binary, &[], &manifest())
        .unwrap();
    assert!(script.unwrap().starts_with("b=target/debug/app; "));

    let t = svc
        .resolve_artifact("proj", Kind::Binary, &[], &manifest(), &SplitRun::Succeeded)
        .unwrap();

    assert!(t.path.ends_with("target/debug/app.slim"), "got {}", t.path);
    assert_eq!(t.relative_path, "target/debug/app");
    assert_eq!(t.port, 22);
}

#[test]
fn symbols_resolve_to_the_debug_file_beside_the_binary() {
    let svc = service();
    assert_eq!(svc.split_script_for("proj", Kind::Symbols, &[], &manifest()).unwrap(), None);

    let t = svc
        .resolve_artifact("proj", Kind::Symbols, &[], &manifest(), &SplitRun::Succeeded)
        .unwrap();

    assert!(t.path.ends_with("target/debug/app.debug"), "got {}", t.path);
    assert_eq!(t.relative_path, "target/debug/app.debug");
}

#[test]
fn an_upload_target_creates_the_directory_so_a_first_build_needs_no_setup() {
    let t = service().upload_target("fresh", &Ok(())).unwrap();

    assert_eq!(t.path, "/srv/projects/fresh");
    assert_eq!(t.relative_path, "");
    assert_eq!(
        service().upload_target("fresh", &Err("disk full".to_string())).unwrap_err(),
        "could not create /srv/projects/fresh: disk full"
    );
    assert!(service().upload_target("../fresh", &Ok(())).is_err());
}

#[test]
fn a_refused_id_is_refused_before_anything_else_is_looked_at() {
    let svc = service();
    let refused = "project id \"..\" is not a plain name".to_string();

    assert_eq!(
        svc.resolve_artifact("..", Kind::Binary, &[], &nothing(), &SplitRun::Succeeded),
        Err(refused.clone())
    );
    assert_eq!(svc.split_script_for("..", Kind::Binary, &[], &nothing()), Err(refused));
}

#[test]
fn the_server_remembers_each_projects_arguments() {
    let mut svc = service();
    assert!(svc.last_args("a").is_empty());

    svc.remember_args("a", &["--release".to_string()]);
    svc.remember_args("b", &[]);
    assert_eq!(svc.last_args("a"), vec!["--release".to_string()]);
    assert!(svc.last_args("b").is_empty());

    svc.remember_args("a", &["--profile=quick".to_string()]);
    assert_eq!(svc.last_args("a"), vec!["--profile=quick".to_string()]);
}
