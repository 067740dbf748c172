use mamba::grpc::{
    artifact_request, build_request, refused, server_uri, cannot_reach, upload_request, Step,
    GRPC_PORT,
};
use mamba::proto::Kind;

#[test]
fn the_probe_port_is_fixed_because_it_is_never_configured() {
    assert_eq!(GRPC_PORT, 7777);
}

#[test]
fn a_server_is_asked_at_the_fixed_port() {
    assert_eq!(server_uri("gpu-box"), "http://gpu-box:7777");
}

#[test]
fn every_failure_says_what_was_being_asked() {
    assert_eq!(
        cannot_reach("http://127.0.0.1:1", "refused").0,
        "could not reach http://127.0.0.1:1: refused"
    );
    assert_eq!(refused(Step::Upload, "no").0, "upload target refused: no");
    assert_eq!(refused(Step::Build, "no").0, "build refused: no");
    assert_eq!(refused(Step::Stream, "no").0, "build stream broke: no");
    assert_eq!(refused(Step::Artifact, "no").0, "artifact unavailable: no");
}

#[test]
fn requests_carry_what_was_asked_for() {
    assert_eq!(upload_request("proj").project_id, "proj");

    let build = build_request("proj", &["--release".to_string()], "/home/dev/proj");
    assert_eq!(build.project_id, "proj");
    assert_eq!(build.args, vec!["--release".to_string()]);
    assert_eq!(build.local_root, "/home/dev/proj");

    let artifact = artifact_request("proj", Kind::Symbols);
    assert_eq!(artifact.project_id, "proj");
    assert_eq!(Kind::from_number(artifact.kind), Some(Kind::Symbols));
}
