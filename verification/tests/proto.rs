use mamba::proto::{ArtifactRequest, BuildEvent, Kind, Payload, TransferTarget};

#[test]
fn every_message_the_service_needs_exists_and_round_trips_its_fields() {
    let target = TransferTarget {
        host: "gpu-box".to_string(),
        port: 22,
        user: "ubuntu".to_string(),
        path: "/srv/builds/proj/target/debug/app.slim".to_string(),
        relative_path: "target/debug/app".to_string(),
    };
    assert_eq!(target.relative_path, "target/debug/app");

    let request = ArtifactRequest {
        project_id: "proj".to_string(),
        kind: Kind::ProcMacros.number(),
    };
    assert_eq!(Kind::from_number(request.kind).unwrap(), Kind::ProcMacros);
}

#[test]
fn a_build_event_carries_exactly_one_of_output_or_an_exit_code() {
    let out = BuildEvent {
        payload: Some(Payload::Stdout(b"hi".to_vec())),
    };
    let done = BuildEvent {
        payload: Some(Payload::ExitCode(101)),
    };

    assert!(matches!(out.payload, Some(Payload::Stdout(_))));
    assert!(matches!(done.payload, Some(Payload::ExitCode(101))));
}

#[test]
fn every_kind_has_a_number_and_no_other_number_stands_for_one() {
    for kind in [Kind::Binary, Kind::Symbols, Kind::ProcMacros, Kind::GeneratedSource] {
        assert_eq!(Kind::from_number(kind.number()), Some(kind));
    }
    assert_eq!(Kind::from_number(4), None);
    assert_eq!(Kind::from_number(-1), None);
}
