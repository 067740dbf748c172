use mamba::channel::{ChannelError, MockChannel};
use mamba::proto::{BuildEvent, Kind, Payload};

#[test]
fn a_mock_channel_answers_all_three_questions() {
    let mock = MockChannel::new("worker-7");

    assert_eq!(mock.request_upload("proj").unwrap().host, "worker-7");

    let art = mock.request_artifact("proj", Kind::Binary).unwrap();
    assert_eq!(art.host, "worker-7");
    assert_eq!(art.relative_path, "target/debug/app");

    let events = mock.collect_build("proj", &[], "/tmp/proj").unwrap();
    assert!(matches!(
        events.last(),
        Some(BuildEvent {
            payload: Some(Payload::ExitCode(0))
        })
    ));
}

#[test]
fn a_mock_channel_puts_everything_under_one_root() {
    let mock = MockChannel::new("worker-7");

    let upload = mock.request_upload("proj").unwrap();
    assert_eq!(upload.path, "/srv/");
    assert_eq!(upload.user, "builder");
    assert_eq!(upload.port, 22);

    for (kind, rel) in [
        (Kind::Binary, "target/debug/app"),
        (Kind::Symbols, "target/debug/app.debug"),
        (Kind::ProcMacros, "target/debug/deps"),
        (Kind::GeneratedSource, "target/debug/build"),
    ] {
        let target = mock.request_artifact("proj", kind).unwrap();
        assert_eq!(target.relative_path, rel);
        assert_eq!(target.path, format!("/srv/{rel}"));
    }

    let events = mock.collect_build("proj", &[], "/tmp/proj").unwrap();
    assert_eq!(events[0].payload, Some(Payload::Stderr(b"   Compiling app\n".to_vec())));
}

#[test]
fn a_channel_error_says_what_it_was_made_with() {
    assert_eq!(ChannelError("host unreachable".to_string()).message(), "host unreachable");
}
