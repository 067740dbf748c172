use mamba::channel::{ChannelError, MockChannel};
use mamba::daemon::{
    bounded, transport_name, Action, ChannelCache, Event, Session, IDLE_TIMEOUT, PROBE_TIMEOUT,
    RPC_TIMEOUT,
};
use mamba::input::{Host, Invocation, ProjectId, ProjectRoot, Settings};
use mamba::ipc::Frame;
use mamba::proto::{BuildEvent, Kind, Payload, TransferTarget};

fn invocation(settings: Settings) -> Invocation {
    Invocation {
        root: ProjectRoot::new("/tmp/does-not-matter".to_string()),
        host: Host::new("gpu-box").unwrap(),
        project_id: ProjectId::new("proj"),
        settings,
        flags: Vec::new(),
    }
}

fn target(rel: &str) -> TransferTarget {
    TransferTarget {
        host: "worker-7".to_string(),
        port: 22,
        user: String::new(),
        path: format!("/srv/{rel}"),
        relative_path: rel.to_string(),
    }
}

fn event(payload: Payload) -> Event {
    Event::Reported(Some(Ok(BuildEvent { payload: Some(payload) })))
}

/// Runs a session against the stand-in, with these pushes, reports and fetches.
fn converse(
    settings: Settings,
    transport: &str,
    push: Result<(), String>,
    mut reports: Vec<Payload>,
    fetch: fn(&TransferTarget, Kind) -> Result<String, String>,
) -> Vec<Frame> {
    let mock = MockChannel::new("worker-7");
    let mut session = Session::new(invocation(settings), transport);
    let mut frames = Vec::new();
    reports.reverse();
    loop {
        let event = match session.action() {
            Action::RequestUpload(id) => Event::Upload(mock.request_upload(&id)),
            Action::Push(_, _) => Event::Pushed(push.clone()),
            Action::StartBuild(_, _, _) => Event::Started(Ok(())),
            Action::NextEvent => match reports.pop() {
                Some(payload) => event(payload),
                None => Event::Reported(None),
            },
            Action::RequestArtifact(id, kind) => Event::Artifact(mock.request_artifact(&id, kind)),
            Action::Fetch(_, target, kind) => Event::Fetched(fetch(&target, kind)),
            Action::Close => return frames,
        };
        frames.extend(session.step(event));
    }
}

fn lands(target: &TransferTarget, _kind: Kind) -> Result<String, String> {
    Ok(format!("/tmp/{}", target.relative_path))
}

fn breaks(_target: &TransferTarget, _kind: Kind) -> Result<String, String> {
    Err("rsync exited with 23".to_string())
}

#[test]
fn the_chosen_transport_is_announced_rather_than_silent() {
    // The push fails, so this asserts on what arrives before it: the status line naming the
    // transport. That line is the whole mitigation for a probe that silently falls back:
    // without it, a server merely being down is invisible.
    let frames = converse(
        Settings::default(),
        "mock",
        Err("rsync exited with 255".to_string()),
        vec![],
        lands,
    );

    assert!(
        frames.iter().any(
            |f| matches!(f, Frame::Status(verb, msg) if verb == "Syncing" && msg.contains("mock"))
        ),
        "the chosen transport must be announced: {frames:?}"
    );
    assert!(
        frames.iter().any(|f| matches!(f, Frame::Failed(_))),
        "a push that cannot happen must fail the build, not hang: {frames:?}"
    );
    assert_eq!(
        frames,
        vec![
            Frame::Status("Syncing".to_string(), "proj to worker-7 via mock".to_string()),
            Frame::Failed("rsync exited with 255".to_string()),
        ]
    );
}

#[test]
fn an_idle_channel_is_dropped_but_a_fresh_one_survives() {
    let mut cache = ChannelCache::new(600);

    cache.insert("gpu-box", MockChannel::new("w"), "mock", 1000);
    assert_eq!(cache.len(), 1);

    cache.evict_idle(1000);
    assert_eq!(cache.len(), 1, "a channel just used must survive");

    cache.evict_idle(1000 + 601);
    assert_eq!(cache.len(), 0, "an idle channel must be dropped");
}

#[test]
fn a_cached_channel_is_reused_rather_than_reconnected() {
    let mut cache = ChannelCache::new(600);
    cache.insert("gpu-box", MockChannel::new("w"), "mock", 0);

    let (_, transport) = cache
        .get("gpu-box", 1)
        .expect("the channel must still be there");

    assert_eq!(transport, "mock");
}

#[test]
fn a_call_that_never_resolves_times_out_instead_of_hanging_forever() {
    let result: Result<i32, ChannelError> = bounded(RPC_TIMEOUT, None);

    assert_eq!(
        result.unwrap_err().0,
        "no response within 30s — the connection may be dead"
    );
    assert_eq!(bounded(1, Some(Ok(7))).unwrap(), 7);
    let refused: Result<i32, ChannelError> = bounded(1, Some(Err(ChannelError("no".to_string()))));
    assert_eq!(refused.unwrap_err().0, "no");
}

#[test]
fn a_hanging_channel_fails_the_build_promptly_instead_of_blocking_it() {
    let mut session = Session::new(invocation(Settings::default()), "grpc");
    assert!(matches!(session.action(), Action::RequestUpload(_)));

    let frames = session.step(Event::Upload(bounded(RPC_TIMEOUT, None)));

    assert!(
        frames.iter().any(|f| matches!(f, Frame::Failed(_))),
        "a dead connection must surface as a failure, not silence: {frames:?}"
    );
    assert!(matches!(session.action(), Action::Close));
}

#[test]
fn a_successful_build_is_told_from_first_to_last() {
    let frames = converse(
        Settings::from_bits(3),
        "grpc",
        Ok(()),
        vec![
            Payload::Stderr(b"   Compiling app\n".to_vec()),
            Payload::Stdout(b"out\n".to_vec()),
            Payload::ExitCode(0),
        ],
        lands,
    );

    assert_eq!(
        frames,
        vec![
            Frame::Status("Syncing".to_string(), "proj to worker-7 via grpc".to_string()),
            Frame::Stderr(b"   Compiling app\n".to_vec()),
            Frame::Stdout(b"out\n".to_vec()),
            Frame::Status("Downloaded".to_string(), "/tmp/target/debug/app".to_string()),
            Frame::Status("Downloaded".to_string(), "/tmp/target/debug/app.debug".to_string()),
            Frame::Exit(0),
        ]
    );
}

#[test]
fn a_failed_fetch_is_reported_and_forgotten() {
    let frames = converse(
        Settings::from_bits(1),
        "ssh",
        Ok(()),
        vec![Payload::ExitCode(0)],
        breaks,
    );

    let complaint = Frame::Stderr(b"mamba: fetch failed: rsync exited with 23\n".to_vec());
    assert_eq!(
        frames[1..],
        [complaint.clone(), complaint.clone(), complaint, Frame::Exit(0)]
    );
}

#[test]
fn an_artifact_that_cannot_be_located_is_reported_and_forgotten() {
    let mut session = Session::new(invocation(Settings::default()), "ssh");
    session.step(Event::Upload(Ok(target(""))));
    session.step(Event::Pushed(Ok(())));
    session.step(Event::Started(Ok(())));
    session.step(event(Payload::ExitCode(0)));
    assert!(session.step(Event::Reported(None)).is_empty());

    let frames = session.step(Event::Artifact(Err(ChannelError("gone".to_string()))));
    assert_eq!(frames, vec![Frame::Stderr(b"mamba: gone\n".to_vec())]);

    match session.action() {
        Action::RequestArtifact(id, kind) => {
            assert_eq!(id, "proj");
            assert_eq!(kind, Kind::GeneratedSource);
        }
        other => panic!("expected the next artifact, got {other:?}"),
    }
    let frames = session.step(Event::Artifact(Err(ChannelError("gone".to_string()))));
    assert_eq!(
        frames,
        vec![Frame::Stderr(b"mamba: gone\n".to_vec()), Frame::Exit(0)]
    );
}

#[test]
fn a_compile_error_is_an_exit_code_and_fetches_nothing() {
    let frames = converse(
        Settings::from_bits(3),
        "ssh",
        Ok(()),
        vec![Payload::Stderr(b"error\n".to_vec()), Payload::ExitCode(101)],
        lands,
    );

    assert_eq!(
        frames[1..],
        [Frame::Stderr(b"error\n".to_vec()), Frame::Exit(101)]
    );
}

#[test]
fn a_build_that_reports_no_exit_code_counts_as_failed() {
    let frames = converse(Settings::default(), "ssh", Ok(()), vec![], lands);
    assert_eq!(frames.last(), Some(&Frame::Exit(1)));
}

#[test]
fn a_broken_stream_and_a_refused_build_are_failures() {
    let mut session = Session::new(invocation(Settings::default()), "ssh");
    session.step(Event::Upload(Ok(target(""))));
    match session.action() {
        Action::Push(root, to) => {
            assert_eq!(root, "/tmp/does-not-matter");
            assert_eq!(to, target(""));
        }
        other => panic!("expected a push, got {other:?}"),
    }
    session.step(Event::Pushed(Ok(())));
    let frames = session.step(Event::Started(Err(ChannelError("build refused: no".to_string()))));
    assert_eq!(frames, vec![Frame::Failed("build refused: no".to_string())]);

    let mut session = Session::new(invocation(Settings::default()), "ssh");
    session.step(Event::Upload(Ok(target(""))));
    session.step(Event::Pushed(Ok(())));
    session.step(Event::Started(Ok(())));
    assert!(session.step(Event::Reported(Some(Ok(BuildEvent { payload: None })))).is_empty());
    let frames = session.step(Event::Reported(Some(Err(ChannelError("lost".to_string())))));
    assert_eq!(frames, vec![Frame::Failed("lost".to_string())]);
    assert!(matches!(session.action(), Action::Close));
}

#[test]
fn using_a_channel_keeps_it_fresh() {
    let mut cache = ChannelCache::new(600);
    cache.insert("a", 1, "ssh", 0);
    cache.insert("b", 2, "grpc", 0);
    assert_eq!(cache.get("a", 500), Some((&1, "ssh")));
    assert_eq!(cache.get("c", 500), None);

    cache.evict_idle(700);
    assert_eq!(cache.len(), 1);
    assert_eq!(cache.get("a", 700), Some((&1, "ssh")));
    assert_eq!(cache.get("b", 700), None);
}

#[test]
fn a_channel_goes_exactly_when_the_timeout_has_passed() {
    let mut cache = ChannelCache::new(600);
    cache.insert("a", 1, "ssh", 1000);
    cache.evict_idle(1599);
    assert_eq!(cache.len(), 1);
    cache.evict_idle(0);
    assert_eq!(cache.len(), 1, "a moment before the last use is no idleness");
    cache.evict_idle(1600);
    assert_eq!(cache.len(), 0);

    cache.insert("a", 1, "ssh", 0);
    cache.insert("a", 2, "grpc", 5);
    assert_eq!(cache.len(), 1);
    assert_eq!(cache.get("a", 6), Some((&2, "grpc")));
}

#[test]
fn the_bounds_are_these() {
    assert_eq!(IDLE_TIMEOUT, 600);
    assert_eq!(PROBE_TIMEOUT, 2);
    assert_eq!(RPC_TIMEOUT, 30);
    assert_eq!(transport_name(true), "grpc");
    assert_eq!(transport_name(false), "ssh");
}
