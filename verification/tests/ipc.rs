use mamba::input::{Host, Invocation, ProjectId, ProjectRoot, Settings, PULL, SYMBOLS};
use mamba::ipc::{
    read_frame, read_invocation, socket_path, write_frame, write_invocation, Frame, WireError,
};

/// The settings a command line asking for these flags would produce.
fn asked_for(flags: &[&str]) -> Settings {
    Settings::from_flags(&flags.iter().map(|f| f.to_string()).collect::<Vec<_>>())
}

fn invocation() -> Invocation {
    Invocation {
        root: ProjectRoot::new("/home/dev/my proj".to_string()),
        host: Host::new("gpu-box").unwrap(),
        project_id: ProjectId::new("myproj"),
        settings: asked_for(&["--mamba-pull"]),
        flags: vec![
            "--release".to_string(),
            "--features".to_string(),
            "a b".to_string(),
        ],
    }
}

#[test]
fn an_invocation_survives_the_round_trip() {
    let original = invocation();

    let mut buffer = Vec::new();
    write_invocation(&mut buffer, &original);

    assert_eq!(read_invocation(&mut buffer.as_slice()).unwrap(), original);
}

#[test]
fn a_host_that_a_shell_could_reinterpret_is_refused_on_the_way_in() {
    // Any process running as this user can write to the socket, and whatever arrives
    // here is pasted onto an ssh command line. The wire is where that gets checked.
    let mut buffer = Vec::new();
    write_invocation(&mut buffer, &invocation());

    // Overwrite the host with a shell injection of the same length.
    let hostile = b"gpu;id!";
    let at = buffer
        .windows(hostile.len())
        .position(|w| w == b"gpu-box")
        .expect("the host is in there");
    buffer[at..at + hostile.len()].copy_from_slice(hostile);

    let mut cursor = buffer.as_slice();
    assert!(read_invocation(&mut cursor).is_err());
    assert_eq!(cursor, buffer.as_slice(), "what was refused stays where it is");
    assert_eq!(
        read_invocation(&mut cursor).unwrap_err().message(),
        "host \"gpu;id!\" is not a plain ssh destination (letters, digits, . - _ @ only)"
    );
}

#[test]
fn the_settings_byte_is_read_back_as_the_same_set() {
    let mut original = invocation();
    original.settings = asked_for(&["--mamba-pull-symbols"]);

    let mut buffer = Vec::new();
    write_invocation(&mut buffer, &original);
    let read = read_invocation(&mut buffer.as_slice()).unwrap();

    assert!(read.settings.has(SYMBOLS));
    assert!(
        read.settings.has(PULL),
        "symbols carry the binary with them"
    );
}

#[test]
fn every_frame_kind_survives_the_round_trip() {
    let frames = vec![
        Frame::Stdout(b"compiling\n".to_vec()),
        Frame::Stderr(b"warning\n".to_vec()),
        Frame::Status("Downloading".to_string(), "app".to_string()),
        Frame::Failed("host unreachable".to_string()),
        Frame::Exit(101),
    ];

    let mut buffer = Vec::new();
    for frame in &frames {
        write_frame(&mut buffer, frame);
    }

    let mut cursor = buffer.as_slice();
    for expected in &frames {
        assert_eq!(&read_frame(&mut cursor).unwrap().unwrap(), expected);
    }
    assert!(
        read_frame(&mut cursor).unwrap().is_none(),
        "the stream must end cleanly"
    );
}

#[test]
fn empty_payloads_and_empty_argument_lists_are_legal() {
    let mut buffer = Vec::new();
    write_frame(&mut buffer, &Frame::Stdout(Vec::new()));
    assert_eq!(
        read_frame(&mut buffer.as_slice()).unwrap().unwrap(),
        Frame::Stdout(Vec::new())
    );

    let mut bare = invocation();
    bare.flags = Vec::new();
    let mut buffer = Vec::new();
    write_invocation(&mut buffer, &bare);
    assert!(
        read_invocation(&mut buffer.as_slice())
            .unwrap()
            .flags
            .is_empty()
    );
}

#[test]
fn an_unknown_frame_tag_is_an_error_rather_than_a_silent_skip() {
    let mut cursor: &[u8] = &[99, 0, 0, 0, 0];
    assert!(read_frame(&mut cursor).is_err());
}

#[test]
fn frames_have_exactly_these_bytes() {
    let bytes = |frame: &Frame| {
        let mut out = Vec::new();
        write_frame(&mut out, frame);
        out
    };

    assert_eq!(bytes(&Frame::Stdout(b"hi".to_vec())), [1, 0, 0, 0, 2, b'h', b'i']);
    assert_eq!(bytes(&Frame::Stderr(Vec::new())), [2, 0, 0, 0, 0]);
    assert_eq!(
        bytes(&Frame::Status("a".to_string(), "é".to_string())),
        [3, 0, 0, 0, 1, b'a', 0, 0, 0, 2, 0xc3, 0xa9]
    );
    assert_eq!(bytes(&Frame::Failed("x".to_string())), [4, 0, 0, 0, 1, b'x']);
    assert_eq!(bytes(&Frame::Exit(101)), [5, 0, 0, 0, 101]);
    assert_eq!(bytes(&Frame::Exit(-1)), [5, 0xff, 0xff, 0xff, 0xff]);
    assert_eq!(bytes(&Frame::Exit(i32::MIN)), [5, 0x80, 0, 0, 0]);
    assert_eq!(bytes(&Frame::Stdout(vec![7; 258]))[..5], [1, 0, 0, 1, 2]);
}

#[test]
fn negative_exit_codes_survive() {
    for code in [-1, i32::MIN, i32::MAX, 0, 255] {
        let mut buffer = Vec::new();
        write_frame(&mut buffer, &Frame::Exit(code));
        assert_eq!(read_frame(&mut buffer.as_slice()).unwrap().unwrap(), Frame::Exit(code));
    }
}

#[test]
fn a_message_that_is_cut_short_asks_for_more_and_loses_nothing() {
    let frame = Frame::Status("Syncing".to_string(), "proj to gpu-box".to_string());
    let mut buffer = Vec::new();
    write_frame(&mut buffer, &frame);

    for kept in 1..buffer.len() {
        let mut cursor = &buffer[..kept];
        assert_eq!(read_frame(&mut cursor), Err(WireError::Truncated));
        assert_eq!(cursor.len(), kept);
    }

    let mut buffer = Vec::new();
    write_invocation(&mut buffer, &invocation());
    for kept in 0..buffer.len() {
        assert_eq!(read_invocation(&mut &buffer[..kept]), Err(WireError::Truncated));
    }
}

#[test]
fn what_follows_a_message_is_left_for_the_next_reader() {
    let mut buffer = Vec::new();
    write_invocation(&mut buffer, &invocation());
    write_frame(&mut buffer, &Frame::Exit(7));

    let mut cursor = buffer.as_slice();
    assert_eq!(read_invocation(&mut cursor).unwrap(), invocation());
    assert_eq!(read_frame(&mut cursor).unwrap(), Some(Frame::Exit(7)));
    assert!(cursor.is_empty());
}

#[test]
fn text_that_is_not_text_is_refused() {
    let mut cursor: &[u8] = &[4, 0, 0, 0, 1, 0xff];
    let error = read_frame(&mut cursor).unwrap_err();
    assert!(matches!(error, WireError::InvalidText(_)));
    assert_eq!(
        error.message(),
        String::from_utf8(vec![0xff]).unwrap_err().to_string()
    );

    let mut raw: &[u8] = &[1, 0, 0, 0, 1, 0xff];
    assert_eq!(read_frame(&mut raw).unwrap(), Some(Frame::Stdout(vec![0xff])));
}

#[test]
fn a_wire_error_says_what_is_wrong() {
    let mut cursor: &[u8] = &[99];
    assert_eq!(read_frame(&mut cursor).unwrap_err().message(), "unknown frame tag 99");
    assert_eq!(WireError::Truncated.message(), "failed to fill whole buffer");
}

#[test]
fn names_and_switches_off_the_wire_are_made_safe() {
    let mut buffer = Vec::new();
    let mut original = invocation();
    original.flags = Vec::new();
    original.root = ProjectRoot::new(String::new());
    write_invocation(&mut buffer, &original);

    // The last byte is the switches, and the name stands right before it.
    let last = buffer.len() - 1;
    buffer[last] = 0b1111_1110;
    buffer[last - 6..last].copy_from_slice(b"../../");

    let read = read_invocation(&mut buffer.as_slice()).unwrap();
    assert_eq!(read.project_id.as_str(), ".._.._");
    assert_eq!(read.settings.bits(), 3);
}

#[test]
fn the_daemon_listens_in_the_home_directory() {
    assert_eq!(socket_path(Some("/home/dev")), "/home/dev/.mamba/daemon.sock");
    assert_eq!(socket_path(None), "/tmp/.mamba/daemon.sock");
}
