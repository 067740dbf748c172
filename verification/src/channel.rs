//! What can go wrong with the far side, and a stand-in for it.
//!
//! Everything the daemon needs from wherever a build happens is three questions: where to push
//! a project's source, run a build, and where one artifact of it ended up.

use crate::proto::{BuildEvent, Kind, Payload, PayloadView, TargetView, TransferTarget};
use crate::text::{bytes_of, copy_text, glue2};
use vstd::prelude::*;
use vstd::utf8::encode_utf8;

verus! {

/// Something went wrong reaching or talking to the far side. Never a compile error: those
/// arrive as an exit code inside a perfectly healthy stream.
#[derive(Debug)]
pub struct ChannelError(pub String);

impl View for ChannelError {
    type V = Seq<char>;

    open spec fn view(&self) -> Seq<char> {
        self.0@
    }
}

impl ChannelError {
    /// What to tell of the error.
    pub fn message(&self) -> (r: String)
        ensures
            r@ == self@,
    {
        self.0.clone()
    }
}

/// What a question to the far side was answered, as contracts see it.
pub open spec fn target_answer(r: Result<TransferTarget, ChannelError>) -> Result<
    TargetView,
    Seq<char>,
> {
    match r {
        Ok(target) => Ok(target@),
        Err(e) => Err(e@),
    }
}

/// An in-memory far side, for trying the daemon out without a server or a network.
///
/// It advertises whatever host it is made with, which need not be like any control endpoint: a
/// transfer target must be obeyed exactly as given.
pub struct MockChannel {
    host: String,
}

impl View for MockChannel {
    type V = Seq<char>;

    closed spec fn view(&self) -> Seq<char> {
        self.host@
    }
}

/// The target that the stand-in on `host` gives for a path in a project.
pub open spec fn mock_target(host: Seq<char>, relative_path: Seq<char>) -> TargetView {
    TargetView {
        host,
        port: 22,
        user: "builder"@,
        path: "/srv/"@ + relative_path,
        relative_path,
    }
}

/// Where the stand-in says an artifact is.
pub open spec fn mock_artifact(kind: Kind) -> Seq<char> {
    match kind {
        Kind::Binary => "target/debug/app"@,
        Kind::Symbols => "target/debug/app.debug"@,
        Kind::ProcMacros => "target/debug/deps"@,
        Kind::GeneratedSource => "target/debug/build"@,
    }
}

impl MockChannel {
    pub fn new(host: &str) -> (r: MockChannel)
        ensures
            r@ == host@,
    {
        MockChannel { host: copy_text(host) }
    }

    fn target(&self, relative_path: &str) -> (r: TransferTarget)
        ensures
            r@ == mock_target(self@, relative_path@),
    {
        TransferTarget {
            host: self.host.clone(),
            port: 22,
            user: copy_text("builder"),
            path: glue2("/srv/", relative_path),
            relative_path: copy_text(relative_path),
        }
    }

    /// Where any project's source should be pushed.
    pub fn request_upload(&self, _project_id: &str) -> (r: Result<TransferTarget, ChannelError>)
        ensures
            r matches Ok(target) && target@ == mock_target(self@, ""@),
    {
        Ok(self.target(""))
    }

    /// What a build reports, from first to last: one line of output, and success.
    pub fn collect_build(
        &self,
        _project_id: &str,
        _args: &[String],
        _local_root: &str,
    ) -> (r: Result<Vec<BuildEvent>, ChannelError>)
        ensures
            r matches Ok(events) && events@.len() == 2 && events@[0]@ == Some(
                PayloadView::Stderr(encode_utf8("   Compiling app\n"@)),
            ) && events@[1]@ == Some(PayloadView::ExitCode(0)),
    {
        let mut events: Vec<BuildEvent> = Vec::new();
        events.push(BuildEvent { payload: Some(Payload::Stderr(bytes_of("   Compiling app\n"))) });
        events.push(BuildEvent { payload: Some(Payload::ExitCode(0)) });
        Ok(events)
    }

    /// Where one artifact of a build is.
    pub fn request_artifact(&self, _project_id: &str, kind: Kind) -> (r: Result<
        TransferTarget,
        ChannelError,
    >)
        ensures
            r matches Ok(target) && target@ == mock_target(self@, mock_artifact(kind)),
    {
        Ok(
            self.target(
                match kind {
                    Kind::Binary => "target/debug/app",
                    Kind::Symbols => "target/debug/app.debug",
                    Kind::ProcMacros => "target/debug/deps",
                    Kind::GeneratedSource => "target/debug/build",
                },
            ),
        )
    }
}

/// The stand-in names its own host for everything, and below it each artifact has its own place,
/// the same there as here.
pub proof fn law_the_stand_in_answers_by_its_host(host: Seq<char>, relative: Seq<char>)
    ensures
        mock_target(host, relative).host == host,
        mock_target(host, relative).port == 22,
        mock_target(host, relative).user == "builder"@,
        mock_target(host, relative).path == "/srv/"@ + relative,
        mock_target(host, relative).relative_path == relative,
        mock_artifact(Kind::Binary) == "target/debug/app"@,
        mock_artifact(Kind::Symbols) == "target/debug/app.debug"@,
        mock_artifact(Kind::ProcMacros) == "target/debug/deps"@,
        mock_artifact(Kind::GeneratedSource) == "target/debug/build"@,
{
}

/// An answer is seen as the target it gives, or as why there is none.
pub proof fn law_answers_are_seen_as_they_are(r: Result<TransferTarget, ChannelError>)
    ensures
        r matches Ok(target) ==> target_answer(r) == Ok::<TargetView, Seq<char>>(target@),
        r matches Err(e) ==> target_answer(r) == Err::<TargetView, Seq<char>>(e.0@),
{
}

} // verus!
