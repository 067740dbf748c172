//! Reaching a `mamba-server`.
//!
//! What is asked of the server, and what is told of a server that does not answer. Transport
//! failures become a [`ChannelError`], which the daemon treats as a reason to fall back to ssh.
//!
//! The connection carries no credentials and no encryption.

use crate::channel::ChannelError;
use crate::proto::{number_of, ArtifactRequest, BuildRequest, Kind, UploadRequest};
use crate::text::{copy_text, copy_texts, decimal, decimal_form, glue2, glue4, texts};
use vstd::prelude::*;

verus! {

/// Where a `mamba-server` is expected to listen.
///
/// Fixed rather than configured: a user sets a hostname and nothing else, so the daemon has to
/// know where to look without being told.
pub const GRPC_PORT: u16 = 7777;

/// The address at which a host is asked whether it runs a server.
pub open spec fn server_address(host: Seq<char>) -> Seq<char> {
    "http://"@ + host + ":"@ + decimal_form(GRPC_PORT as nat)
}

/// Writes the address at which a host is asked whether it runs a server.
pub fn server_uri(host: &str) -> (r: String)
    ensures
        r@ == server_address(host@),
{
    glue4("http://", host, ":", decimal(GRPC_PORT as u64).as_str())
}

/// A step of talking to a server that can fail.
#[derive(Debug, Clone, Copy, PartialEq, Eq, Structural)]
pub enum Step {
    /// Asking where to push.
    Upload,
    /// Asking for a build.
    Build,
    /// Reading what a build reports.
    Stream,
    /// Asking for an artifact.
    Artifact,
}

/// What is told of a step that failed, before the reason.
pub open spec fn step_text(step: Step) -> Seq<char> {
    match step {
        Step::Upload => "upload target refused: "@,
        Step::Build => "build refused: "@,
        Step::Stream => "build stream broke: "@,
        Step::Artifact => "artifact unavailable: "@,
    }
}

/// The error for a server that could not be connected to.
pub fn cannot_reach(uri: &str, why: &str) -> (r: ChannelError)
    ensures
        r@ == "could not reach "@ + uri@ + ": "@ + why@,
{
    ChannelError(glue4("could not reach ", uri, ": ", why))
}

/// The error for a step that a server failed.
pub fn refused(step: Step, why: &str) -> (r: ChannelError)
    ensures
        r@ == step_text(step) + why@,
{
    ChannelError(
        glue2(
            match step {
                Step::Upload => "upload target refused: ",
                Step::Build => "build refused: ",
                Step::Stream => "build stream broke: ",
                Step::Artifact => "artifact unavailable: ",
            },
            why,
        ),
    )
}

/// The question where to push a project's source.
pub fn upload_request(project_id: &str) -> (r: UploadRequest)
    ensures
        r.project_id@ == project_id@,
{
    UploadRequest { project_id: copy_text(project_id) }
}

/// The request to build a project.
pub fn build_request(project_id: &str, args: &[String], local_root: &str) -> (r: BuildRequest)
    ensures
        r.project_id@ == project_id@,
        texts(r.args@) == texts(args@),
        r.local_root@ == local_root@,
{
    BuildRequest {
        project_id: copy_text(project_id),
        args: copy_texts(args),
        local_root: copy_text(local_root),
    }
}

/// The question where one artifact of a project is.
pub fn artifact_request(project_id: &str, kind: Kind) -> (r: ArtifactRequest)
    ensures
        r.project_id@ == project_id@,
        r.kind == number_of(kind),
{
    ArtifactRequest { project_id: copy_text(project_id), kind: kind.number() }
}

/// A host is asked at the one port that servers listen on, and each step that fails is told by
/// its own name.
pub proof fn law_where_a_host_is_asked(host: Seq<char>)
    ensures
        server_address(host) == "http://"@ + host + ":7777"@,
        step_text(Step::Upload) == "upload target refused: "@,
        step_text(Step::Build) == "build refused: "@,
        step_text(Step::Stream) == "build stream broke: "@,
        step_text(Step::Artifact) == "artifact unavailable: "@,
{
    reveal_with_fuel(decimal_form, 5);
    reveal_strlit(":7777");
    reveal_strlit(":");
    assert(decimal_form(7777) =~= seq!['7', '7', '7', '7']);
    assert(":7777"@ =~= ":"@ + decimal_form(7777));
    assert("http://"@ + host + ":"@ + decimal_form(7777) =~= "http://"@ + host + ":7777"@);
}

} // verus!
