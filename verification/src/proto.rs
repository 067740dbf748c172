//! The messages that a control channel carries.

use vstd::prelude::*;

verus! {

/// Which artifact of a build is meant.
#[derive(Debug, Clone, Copy, PartialEq, Eq, Structural)]
pub enum Kind {
    /// The crate's binary, stripped of debug info.
    Binary,
    /// The binary's debug symbols.
    Symbols,
    /// The proc-macro libraries an editor loads.
    ProcMacros,
    /// The Rust source that build scripts wrote.
    GeneratedSource,
}

/// The number an artifact's name travels as.
pub open spec fn number_of(kind: Kind) -> i32 {
    match kind {
        Kind::Binary => 0,
        Kind::Symbols => 1,
        Kind::ProcMacros => 2,
        Kind::GeneratedSource => 3,
    }
}

impl Kind {
    /// The number this artifact's name travels as.
    pub fn number(self) -> (r: i32)
        ensures
            r == number_of(self),
    {
        match self {
            Kind::Binary => 0,
            Kind::Symbols => 1,
            Kind::ProcMacros => 2,
            Kind::GeneratedSource => 3,
        }
    }

    /// The artifact a number stands for, if it stands for one.
    pub fn from_number(number: i32) -> (r: Option<Kind>)
        ensures
            match r {
                Some(kind) => number_of(kind) == number,
                None => forall|kind: Kind| #[trigger] number_of(kind) != number,
            },
    {
        match number {
            0 => Some(Kind::Binary),
            1 => Some(Kind::Symbols),
            2 => Some(Kind::ProcMacros),
            3 => Some(Kind::GeneratedSource),
            _ => None,
        }
    }
}

/// No two artifacts share a number.
pub proof fn law_numbers_do_not_collide(a: Kind, b: Kind)
    ensures
        number_of(a) == number_of(b) ==> a == b,
{
}

/// Asks where a project's source should be pushed.
#[derive(Debug, Clone, PartialEq, Eq)]
pub struct UploadRequest {
    pub project_id: String,
}

/// Asks for a build.
#[derive(Debug, Clone, PartialEq, Eq)]
pub struct BuildRequest {
    pub project_id: String,
    pub args: Vec<String>,
    pub local_root: String,
}

/// Asks where one artifact of the last build ended up.
#[derive(Debug, Clone, PartialEq, Eq)]
pub struct ArtifactRequest {
    pub project_id: String,
    pub kind: i32,
}

/// One end of a transfer: a machine, who to log in as, what to read or write there, and where
/// the same thing belongs in a local project.
#[derive(Debug, Clone, PartialEq, Eq)]
pub struct TransferTarget {
    pub host: String,
    pub port: u32,
    pub user: String,
    pub path: String,
    pub relative_path: String,
}

/// A [`TransferTarget`] as contracts see it.
#[verifier::ext_equal]
pub struct TargetView {
    pub host: Seq<char>,
    pub port: u32,
    pub user: Seq<char>,
    pub path: Seq<char>,
    pub relative_path: Seq<char>,
}

impl View for TransferTarget {
    type V = TargetView;

    open spec fn view(&self) -> TargetView {
        TargetView {
            host: self.host@,
            port: self.port,
            user: self.user@,
            path: self.path@,
            relative_path: self.relative_path@,
        }
    }
}

/// One piece of what a build reports: some output, or the exit code it ended with.
#[derive(Debug, Clone, PartialEq, Eq)]
pub enum Payload {
    Stdout(Vec<u8>),
    Stderr(Vec<u8>),
    ExitCode(i32),
}

/// A [`Payload`] as contracts see it.
#[verifier::ext_equal]
pub enum PayloadView {
    Stdout(Seq<u8>),
    Stderr(Seq<u8>),
    ExitCode(i32),
}

impl View for Payload {
    type V = PayloadView;

    open spec fn view(&self) -> PayloadView {
        match self {
            Payload::Stdout(bytes) => PayloadView::Stdout(bytes@),
            Payload::Stderr(bytes) => PayloadView::Stderr(bytes@),
            Payload::ExitCode(code) => PayloadView::ExitCode(*code),
        }
    }
}

/// A message of a build's output stream. It carries one payload, or none where the sender left
/// it out.
#[derive(Debug, Clone, PartialEq, Eq)]
pub struct BuildEvent {
    pub payload: Option<Payload>,
}

impl View for BuildEvent {
    type V = Option<PayloadView>;

    open spec fn view(&self) -> Option<PayloadView> {
        match self.payload {
            Some(payload) => Some(payload@),
            None => None,
        }
    }
}

/// The number each artifact's name travels as.
pub proof fn law_numbers_on_the_wire(kind: Kind)
    ensures
        kind == Kind::Binary <==> number_of(kind) == 0,
        kind == Kind::Symbols <==> number_of(kind) == 1,
        kind == Kind::ProcMacros <==> number_of(kind) == 2,
        kind == Kind::GeneratedSource <==> number_of(kind) == 3,
{
}

/// A target, and what a build reports, is seen as what it holds.
pub proof fn law_messages_are_seen_as_they_are(target: TransferTarget, event: BuildEvent)
    ensures
        target@.host == target.host@,
        target@.port == target.port,
        target@.user == target.user@,
        target@.path == target.path@,
        target@.relative_path == target.relative_path@,
        match event.payload {
            None => event@ is None,
            Some(Payload::Stdout(bytes)) => event@ == Some(PayloadView::Stdout(bytes@)),
            Some(Payload::Stderr(bytes)) => event@ == Some(PayloadView::Stderr(bytes@)),
            Some(Payload::ExitCode(code)) => event@ == Some(PayloadView::ExitCode(code)),
        },
{
}

} // verus!
