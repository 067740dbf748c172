//! The resident half of the tool.
//!
//! One process per user, started by the shim the first time a build needs it and left running
//! afterwards. Its whole job is holding connections open: a control channel per host and,
//! underneath rsync, one multiplexed ssh connection. Between builds it does nothing, except for
//! a slow sweep for channels nobody has used in ten minutes.
//!
//! It never decides where anything lives on the far side. It asks, then obeys.
//!
//! One build is a [`Session`]. The session says what is to be done next, somebody does it and
//! hands back how it went, and the session answers with the frames to send.

use crate::channel::{target_answer, ChannelError};
use crate::input::{is_on, Invocation, InvocationView, Switch, PULL, SYMBOLS};
use crate::ipc::{Frame, FrameView};
use crate::keyed::KeyedList;
use crate::proto::{BuildEvent, Kind, Payload, PayloadView, TargetView, TransferTarget};
use crate::text::{
    bytes_of, copy_text, copy_texts, decimal, decimal_form, glue3, glue5, outcome, texts,
};
use vstd::prelude::*;
use vstd::utf8::encode_utf8;

verus! {

/// How many seconds a channel survives with nothing using it. The daemon itself stays up.
pub const IDLE_TIMEOUT: u64 = 600;

/// How many seconds to wait for a `mamba-server` before falling back to plain ssh.
pub const PROBE_TIMEOUT: u64 = 2;

/// How many seconds any single call on an already-open channel gets before it is treated as
/// dead.
///
/// The probe above only bounds the *first* connection attempt. A channel that connects
/// successfully and is then cached can still go silent later: an idle TCP connection that a NAT
/// drops without sending a reset is one the OS's own retransmission timers can take upward of
/// fifteen minutes to notice. Every call made through a cached channel needs its own bound.
pub const RPC_TIMEOUT: u64 = 30;

/// What is told of a call that was not answered in time.
pub open spec fn silence(limit: u64) -> Seq<char> {
    "no response within "@ + decimal_form(limit as nat) + "s — the connection may be dead"@
}

/// Bounds a channel call, `answer` being what came back within the limit, in seconds, or `None`
/// where nothing did. Silence becomes a prompt, ordinary [`ChannelError`], the same error a
/// channel that failed to connect at all would produce, so a caller does not need a second
/// failure path for it.
pub fn bounded<T>(limit: u64, answer: Option<Result<T, ChannelError>>) -> (r: Result<
    T,
    ChannelError,
>)
    ensures
        match answer {
            Some(result) => r == result,
            None => r matches Err(e) && e@ == silence(limit),
        },
{
    match answer {
        Some(result) => result,
        None => Err(
            ChannelError(
                glue3(
                    "no response within ",
                    decimal(limit).as_str(),
                    "s — the connection may be dead",
                ),
            ),
        ),
    }
}

/// Picks a transport for a host: `mamba-server` if one answered the probe, plain ssh otherwise.
pub fn transport_name(answered: bool) -> (r: &'static str)
    ensures
        r@ == (if answered {
            "grpc"@
        } else {
            "ssh"@
        }),
{
    if answered {
        "grpc"
    } else {
        "ssh"
    }
}

/// An open channel, the transport's name, and when it was last used.
struct Slot<C> {
    channel: C,
    transport: &'static str,
    last: u64,
}

/// An open channel as contracts see it.
#[verifier::ext_equal]
pub struct SlotView<C> {
    pub channel: C,
    pub transport: Seq<char>,
    pub last: u64,
}

/// Open channels, keyed by host, with the transport's name and when each was last used. Moments
/// and the timeout are counted in one unit, from one moment on.
pub struct ChannelCache<C> {
    entries: KeyedList<Slot<C>>,
    timeout: u64,
}

/// A [`ChannelCache`] as contracts see it.
#[verifier::ext_equal]
pub struct CacheView<C> {
    pub entries: Map<Seq<char>, SlotView<C>>,
    pub timeout: u64,
}

spec fn slot_view<C>(slot: Slot<C>) -> SlotView<C> {
    SlotView { channel: slot.channel, transport: slot.transport@, last: slot.last }
}

spec fn slot_views<C>(entries: Map<Seq<char>, Slot<C>>) -> Map<Seq<char>, SlotView<C>> {
    entries.map_values(|slot: Slot<C>| slot_view(slot))
}

impl<C> View for ChannelCache<C> {
    type V = CacheView<C>;

    closed spec fn view(&self) -> CacheView<C> {
        CacheView { entries: slot_views(self.entries@), timeout: self.timeout }
    }
}

/// How long ago something was, or nothing where it is yet to come.
pub open spec fn time_since(now: u64, last: u64) -> int {
    if now >= last {
        now - last
    } else {
        0
    }
}

/// The channels that were used inside the timeout.
pub open spec fn still_fresh<C>(
    entries: Map<Seq<char>, SlotView<C>>,
    now: u64,
    timeout: u64,
) -> Map<Seq<char>, SlotView<C>> {
    Map::new(
        |host: Seq<char>|
            entries.contains_key(host) && time_since(now, entries[host].last) < timeout,
        |host: Seq<char>| entries[host],
    )
}

impl<C> ChannelCache<C> {
    pub fn new(timeout: u64) -> (r: ChannelCache<C>)
        ensures
            r@.entries == Map::<Seq<char>, SlotView<C>>::empty(),
            r@.timeout == timeout,
    {
        let cache = ChannelCache { entries: KeyedList::new(), timeout };
        assert(cache@.entries =~= Map::<Seq<char>, SlotView<C>>::empty());
        cache
    }

    pub fn len(&self) -> (r: usize)
        ensures
            self@.entries.dom().finite(),
            r == self@.entries.dom().len(),
    {
        assert(self@.entries.dom() =~= self.entries@.dom());
        self.entries.len()
    }

    pub fn insert(&mut self, host: &str, channel: C, transport: &'static str, now: u64)
        ensures
            final(self)@.entries == old(self)@.entries.insert(
                host@,
                (SlotView { channel, transport: transport@, last: now }),
            ),
            final(self)@.timeout == old(self)@.timeout,
    {
        self.entries.insert(host, Slot { channel, transport, last: now });
        assert(self@.entries =~= old(self)@.entries.insert(
            host@,
            SlotView { channel, transport: transport@, last: now },
        ));
    }

    /// The channel to a host, if one is open. Asking for it counts as using it.
    pub fn get(&mut self, host: &str, now: u64) -> (r: Option<(&C, &'static str)>)
        ensures
            final(self)@.timeout == old(self)@.timeout,
            match r {
                Some((channel, transport)) => {
                    &&& old(self)@.entries.contains_key(host@)
                    &&& *channel == old(self)@.entries[host@].channel
                    &&& transport@ == old(self)@.entries[host@].transport
                    &&& final(self)@.entries == old(self)@.entries.insert(
                        host@,
                        (SlotView { last: now, ..old(self)@.entries[host@] }),
                    )
                },
                None => !old(self)@.entries.contains_key(host@) && final(self)@.entries == old(
                    self,
                )@.entries,
            },
    {
        let ghost before = self@.entries;
        match self.entries.remove(host) {
            None => {
                assert(self@.entries =~= before);
                None
            },
            Some(slot) => {
                let transport = slot.transport;
                let ghost channel = slot.channel;
                self.entries.insert(host, Slot { channel: slot.channel, transport, last: now });
                proof {
                    assert(self@.entries =~= before.insert(
                        host@,
                        SlotView { last: now, ..before[host@] },
                    ));
                }
                match self.entries.get(host) {
                    Some(slot) => Some((&slot.channel, transport)),
                    None => None,
                }
            },
        }
    }

    /// Drops channels nobody has used inside the timeout.
    pub fn evict_idle(&mut self, now: u64)
        ensures
            final(self)@.entries == still_fresh(old(self)@.entries, now, old(self)@.timeout),
            final(self)@.timeout == old(self)@.timeout,
    {
        let mut left: KeyedList<Slot<C>> = KeyedList::new();
        core::mem::swap(&mut left, &mut self.entries);
        let ghost all = left@;
        let timeout = self.timeout;
        let mut kept: KeyedList<Slot<C>> = KeyedList::new();
        while left.len() > 0
            invariant
                forall|host: Seq<char>| #[trigger]
                    left@.contains_key(host) ==> all.contains_key(host) && all[host] == left@[host],
                forall|host: Seq<char>| #[trigger]
                    kept@.contains_key(host) <==> all.contains_key(host) && !left@.contains_key(
                        host,
                    ) && time_since(now, all[host].last) < timeout,
                forall|host: Seq<char>| #[trigger]
                    kept@.contains_key(host) ==> kept@[host] == all[host],
            decreases left@.dom().len(),
        {
            if let Some((host, slot)) = left.pop() {
                let idle: u64 = if now >= slot.last {
                    now - slot.last
                } else {
                    0
                };
                if idle < timeout {
                    kept.insert(host.as_str(), slot);
                }
            }
        }
        self.entries = kept;
        assert(self@.entries =~= still_fresh(old(self)@.entries, now, old(self)@.timeout));
    }
}

/// A sweep leaves a channel alone exactly where it was used inside the timeout, and leaves what
/// it does not drop as it was.
pub proof fn law_sweep_drops_the_idle<C>(
    entries: Map<Seq<char>, SlotView<C>>,
    now: u64,
    timeout: u64,
    host: Seq<char>,
)
    requires
        entries.contains_key(host),
    ensures
        still_fresh(entries, now, timeout).contains_key(host) <==> time_since(
            now,
            entries[host].last,
        ) < timeout,
        still_fresh(entries, now, timeout).contains_key(host) ==> still_fresh(
            entries,
            now,
            timeout,
        )[host] == entries[host],
        forall|other: Seq<char>| #[trigger]
            still_fresh(entries, now, timeout).contains_key(other) ==> entries.contains_key(other),
{
}

/// A channel that was just used survives every sweep until the timeout has passed since.
pub proof fn law_used_channel_survives<C>(
    entries: Map<Seq<char>, SlotView<C>>,
    host: Seq<char>,
    slot: SlotView<C>,
    now: u64,
    timeout: u64,
)
    requires
        time_since(now, slot.last) < timeout,
    ensures
        still_fresh(entries.insert(host, slot), now, timeout).contains_key(host),
        still_fresh(entries.insert(host, slot), now, timeout)[host] == slot,
{
}

/// Something to be done for a build.
#[derive(Debug)]
pub enum Action {
    /// Ask where this project's source should be pushed.
    RequestUpload(String),
    /// Push the source in this directory there.
    Push(String, TransferTarget),
    /// Start a build of this project with these flags, for a client with this root.
    StartBuild(String, Vec<String>, String),
    /// Wait for the next thing the build reports.
    NextEvent,
    /// Ask where this artifact of this project is.
    RequestArtifact(String, Kind),
    /// Fetch this artifact from there into this directory.
    Fetch(String, TransferTarget, Kind),
    /// Nothing; the conversation is over.
    Close,
}

/// An [`Action`] as contracts see it.
#[verifier::ext_equal]
pub enum ActionView {
    RequestUpload(Seq<char>),
    Push(Seq<char>, TargetView),
    StartBuild(Seq<char>, Seq<Seq<char>>, Seq<char>),
    NextEvent,
    RequestArtifact(Seq<char>, Kind),
    Fetch(Seq<char>, TargetView, Kind),
    Close,
}

impl View for Action {
    type V = ActionView;

    open spec fn view(&self) -> ActionView {
        match self {
            Action::RequestUpload(id) => ActionView::RequestUpload(id@),
            Action::Push(root, target) => ActionView::Push(root@, target@),
            Action::StartBuild(id, flags, root) => ActionView::StartBuild(
                id@,
                texts(flags@),
                root@,
            ),
            Action::NextEvent => ActionView::NextEvent,
            Action::RequestArtifact(id, kind) => ActionView::RequestArtifact(id@, *kind),
            Action::Fetch(root, target, kind) => ActionView::Fetch(root@, target@, *kind),
            Action::Close => ActionView::Close,
        }
    }
}

/// How something that was to be done went.
#[derive(Debug)]
pub enum Event {
    /// Where to push.
    Upload(Result<TransferTarget, ChannelError>),
    /// How the push went.
    Pushed(Result<(), String>),
    /// Whether the build started.
    Started(Result<(), ChannelError>),
    /// What the build reported, or `None` where it has nothing more to report.
    Reported(Option<Result<BuildEvent, ChannelError>>),
    /// Where the artifact is.
    Artifact(Result<TransferTarget, ChannelError>),
    /// Where the artifact landed.
    Fetched(Result<String, String>),
}

/// An [`Event`] as contracts see it.
#[verifier::ext_equal]
pub enum EventView {
    Upload(Result<TargetView, Seq<char>>),
    Pushed(Result<(), Seq<char>>),
    Started(Result<(), Seq<char>>),
    Reported(Option<Result<Option<PayloadView>, Seq<char>>>),
    Artifact(Result<TargetView, Seq<char>>),
    Fetched(Result<Seq<char>, Seq<char>>),
}

impl View for Event {
    type V = EventView;

    open spec fn view(&self) -> EventView {
        match self {
            Event::Upload(r) => EventView::Upload(target_answer(*r)),
            Event::Pushed(r) => EventView::Pushed(
                match r {
                    Ok(_) => Ok(()),
                    Err(why) => Err(why@),
                },
            ),
            Event::Started(r) => EventView::Started(
                match r {
                    Ok(_) => Ok(()),
                    Err(why) => Err(why@),
                },
            ),
            Event::Reported(r) => EventView::Reported(
                match r {
                    None => None,
                    Some(Ok(event)) => Some(Ok(event@)),
                    Some(Err(why)) => Some(Err(why@)),
                },
            ),
            Event::Artifact(r) => EventView::Artifact(target_answer(*r)),
            Event::Fetched(r) => EventView::Fetched(outcome(*r)),
        }
    }
}

/// How far a build has come.
enum Stage {
    Asking,
    Pushing(TransferTarget),
    Starting,
    /// The exit code reported so far.
    Streaming(i32),
    /// The artifacts still wanted.
    Requesting(Vec<Kind>),
    /// Where the first of the artifacts still wanted is.
    Fetching(TransferTarget, Vec<Kind>),
    Closed,
}

/// How far a build has come, as contracts see it.
#[verifier::ext_equal]
pub enum StageView {
    Asking,
    Pushing(TargetView),
    Starting,
    Streaming(i32),
    Requesting(Seq<Kind>),
    Fetching(TargetView, Seq<Kind>),
    Closed,
}

/// One build: what was asked for, over which transport, and how far it has come.
pub struct Session {
    invocation: Invocation,
    transport: String,
    stage: Stage,
}

/// A [`Session`] as contracts see it.
#[verifier::ext_equal]
pub struct SessionView {
    pub invocation: InvocationView,
    pub transport: Seq<char>,
    pub stage: StageView,
}

spec fn stage_view(stage: Stage) -> StageView {
    match stage {
        Stage::Asking => StageView::Asking,
        Stage::Pushing(target) => StageView::Pushing(target@),
        Stage::Starting => StageView::Starting,
        Stage::Streaming(exit) => StageView::Streaming(exit),
        Stage::Requesting(wanted) => StageView::Requesting(wanted@),
        Stage::Fetching(target, wanted) => StageView::Fetching(target@, wanted@),
        Stage::Closed => StageView::Closed,
    }
}

impl View for Session {
    type V = SessionView;

    closed spec fn view(&self) -> SessionView {
        SessionView {
            invocation: self.invocation@,
            transport: self.transport@,
            stage: stage_view(self.stage),
        }
    }
}

/// The artifacts that are fetched after a successful build, in this order. What an editor needs
/// comes down whether or not anyone asked for the binary.
pub open spec fn wanted_kinds(settings: u8) -> Seq<Kind> {
    seq![Kind::ProcMacros, Kind::GeneratedSource] + (if is_on(settings, Switch::Pull) {
        seq![Kind::Binary]
    } else {
        Seq::empty()
    }) + (if is_on(settings, Switch::Symbols) {
        seq![Kind::Symbols]
    } else {
        Seq::empty()
    })
}

impl StageView {
    /// A stage in which artifacts are fetched has one left to fetch.
    pub open spec fn valid(self) -> bool {
        match self {
            StageView::Requesting(wanted) => wanted.len() > 0,
            StageView::Fetching(_, wanted) => wanted.len() > 0,
            _ => true,
        }
    }
}

impl SessionView {
    /// A session that nothing has been done for yet.
    pub open spec fn start(invocation: InvocationView, transport: Seq<char>) -> SessionView {
        SessionView { invocation, transport, stage: StageView::Asking }
    }

    /// What is to be done next. The order is fixed: ask where to push, push, build, then ask for
    /// each artifact wanted and fetch it.
    pub open spec fn due(self) -> ActionView {
        let id = self.invocation.project_id;
        let root = self.invocation.root;
        match self.stage {
            StageView::Asking => ActionView::RequestUpload(id),
            StageView::Pushing(target) => ActionView::Push(root, target),
            StageView::Starting => ActionView::StartBuild(id, self.invocation.flags, root),
            StageView::Streaming(_) => ActionView::NextEvent,
            StageView::Requesting(wanted) => ActionView::RequestArtifact(id, wanted[0]),
            StageView::Fetching(target, wanted) => ActionView::Fetch(root, target, wanted[0]),
            StageView::Closed => ActionView::Close,
        }
    }

    /// Whether an event says how what is due next went.
    pub open spec fn expects(self, event: EventView) -> bool {
        match self.stage {
            StageView::Asking => event is Upload,
            StageView::Pushing(_) => event is Pushed,
            StageView::Starting => event is Started,
            StageView::Streaming(_) => event is Reported,
            StageView::Requesting(_) => event is Artifact,
            StageView::Fetching(_, _) => event is Fetched,
            StageView::Closed => false,
        }
    }

    pub open spec fn at(self, stage: StageView) -> SessionView {
        SessionView { stage, ..self }
    }

    /// The stage after the first of the wanted artifacts has been dealt with, and the frame that
    /// closes the conversation where it was the last. The build succeeded, whatever became of
    /// the artifact.
    pub open spec fn past_first(self, wanted: Seq<Kind>) -> (SessionView, Seq<FrameView>) {
        if wanted.len() <= 1 {
            (self.at(StageView::Closed), seq![FrameView::Exit(0)])
        } else {
            (self.at(StageView::Requesting(wanted.skip(1))), Seq::empty())
        }
    }

    /// Where an event leads, and the frames it makes.
    pub open spec fn after(self, event: EventView) -> (SessionView, Seq<FrameView>) {
        match (self.stage, event) {
            (StageView::Asking, EventView::Upload(Ok(target))) => (
                self.at(StageView::Pushing(target)),
                seq![
                    FrameView::Status(
                        "Syncing"@,
                        self.invocation.project_id + " to "@ + target.host + " via "@
                            + self.transport,
                    ),
                ],
            ),
            (StageView::Asking, EventView::Upload(Err(why))) => self.failed(why),
            (StageView::Pushing(_), EventView::Pushed(Ok(_))) => (
                self.at(StageView::Starting),
                Seq::empty(),
            ),
            (StageView::Pushing(_), EventView::Pushed(Err(why))) => self.failed(why),
            (StageView::Starting, EventView::Started(Ok(_))) => (
                self.at(StageView::Streaming(1)),
                Seq::empty(),
            ),
            (StageView::Starting, EventView::Started(Err(why))) => self.failed(why),
            (StageView::Streaming(exit), EventView::Reported(Some(Ok(payload)))) => match payload {
                Some(PayloadView::Stdout(bytes)) => (self, seq![FrameView::Stdout(bytes)]),
                Some(PayloadView::Stderr(bytes)) => (self, seq![FrameView::Stderr(bytes)]),
                Some(PayloadView::ExitCode(code)) => (
                    self.at(StageView::Streaming(code)),
                    Seq::empty(),
                ),
                None => (self, Seq::empty()),
            },
            (StageView::Streaming(_), EventView::Reported(Some(Err(why)))) => self.failed(why),
            (StageView::Streaming(exit), EventView::Reported(None)) => if exit == 0 {
                (
                    self.at(StageView::Requesting(wanted_kinds(self.invocation.settings))),
                    Seq::empty(),
                )
            } else {
                (self.at(StageView::Closed), seq![FrameView::Exit(exit)])
            },
            (StageView::Requesting(wanted), EventView::Artifact(Ok(target))) => (
                self.at(StageView::Fetching(target, wanted)),
                Seq::empty(),
            ),
            (StageView::Requesting(wanted), EventView::Artifact(Err(why))) => {
                let next = self.past_first(wanted);
                (next.0, seq![complaint("mamba: "@, why)] + next.1)
            },
            (StageView::Fetching(_, wanted), EventView::Fetched(Ok(path))) => {
                let next = self.past_first(wanted);
                (next.0, landed(wanted[0], path) + next.1)
            },
            (StageView::Fetching(_, wanted), EventView::Fetched(Err(why))) => {
                let next = self.past_first(wanted);
                (next.0, seq![complaint("mamba: fetch failed: "@, why)] + next.1)
            },
            _ => (self, Seq::empty()),
        }
    }

    /// The build never ran, or its connection broke.
    pub open spec fn failed(self, why: Seq<char>) -> (SessionView, Seq<FrameView>) {
        (self.at(StageView::Closed), seq![FrameView::Failed(why)])
    }
}

/// A line on standard error about an artifact that could not be had.
pub open spec fn complaint(lead: Seq<char>, why: Seq<char>) -> FrameView {
    FrameView::Stderr(encode_utf8(lead + why + "\n"@))
}

/// What is told of an artifact that landed: only what somebody asked for is announced.
pub open spec fn landed(kind: Kind, path: Seq<char>) -> Seq<FrameView> {
    if kind == Kind::Binary || kind == Kind::Symbols {
        seq![FrameView::Status("Downloaded"@, path)]
    } else {
        Seq::empty()
    }
}

/// The frames of a list, as contracts see them.
pub open spec fn frame_views(frames: Seq<Frame>) -> Seq<FrameView> {
    Seq::new(frames.len(), |i: int| frames[i]@)
}

fn no_frames() -> (r: Vec<Frame>)
    ensures
        frame_views(r@) == Seq::<FrameView>::empty(),
{
    let frames: Vec<Frame> = Vec::new();
    assert(frame_views(frames@) =~= Seq::<FrameView>::empty());
    frames
}

fn one_frame(frame: Frame) -> (r: Vec<Frame>)
    ensures
        frame_views(r@) == seq![frame@],
{
    let mut frames: Vec<Frame> = Vec::new();
    frames.push(frame);
    assert(frame_views(frames@) =~= seq![frame@]);
    frames
}

fn add_frame(frames: &mut Vec<Frame>, frame: Frame)
    ensures
        frame_views(final(frames)@) == frame_views(old(frames)@).push(frame@),
{
    frames.push(frame);
    assert(frame_views(frames@) =~= frame_views(old(frames)@).push(frame@));
}

fn complaint_frame(lead: &str, why: &str) -> (r: Frame)
    ensures
        r@ == complaint(lead@, why@),
{
    Frame::Stderr(bytes_of(glue3(lead, why, "\n").as_str()))
}

fn copy_target(target: &TransferTarget) -> (r: TransferTarget)
    ensures
        r@ == target@,
{
    TransferTarget {
        host: target.host.clone(),
        port: target.port,
        user: target.user.clone(),
        path: target.path.clone(),
        relative_path: target.relative_path.clone(),
    }
}

impl Session {
    #[verifier::type_invariant]
    spec fn is_valid(self) -> bool {
        stage_view(self.stage).valid()
    }

    pub fn new(invocation: Invocation, transport: &str) -> (r: Session)
        ensures
            r@ == SessionView::start(invocation@, transport@),
    {
        Session { invocation, transport: copy_text(transport), stage: Stage::Asking }
    }

    /// What is to be done next.
    pub fn action(&self) -> (r: Action)
        ensures
            r@ == self@.due(),
            self@.stage.valid(),
    {
        proof {
            use_type_invariant(self);
        }
        let id = copy_text(self.invocation.project_id.as_str());
        let root = copy_text(self.invocation.root.as_path());
        match &self.stage {
            Stage::Asking => Action::RequestUpload(id),
            Stage::Pushing(target) => Action::Push(root, copy_target(target)),
            Stage::Starting => Action::StartBuild(
                id,
                copy_texts(self.invocation.flags.as_slice()),
                root,
            ),
            Stage::Streaming(_) => Action::NextEvent,
            Stage::Requesting(wanted) => Action::RequestArtifact(id, wanted[0]),
            Stage::Fetching(target, wanted) => Action::Fetch(root, copy_target(target), wanted[0]),
            Stage::Closed => Action::Close,
        }
    }

    fn wanted(&self) -> (r: Vec<Kind>)
        ensures
            r@ == wanted_kinds(self@.invocation.settings),
    {
        let mut wanted: Vec<Kind> = Vec::new();
        wanted.push(Kind::ProcMacros);
        wanted.push(Kind::GeneratedSource);
        if self.invocation.settings.has(PULL) {
            wanted.push(Kind::Binary);
        }
        if self.invocation.settings.has(SYMBOLS) {
            wanted.push(Kind::Symbols);
        }
        assert(wanted@ =~= wanted_kinds(self@.invocation.settings));
        wanted
    }

    /// Closes the conversation.
    fn close(&mut self, frame: Frame) -> (r: Vec<Frame>)
        ensures
            final(self)@ == old(self)@.at(StageView::Closed),
            frame_views(r@) == seq![frame@],
    {
        self.stage = Stage::Closed;
        one_frame(frame)
    }

    /// Goes past the first of the wanted artifacts, having made `frames` of it.
    fn advance(&mut self, wanted: Vec<Kind>, frames: Vec<Frame>) -> (r: Vec<Frame>)
        requires
            wanted@.len() > 0,
        ensures
            final(self)@ == old(self)@.past_first(wanted@).0,
            frame_views(r@) == frame_views(frames@) + old(self)@.past_first(wanted@).1,
    {
        let mut wanted = wanted;
        let mut frames = frames;
        let ghost all = wanted@;
        let ghost before = frame_views(frames@);
        if wanted.len() == 1 {
            self.stage = Stage::Closed;
            add_frame(&mut frames, Frame::Exit(0));
            assert(frame_views(frames@) =~= before + seq![FrameView::Exit(0)]);
        } else {
            let _ = wanted.remove(0);
            assert(wanted@ =~= all.skip(1));
            self.stage = Stage::Requesting(wanted);
            assert(before + Seq::<FrameView>::empty() =~= before);
        }
        frames
    }

    /// Takes in how what was due went, and gives the frames to send. A failed fetch is reported
    /// and forgotten: the build already succeeded, and its exit code is the answer that was
    /// asked for.
    pub fn step(&mut self, event: Event) -> (r: Vec<Frame>)
        requires
            old(self)@.expects(event@),
        ensures
            final(self)@ == old(self)@.after(event@).0,
            frame_views(r@) == old(self)@.after(event@).1,
    {
        proof {
            use_type_invariant(&*self);
        }
        let mut stage = Stage::Closed;
        core::mem::swap(&mut stage, &mut self.stage);
        match (stage, event) {
            (Stage::Asking, Event::Upload(Ok(target))) => {
                let message = glue5(
                    self.invocation.project_id.as_str(),
                    " to ",
                    target.host.as_str(),
                    " via ",
                    self.transport.as_str(),
                );
                self.stage = Stage::Pushing(target);
                one_frame(Frame::Status(copy_text("Syncing"), message))
            },
            (Stage::Asking, Event::Upload(Err(why))) => self.close(Frame::Failed(why.message())),
            (Stage::Pushing(_), Event::Pushed(Ok(_))) => {
                self.stage = Stage::Starting;
                no_frames()
            },
            (Stage::Pushing(_), Event::Pushed(Err(why))) => self.close(Frame::Failed(why)),
            (Stage::Starting, Event::Started(Ok(_))) => {
                self.stage = Stage::Streaming(1);
                no_frames()
            },
            (Stage::Starting, Event::Started(Err(why))) => self.close(
                Frame::Failed(why.message()),
            ),
            (Stage::Streaming(exit), Event::Reported(Some(Ok(event)))) => match event.payload {
                Some(Payload::Stdout(bytes)) => {
                    self.stage = Stage::Streaming(exit);
                    one_frame(Frame::Stdout(bytes))
                },
                Some(Payload::Stderr(bytes)) => {
                    self.stage = Stage::Streaming(exit);
                    one_frame(Frame::Stderr(bytes))
                },
                Some(Payload::ExitCode(code)) => {
                    self.stage = Stage::Streaming(code);
                    no_frames()
                },
                None => {
                    self.stage = Stage::Streaming(exit);
                    no_frames()
                },
            },
            (Stage::Streaming(_), Event::Reported(Some(Err(why)))) => self.close(
                Frame::Failed(why.message()),
            ),
            (Stage::Streaming(exit), Event::Reported(None)) => {
                if exit == 0 {
                    let wanted = self.wanted();
                    self.stage = Stage::Requesting(wanted);
                    no_frames()
                } else {
                    self.close(Frame::Exit(exit))
                }
            },
            (Stage::Requesting(wanted), Event::Artifact(Ok(target))) => {
                self.stage = Stage::Fetching(target, wanted);
                no_frames()
            },
            (Stage::Requesting(wanted), Event::Artifact(Err(why))) => {
                let frames = one_frame(complaint_frame("mamba: ", why.message().as_str()));
                self.advance(wanted, frames)
            },
            (Stage::Fetching(_, wanted), Event::Fetched(Ok(path))) => {
                let frames = match wanted[0] {
                    Kind::Binary | Kind::Symbols => one_frame(
                        Frame::Status(copy_text("Downloaded"), path),
                    ),
                    _ => no_frames(),
                };
                self.advance(wanted, frames)
            },
            (Stage::Fetching(_, wanted), Event::Fetched(Err(why))) => {
                let frames = one_frame(complaint_frame("mamba: fetch failed: ", why.as_str()));
                self.advance(wanted, frames)
            },
            _ => no_frames(),
        }
    }
}

/// Where events, one after the other, lead, and all the frames they make.
pub open spec fn run(session: SessionView, events: Seq<EventView>) -> (SessionView, Seq<FrameView>)
    decreases events.len(),
{
    if events.len() == 0 {
        (session, Seq::empty())
    } else {
        let next = session.after(events[0]);
        let end = run(next.0, events.drop_first());
        (end.0, next.1 + end.1)
    }
}

/// Events each of which says how what was due went.
pub open spec fn proper(session: SessionView, events: Seq<EventView>) -> bool
    decreases events.len(),
{
    events.len() == 0 || (session.expects(events[0]) && proper(
        session.after(events[0]).0,
        events.drop_first(),
    ))
}

/// A frame that ends the conversation.
pub open spec fn closing(frame: FrameView) -> bool {
    frame is Exit || frame is Failed
}

/// Every conversation has at most one closing frame, which comes last, and it has been sent
/// exactly when there is nothing left to do.
pub proof fn law_closing_frame_is_the_last(session: SessionView, events: Seq<EventView>)
    requires
        session.stage.valid(),
        session.stage !is Closed,
        proper(session, events),
    ensures
        ({
            let (end, frames) = run(session, events);
            &&& end.stage.valid()
            &&& end.stage is Closed <==> frames.len() > 0 && closing(frames.last())
            &&& forall|i: int| 0 <= i < frames.len() - 1 ==> !closing(#[trigger] frames[i])
        }),
    decreases events.len(),
{
    if events.len() > 0 {
        let next = session.after(events[0]);
        let rest = events.drop_first();
        let end = run(next.0, rest);
        lemma_step_closes(session, events[0]);
        reveal_with_fuel(proper, 2);
        if next.0.stage is Closed {
            assert(rest.len() == 0);
            assert(next.1 + end.1 =~= next.1);
        } else {
            law_closing_frame_is_the_last(next.0, rest);
            let frames = next.1 + end.1;
            assert forall|i: int| 0 <= i < frames.len() - 1 implies !closing(
                #[trigger] frames[i],
            ) by {
                if i < next.1.len() {
                    assert(frames[i] == next.1[i]);
                } else {
                    assert(frames[i] == end.1[i - next.1.len()]);
                }
            }
            if end.1.len() > 0 {
                assert(frames.last() == end.1.last());
            } else if next.1.len() > 0 {
                assert(frames.last() == next.1.last());
            }
        }
    }
}

proof fn lemma_step_closes(session: SessionView, event: EventView)
    requires
        session.stage.valid(),
        session.expects(event),
    ensures
        ({
            let (next, frames) = session.after(event);
            &&& next.stage.valid()
            &&& next.stage is Closed ==> frames.len() > 0 && closing(frames.last()) && forall|
                i: int,
            |
                0 <= i < frames.len() - 1 ==> !closing(#[trigger] frames[i])
            &&& next.stage !is Closed ==> forall|i: int|
                0 <= i < frames.len() ==> !closing(#[trigger] frames[i])
        }),
{
}

/// The exit code a build has reported after one more event.
pub open spec fn exit_after(exit: i32, event: EventView) -> i32 {
    match event {
        EventView::Reported(Some(Ok(Some(PayloadView::ExitCode(code))))) => code,
        _ => exit,
    }
}

/// The last exit code that a build reported, or `exit` where it reported none.
pub open spec fn exit_reported(exit: i32, events: Seq<EventView>) -> i32
    decreases events.len(),
{
    if events.len() == 0 {
        exit
    } else {
        exit_reported(exit_after(exit, events[0]), events.drop_first())
    }
}

/// The exit code that a stage goes by: 1 until a build has reported one, and 0 where artifacts
/// are fetched.
pub open spec fn exit_so_far(stage: StageView) -> i32 {
    match stage {
        StageView::Streaming(exit) => exit,
        StageView::Requesting(_) => 0,
        StageView::Fetching(_, _) => 0,
        _ => 1,
    }
}

/// The exit code that is sent is the last one the build reported, or 1 where it reported none;
/// nothing that happens to an artifact changes it. Artifacts are asked for and fetched only
/// after a build that reported success.
pub proof fn law_exit_code_is_the_builds_own(session: SessionView, events: Seq<EventView>)
    requires
        session.stage.valid(),
        session.stage !is Closed,
        proper(session, events),
    ensures
        ({
            let (end, frames) = run(session, events);
            let exit = exit_reported(exit_so_far(session.stage), events);
            &&& end.stage !is Closed ==> exit_so_far(end.stage) == exit
            &&& end.stage is Requesting || end.stage is Fetching ==> exit == 0
            &&& end.stage is Closed && frames.last() is Exit ==> frames.last() == FrameView::Exit(
                exit,
            )
        }),
    decreases events.len(),
{
    if events.len() > 0 {
        let next = session.after(events[0]);
        let rest = events.drop_first();
        let end = run(next.0, rest);
        lemma_step_closes(session, events[0]);
        reveal_with_fuel(proper, 2);
        reveal_with_fuel(exit_reported, 2);
        if next.0.stage is Closed {
            assert(rest.len() == 0);
            assert(next.1 + end.1 =~= next.1);
        } else {
            assert(exit_so_far(next.0.stage) == exit_after(exit_so_far(session.stage), events[0]));
            law_exit_code_is_the_builds_own(next.0, rest);
            law_closing_frame_is_the_last(next.0, rest);
            if end.1.len() > 0 {
                assert((next.1 + end.1).last() == end.1.last());
            }
        }
    }
}

/// Everything that a build can be answered with.
pub struct Answers {
    /// Where to push.
    pub upload: Result<TargetView, Seq<char>>,
    /// How the push went.
    pub push: Result<(), Seq<char>>,
    /// Whether the build started.
    pub start: Result<(), Seq<char>>,
    /// What the build reported.
    pub reports: Seq<Option<PayloadView>>,
    /// What broke the connection after that, if anything did.
    pub broke: Option<Seq<char>>,
    /// Where each artifact is.
    pub artifacts: spec_fn(Kind) -> Result<TargetView, Seq<char>>,
    /// Where each artifact landed.
    pub fetches: spec_fn(Kind) -> Result<Seq<char>, Seq<char>>,
}

/// The frames for what a build reported.
pub open spec fn output_frames(reports: Seq<Option<PayloadView>>) -> Seq<FrameView>
    decreases reports.len(),
{
    if reports.len() == 0 {
        Seq::empty()
    } else {
        (match reports[0] {
            Some(PayloadView::Stdout(bytes)) => seq![FrameView::Stdout(bytes)],
            Some(PayloadView::Stderr(bytes)) => seq![FrameView::Stderr(bytes)],
            _ => Seq::empty(),
        }) + output_frames(reports.drop_first())
    }
}

/// The last exit code among what a build reported, or `exit` where there is none.
pub open spec fn final_exit(exit: i32, reports: Seq<Option<PayloadView>>) -> i32
    decreases reports.len(),
{
    if reports.len() == 0 {
        exit
    } else {
        final_exit(
            match reports[0] {
                Some(PayloadView::ExitCode(code)) => code,
                _ => exit,
            },
            reports.drop_first(),
        )
    }
}

/// The frames for artifacts, in order.
pub open spec fn artifact_frames(kinds: Seq<Kind>, answers: Answers) -> Seq<FrameView>
    decreases kinds.len(),
{
    if kinds.len() == 0 {
        Seq::empty()
    } else {
        (match (answers.artifacts)(kinds[0]) {
            Err(why) => seq![complaint("mamba: "@, why)],
            Ok(_) => match (answers.fetches)(kinds[0]) {
                Err(why) => seq![complaint("mamba: fetch failed: "@, why)],
                Ok(path) => landed(kinds[0], path),
            },
        }) + artifact_frames(kinds.skip(1), answers)
    }
}

/// The whole conversation: announce where the source goes and over which transport, pass on what
/// the build prints, tell what became of the artifacts where the build succeeded, and end with
/// the build's exit code; or end early with the reason why there was no build.
pub open spec fn conversation(
    invocation: InvocationView,
    transport: Seq<char>,
    answers: Answers,
) -> Seq<FrameView> {
    match answers.upload {
        Err(why) => seq![FrameView::Failed(why)],
        Ok(target) => seq![
            FrameView::Status(
                "Syncing"@,
                invocation.project_id + " to "@ + target.host + " via "@ + transport,
            ),
        ] + match answers.push {
            Err(why) => seq![FrameView::Failed(why)],
            Ok(_) => match answers.start {
                Err(why) => seq![FrameView::Failed(why)],
                Ok(_) => output_frames(answers.reports) + match answers.broke {
                    Some(why) => seq![FrameView::Failed(why)],
                    None => {
                        let exit = final_exit(1, answers.reports);
                        (if exit == 0 {
                            artifact_frames(wanted_kinds(invocation.settings), answers)
                        } else {
                            Seq::empty()
                        }) + seq![FrameView::Exit(exit)]
                    },
                },
            },
        },
    }
}

/// The events for what a build reported.
pub open spec fn report_events(reports: Seq<Option<PayloadView>>) -> Seq<EventView> {
    reports.map_values(|payload: Option<PayloadView>| EventView::Reported(Some(Ok(payload))))
}

/// The events for artifacts, in order.
pub open spec fn artifact_events(kinds: Seq<Kind>, answers: Answers) -> Seq<EventView>
    decreases kinds.len(),
{
    if kinds.len() == 0 {
        Seq::empty()
    } else {
        (match (answers.artifacts)(kinds[0]) {
            Err(why) => seq![EventView::Artifact(Err(why))],
            Ok(target) => seq![
                EventView::Artifact(Ok(target)),
                EventView::Fetched((answers.fetches)(kinds[0])),
            ],
        }) + artifact_events(kinds.skip(1), answers)
    }
}

/// The events that the answers give, as far as they are asked for.
pub open spec fn events_of(invocation: InvocationView, answers: Answers) -> Seq<EventView> {
    seq![EventView::Upload(answers.upload)] + match answers.upload {
        Err(_) => Seq::empty(),
        Ok(_) => seq![EventView::Pushed(answers.push)] + match answers.push {
            Err(_) => Seq::empty(),
            Ok(_) => seq![EventView::Started(answers.start)] + match answers.start {
                Err(_) => Seq::empty(),
                Ok(_) => report_events(answers.reports) + match answers.broke {
                    Some(why) => seq![EventView::Reported(Some(Err(why)))],
                    None => seq![EventView::Reported(None)] + (if final_exit(1, answers.reports)
                        == 0 {
                        artifact_events(wanted_kinds(invocation.settings), answers)
                    } else {
                        Seq::empty()
                    }),
                },
            },
        },
    }
}

proof fn lemma_first_event(session: SessionView, event: EventView, rest: Seq<EventView>)
    ensures
        run(session, seq![event] + rest).0 == run(session.after(event).0, rest).0,
        run(session, seq![event] + rest).1 == session.after(event).1 + run(
            session.after(event).0,
            rest,
        ).1,
        proper(session, seq![event] + rest) <==> session.expects(event) && proper(
            session.after(event).0,
            rest,
        ),
{
    let all = seq![event] + rest;
    assert(all[0] == event);
    assert(all.drop_first() =~= rest);
}

proof fn lemma_reports(
    session: SessionView,
    exit: i32,
    reports: Seq<Option<PayloadView>>,
    rest: Seq<EventView>,
)
    requires
        session.stage == StageView::Streaming(exit),
    ensures
        ({
            let there = session.at(StageView::Streaming(final_exit(exit, reports)));
            let all = report_events(reports) + rest;
            &&& run(session, all).0 == run(there, rest).0
            &&& run(session, all).1 == output_frames(reports) + run(there, rest).1
            &&& proper(session, all) <==> proper(there, rest)
        }),
    decreases reports.len(),
{
    let all = report_events(reports) + rest;
    if reports.len() == 0 {
        assert(all =~= rest);
        assert(session.at(StageView::Streaming(exit)) == session);
        assert(output_frames(reports) + run(session, rest).1 =~= run(session, rest).1);
    } else {
        let event = EventView::Reported(Some(Ok(reports[0])));
        let more = reports.drop_first();
        let next = session.after(event).0;
        let next_exit = match reports[0] {
            Some(PayloadView::ExitCode(code)) => code,
            _ => exit,
        };
        assert(next.stage == StageView::Streaming(next_exit));
        assert(next.at(StageView::Streaming(final_exit(next_exit, more))) == session.at(
            StageView::Streaming(final_exit(exit, reports)),
        ));
        assert(all =~= seq![event] + (report_events(more) + rest));
        lemma_first_event(session, event, report_events(more) + rest);
        lemma_reports(next, next_exit, more, rest);
        let there = session.at(StageView::Streaming(final_exit(exit, reports)));
        assert(session.after(event).1 + (output_frames(more) + run(there, rest).1) =~= output_frames(
            reports,
        ) + run(there, rest).1);
    }
}

#[verifier::rlimit(40)]
proof fn lemma_artifacts(session: SessionView, kinds: Seq<Kind>, answers: Answers)
    requires
        session.stage == StageView::Requesting(kinds),
        kinds.len() > 0,
    ensures
        proper(session, artifact_events(kinds, answers)),
        run(session, artifact_events(kinds, answers)).0 == session.at(StageView::Closed),
        run(session, artifact_events(kinds, answers)).1 == artifact_frames(kinds, answers) + seq![
            FrameView::Exit(0),
        ],
    decreases kinds.len(),
{
    let more = kinds.skip(1);
    let rest = artifact_events(more, answers);
    let next = session.past_first(kinds);
    let told = artifact_frames(more, answers);
    let end = seq![FrameView::Exit(0)];
    // What follows the first artifact, whatever became of it.
    if kinds.len() > 1 {
        lemma_artifacts(next.0, more, answers);
        assert(next.0.at(StageView::Closed) == session.at(StageView::Closed));
    } else {
        assert(rest =~= Seq::<EventView>::empty());
        assert(told =~= Seq::<FrameView>::empty());
    }
    assert(proper(next.0, rest));
    assert(run(next.0, rest).0 == session.at(StageView::Closed));
    assert(next.1 + run(next.0, rest).1 =~= told + end);
    match (answers.artifacts)(kinds[0]) {
        Err(why) => {
            let event = EventView::Artifact(Err(why));
            lemma_first_event(session, event, rest);
            let first = seq![complaint("mamba: "@, why)];
            assert((first + next.1) + run(next.0, rest).1 =~= first + (next.1 + run(
                next.0,
                rest,
            ).1));
            assert(first + (told + end) =~= artifact_frames(kinds, answers) + end);
        },
        Ok(target) => {
            let ask = EventView::Artifact(Ok(target));
            let fetched = (answers.fetches)(kinds[0]);
            let fetch = EventView::Fetched(fetched);
            let there = session.at(StageView::Fetching(target, kinds));
            assert(there.past_first(kinds) == next);
            assert(seq![ask, fetch] + rest =~= seq![ask] + (seq![fetch] + rest));
            lemma_first_event(session, ask, seq![fetch] + rest);
            lemma_first_event(there, fetch, rest);
            let first = match fetched {
                Err(why) => seq![complaint("mamba: fetch failed: "@, why)],
                Ok(path) => landed(kinds[0], path),
            };
            assert(there.after(fetch) == (next.0, first + next.1));
            assert((first + next.1) + run(next.0, rest).1 =~= first + (next.1 + run(
                next.0,
                rest,
            ).1));
            assert(first + (told + end) =~= artifact_frames(kinds, answers) + end);
            assert(Seq::<FrameView>::empty() + (artifact_frames(kinds, answers) + end)
                =~= artifact_frames(kinds, answers) + end);
        },
    }
}

proof fn lemma_build(session: SessionView, answers: Answers)
    requires
        session.stage == StageView::Streaming(1),
    ensures
        ({
            let exit = final_exit(1, answers.reports);
            let kinds = wanted_kinds(session.invocation.settings);
            let events = report_events(answers.reports) + match answers.broke {
                Some(why) => seq![EventView::Reported(Some(Err(why)))],
                None => seq![EventView::Reported(None)] + (if exit == 0 {
                    artifact_events(kinds, answers)
                } else {
                    Seq::empty()
                }),
            };
            let frames = output_frames(answers.reports) + match answers.broke {
                Some(why) => seq![FrameView::Failed(why)],
                None => (if exit == 0 {
                    artifact_frames(kinds, answers)
                } else {
                    Seq::empty()
                }) + seq![FrameView::Exit(exit)],
            };
            &&& proper(session, events)
            &&& run(session, events).0 == session.at(StageView::Closed)
            &&& run(session, events).1 == frames
        }),
{
    let exit = final_exit(1, answers.reports);
    let kinds = wanted_kinds(session.invocation.settings);
    let there = session.at(StageView::Streaming(exit));
    let none = Seq::<EventView>::empty();
    match answers.broke {
        Some(why) => {
            let event = EventView::Reported(Some(Err(why)));
            lemma_reports(session, 1, answers.reports, seq![event]);
            assert(seq![event] =~= seq![event] + none);
            lemma_first_event(there, event, none);
            assert(run(there, seq![event]).1 =~= seq![FrameView::Failed(why)]);
        },
        None => {
            let event = EventView::Reported(None);
            if exit == 0 {
                let asking = there.after(event).0;
                lemma_reports(
                    session,
                    1,
                    answers.reports,
                    seq![event] + artifact_events(kinds, answers),
                );
                lemma_first_event(there, event, artifact_events(kinds, answers));
                lemma_artifacts(asking, kinds, answers);
                assert(run(there, seq![event] + artifact_events(kinds, answers)).1
                    =~= artifact_frames(kinds, answers) + seq![FrameView::Exit(0)]);
            } else {
                lemma_reports(session, 1, answers.reports, seq![event] + none);
                lemma_first_event(there, event, none);
                assert(run(there, seq![event] + none).1 =~= Seq::<FrameView>::empty() + seq![
                    FrameView::Exit(exit),
                ]);
            }
        },
    }
}

/// A session that is answered, from first to last, holds exactly the conversation, and is then
/// closed.
pub proof fn law_session_holds_the_conversation(
    invocation: InvocationView,
    transport: Seq<char>,
    answers: Answers,
)
    ensures
        ({
            let session = SessionView::start(invocation, transport);
            let events = events_of(invocation, answers);
            &&& proper(session, events)
            &&& run(session, events).0.stage is Closed
            &&& run(session, events).1 == conversation(invocation, transport, answers)
        }),
{
    let session = SessionView::start(invocation, transport);
    let none = Seq::<EventView>::empty();
    let upload = EventView::Upload(answers.upload);
    let pushed = EventView::Pushed(answers.push);
    let started = EventView::Started(answers.start);
    match answers.upload {
        Err(why) => {
            lemma_first_event(session, upload, none);
            assert(run(session, seq![upload] + none).1 =~= seq![FrameView::Failed(why)]);
        },
        Ok(target) => {
            let pushing = session.after(upload).0;
            let announced = session.after(upload).1;
            match answers.push {
                Err(why) => {
                    lemma_first_event(session, upload, seq![pushed] + none);
                    lemma_first_event(pushing, pushed, none);
                    assert(run(pushing, seq![pushed] + none).1 =~= seq![FrameView::Failed(why)]);
                },
                Ok(_) => {
                    let starting = pushing.after(pushed).0;
                    match answers.start {
                        Err(why) => {
                            lemma_first_event(
                                session,
                                upload,
                                seq![pushed] + (seq![started] + none),
                            );
                            lemma_first_event(pushing, pushed, seq![started] + none);
                            lemma_first_event(starting, started, none);
                            assert(run(pushing, seq![pushed] + (seq![started] + none)).1 =~= seq![
                                FrameView::Failed(why),
                            ]);
                        },
                        Ok(_) => {
                            let streaming = starting.after(started).0;
                            let exit = final_exit(1, answers.reports);
                            let kinds = wanted_kinds(invocation.settings);
                            let events = report_events(answers.reports) + match answers.broke {
                                Some(why) => seq![EventView::Reported(Some(Err(why)))],
                                None => seq![EventView::Reported(None)] + (if exit == 0 {
                                    artifact_events(kinds, answers)
                                } else {
                                    Seq::empty()
                                }),
                            };
                            lemma_build(streaming, answers);
                            lemma_first_event(
                                session,
                                upload,
                                seq![pushed] + (seq![started] + events),
                            );
                            lemma_first_event(pushing, pushed, seq![started] + events);
                            lemma_first_event(starting, started, events);
                            assert(run(pushing, seq![pushed] + (seq![started] + events)).1 =~= run(
                                streaming,
                                events,
                            ).1);
                        },
                    }
                },
            }
        },
    }
}

/// A build that ran, however it ended, is answered with its exit code and never with a failure
/// to reach the far side: a compile error is not mistaken for a network problem.
pub proof fn law_a_build_that_ran_is_answered_with_its_exit_code(
    invocation: InvocationView,
    transport: Seq<char>,
    answers: Answers,
)
    requires
        answers.upload is Ok,
        answers.push is Ok,
        answers.start is Ok,
        answers.broke is None,
    ensures
        conversation(invocation, transport, answers).last() == FrameView::Exit(
            final_exit(1, answers.reports),
        ),
        forall|i: int|
            0 <= i < conversation(invocation, transport, answers).len()
                ==> !((#[trigger] conversation(invocation, transport, answers)[i]) is Failed),
{
    let session = SessionView::start(invocation, transport);
    let events = events_of(invocation, answers);
    law_session_holds_the_conversation(invocation, transport, answers);
    law_closing_frame_is_the_last(session, events);
    let exit = final_exit(1, answers.reports);
    let frames = conversation(invocation, transport, answers);
    let tail = (if exit == 0 {
        artifact_frames(wanted_kinds(invocation.settings), answers)
    } else {
        Seq::empty()
    }) + seq![FrameView::Exit(exit)];
    assert(tail.last() == FrameView::Exit(exit));
    assert((output_frames(answers.reports) + tail).last() == tail.last());
    assert(frames.last() == (output_frames(answers.reports) + tail).last());
    assert forall|i: int| 0 <= i < frames.len() implies !((#[trigger] frames[i]) is Failed) by {
        if i < frames.len() - 1 {
            assert(!closing(frames[i]));
        }
    }
}

/// The transport and the host are announced before anything else, wherever there is something
/// to announce.
pub proof fn law_transport_is_announced_first(
    invocation: InvocationView,
    transport: Seq<char>,
    answers: Answers,
)
    ensures
        answers.upload matches Ok(target) ==> conversation(invocation, transport, answers)[0]
            == FrameView::Status(
            "Syncing"@,
            invocation.project_id + " to "@ + target.host + " via "@ + transport,
        ),
        answers.upload matches Err(why) ==> conversation(invocation, transport, answers) == seq![
            FrameView::Failed(why),
        ],
{
}

proof fn lemma_last_event(session: SessionView, events: Seq<EventView>, event: EventView)
    ensures
        run(session, events.push(event)).0 == run(session, events).0.after(event).0,
        run(session, events.push(event)).1 == run(session, events).1 + run(
            session,
            events,
        ).0.after(event).1,
        proper(session, events.push(event)) <==> proper(session, events) && run(
            session,
            events,
        ).0.expects(event),
    decreases events.len(),
{
    let all = events.push(event);
    if events.len() == 0 {
        let none = Seq::<EventView>::empty();
        assert(events =~= none);
        assert(all =~= seq![event] + none);
        lemma_first_event(session, event, none);
        assert(run(session, events).1 + session.after(event).1 =~= session.after(event).1
            + Seq::<FrameView>::empty());
    } else {
        let next = session.after(events[0]);
        let rest = events.drop_first();
        assert(all[0] == events[0]);
        assert(all.drop_first() =~= rest.push(event));
        lemma_last_event(next.0, rest, event);
        let told = run(next.0, rest).1;
        let last = run(next.0, rest).0.after(event).1;
        assert(next.1 + (told + last) =~= (next.1 + told) + last);
    }
}

/// A conversation goes event by event: one more event, which has to be one that is expected by
/// then, changes where it stands and adds what it makes to what was sent.
pub proof fn law_conversations_go_event_by_event(
    session: SessionView,
    events: Seq<EventView>,
    event: EventView,
)
    ensures
        run(session, Seq::empty()) == (session, Seq::<FrameView>::empty()),
        proper(session, Seq::empty()),
        run(session, events.push(event)).0 == run(session, events).0.after(event).0,
        run(session, events.push(event)).1 == run(session, events).1 + run(
            session,
            events,
        ).0.after(event).1,
        proper(session, events.push(event)) <==> proper(session, events) && run(
            session,
            events,
        ).0.expects(event),
{
    lemma_last_event(session, events, event);
}

/// What is expected is how the thing that is due went, and nothing is expected once there is
/// nothing to do.
pub proof fn law_only_what_is_due_is_expected(session: SessionView, event: EventView)
    ensures
        session.expects(event) <==> match session.due() {
            ActionView::RequestUpload(_) => event is Upload,
            ActionView::Push(_, _) => event is Pushed,
            ActionView::StartBuild(_, _, _) => event is Started,
            ActionView::NextEvent => event is Reported,
            ActionView::RequestArtifact(_, _) => event is Artifact,
            ActionView::Fetch(_, _, _) => event is Fetched,
            ActionView::Close => false,
        },
{
}

/// What an editor needs is fetched after every successful build, then the binary exactly where
/// the settings ask for it, then the symbols exactly where they do.
pub proof fn law_what_is_wanted(settings: u8)
    ensures
        settings & 1u8 == 0 && settings & 2u8 == 0 ==> wanted_kinds(settings) == seq![
            Kind::ProcMacros,
            Kind::GeneratedSource,
        ],
        settings & 1u8 != 0 && settings & 2u8 == 0 ==> wanted_kinds(settings) == seq![
            Kind::ProcMacros,
            Kind::GeneratedSource,
            Kind::Binary,
        ],
        settings & 1u8 == 0 && settings & 2u8 != 0 ==> wanted_kinds(settings) == seq![
            Kind::ProcMacros,
            Kind::GeneratedSource,
            Kind::Symbols,
        ],
        settings & 1u8 != 0 && settings & 2u8 != 0 ==> wanted_kinds(settings) == seq![
            Kind::ProcMacros,
            Kind::GeneratedSource,
            Kind::Binary,
            Kind::Symbols,
        ],
{
    let kinds = wanted_kinds(settings);
    if settings & 1u8 == 0 && settings & 2u8 == 0 {
        assert(kinds =~= seq![Kind::ProcMacros, Kind::GeneratedSource]);
    } else if settings & 2u8 == 0 {
        assert(kinds =~= seq![Kind::ProcMacros, Kind::GeneratedSource, Kind::Binary]);
    } else if settings & 1u8 == 0 {
        assert(kinds =~= seq![Kind::ProcMacros, Kind::GeneratedSource, Kind::Symbols]);
    } else {
        assert(kinds =~= seq![
            Kind::ProcMacros,
            Kind::GeneratedSource,
            Kind::Binary,
            Kind::Symbols,
        ]);
    }
}

/// What is left to fetch is always a part of what is wanted, up to its end.
spec fn is_rest_of(left: Seq<Kind>, all: Seq<Kind>) -> bool {
    0 < left.len() <= all.len() && left == all.skip(all.len() - left.len())
}

spec fn keeps_to(session: SessionView, invocation: InvocationView, transport: Seq<char>) -> bool {
    &&& session.invocation == invocation
    &&& session.transport == transport
    &&& match session.stage {
        StageView::Requesting(left) => is_rest_of(left, wanted_kinds(invocation.settings)),
        StageView::Fetching(_, left) => is_rest_of(left, wanted_kinds(invocation.settings)),
        _ => true,
    }
}

proof fn lemma_rest_of_rest(left: Seq<Kind>, all: Seq<Kind>)
    requires
        is_rest_of(left, all),
    ensures
        left.len() > 1 ==> is_rest_of(left.skip(1), all),
        left.len() > 1 ==> left.skip(1)[0] == all[all.len() - left.len() + 1],
        left[0] == all[all.len() - left.len()],
{
    if left.len() > 1 {
        assert(left.skip(1) =~= all.skip(all.len() - left.skip(1).len()));
    }
}

proof fn lemma_step_keeps(
    session: SessionView,
    event: EventView,
    invocation: InvocationView,
    transport: Seq<char>,
)
    requires
        keeps_to(session, invocation, transport),
        session.expects(event),
    ensures
        keeps_to(session.after(event).0, invocation, transport),
{
    let all = wanted_kinds(invocation.settings);
    law_what_is_wanted(invocation.settings);
    assert(all.skip(0) =~= all);
    match session.stage {
        StageView::Requesting(left) => {
            lemma_rest_of_rest(left, all);
        },
        StageView::Fetching(_, left) => {
            lemma_rest_of_rest(left, all);
        },
        _ => {},
    }
}

proof fn lemma_session_keeps(
    invocation: InvocationView,
    transport: Seq<char>,
    events: Seq<EventView>,
)
    requires
        proper(SessionView::start(invocation, transport), events),
    ensures
        keeps_to(
            run(SessionView::start(invocation, transport), events).0,
            invocation,
            transport,
        ),
    decreases events.len(),
{
    let start = SessionView::start(invocation, transport);
    if events.len() > 0 {
        let before = events.drop_last();
        assert(before.push(events.last()) =~= events);
        lemma_last_event(start, before, events.last());
        lemma_session_keeps(invocation, transport, before);
        lemma_step_keeps(run(start, before).0, events.last(), invocation, transport);
    }
}

/// In every session, what is done next follows from what was just heard, and it is done with what
/// the invocation holds: the project's own name and root, every one of its flags in their order,
/// and the targets exactly as the far side gave them. The build is started once the source has
/// been pushed; artifacts are asked for one after the other, those an editor needs first, then
/// the binary and the symbols where the settings ask for them, whatever became of the one before.
pub proof fn law_what_is_done_follows_the_invocation(
    invocation: InvocationView,
    transport: Seq<char>,
    events: Seq<EventView>,
    event: EventView,
)
    requires
        proper(SessionView::start(invocation, transport), events.push(event)),
    ensures
        SessionView::start(invocation, transport).due() == ActionView::RequestUpload(
            invocation.project_id,
        ),
        ({
            let was = run(SessionView::start(invocation, transport), events).0.due();
            let now = run(
                SessionView::start(invocation, transport),
                events.push(event),
            ).0.due();
            let id = invocation.project_id;
            let root = invocation.root;
            let settings = invocation.settings;
            let next_after = |kind: Kind|
                match kind {
                    Kind::ProcMacros => now == ActionView::RequestArtifact(
                        id,
                        Kind::GeneratedSource,
                    ),
                    Kind::GeneratedSource => if settings & 1u8 != 0 {
                        now == ActionView::RequestArtifact(id, Kind::Binary)
                    } else if settings & 2u8 != 0 {
                        now == ActionView::RequestArtifact(id, Kind::Symbols)
                    } else {
                        now == ActionView::Close
                    },
                    Kind::Binary => if settings & 2u8 != 0 {
                        now == ActionView::RequestArtifact(id, Kind::Symbols)
                    } else {
                        now == ActionView::Close
                    },
                    Kind::Symbols => now == ActionView::Close,
                };
            match event {
                EventView::Upload(Ok(target)) => now == ActionView::Push(root, target),
                EventView::Upload(Err(_)) => now == ActionView::Close,
                EventView::Pushed(Ok(_)) => now == ActionView::StartBuild(
                    id,
                    invocation.flags,
                    root,
                ),
                EventView::Pushed(Err(_)) => now == ActionView::Close,
                EventView::Started(Ok(_)) => now == ActionView::NextEvent,
                EventView::Started(Err(_)) => now == ActionView::Close,
                EventView::Reported(Some(Ok(_))) => now == ActionView::NextEvent,
                EventView::Reported(Some(Err(_))) => now == ActionView::Close,
                EventView::Reported(None) => now == ActionView::RequestArtifact(
                    id,
                    Kind::ProcMacros,
                ) || now == ActionView::Close,
                EventView::Artifact(Ok(target)) => was matches ActionView::RequestArtifact(_, kind)
                    && now == ActionView::Fetch(root, target, kind),
                EventView::Artifact(Err(_)) => was matches ActionView::RequestArtifact(_, kind)
                    && next_after(kind),
                EventView::Fetched(_) => was matches ActionView::Fetch(_, _, kind) && next_after(
                    kind,
                ),
            }
        }),
{
    let start = SessionView::start(invocation, transport);
    let session = run(start, events).0;
    let all = wanted_kinds(invocation.settings);
    lemma_last_event(start, events, event);
    lemma_session_keeps(invocation, transport, events);
    law_what_is_wanted(invocation.settings);
    match session.stage {
        StageView::Requesting(left) => {
            lemma_rest_of_rest(left, all);
        },
        StageView::Fetching(_, left) => {
            lemma_rest_of_rest(left, all);
        },
        _ => {},
    }
}

/// The other way round: whenever a build is due to be started, in whatever session, it is started
/// with the invocation's own name, flags and root, and only right after a push that went well; a
/// push and a fetch go to and from what the far side has just said.
pub proof fn law_nothing_is_done_unasked(
    invocation: InvocationView,
    transport: Seq<char>,
    events: Seq<EventView>,
)
    requires
        proper(SessionView::start(invocation, transport), events),
    ensures
        match run(SessionView::start(invocation, transport), events).0.due() {
            ActionView::RequestUpload(id) => id == invocation.project_id && events.len() == 0,
            ActionView::Push(root, target) => root == invocation.root && events.len() > 0
                && events.last() == EventView::Upload(Ok(target)),
            ActionView::StartBuild(id, flags, root) => id == invocation.project_id && flags
                == invocation.flags && root == invocation.root && events.len() > 0 && (
            events.last() matches EventView::Pushed(Ok(_))),
            ActionView::NextEvent => events.len() > 0 && ((events.last() matches EventView::Started(Ok(_)))
                || (events.last() matches EventView::Reported(Some(Ok(_))))),
            ActionView::RequestArtifact(id, kind) => id == invocation.project_id && events.len() > 0
                && ((events.last() matches EventView::Artifact(Err(_))) || events.last() is Fetched
                || events.last() == EventView::Reported(None)) && (kind == Kind::Binary
                ==> invocation.settings & 1u8 != 0) && (kind == Kind::Symbols
                ==> invocation.settings & 2u8 != 0),
            ActionView::Fetch(root, target, kind) => root == invocation.root && events.len() > 0
                && events.last() == EventView::Artifact(Ok(target)) && (kind == Kind::Binary
                ==> invocation.settings & 1u8 != 0) && (kind == Kind::Symbols
                ==> invocation.settings & 2u8 != 0),
            ActionView::Close => events.len() > 0,
        },
{
    let start = SessionView::start(invocation, transport);
    let all = wanted_kinds(invocation.settings);
    law_what_is_wanted(invocation.settings);
    lemma_session_keeps(invocation, transport, events);
    if events.len() > 0 {
        let before = events.drop_last();
        assert(before.push(events.last()) =~= events);
        lemma_last_event(start, before, events.last());
        lemma_session_keeps(invocation, transport, before);
        match run(start, events).0.stage {
            StageView::Requesting(left) => {
                lemma_rest_of_rest(left, all);
            },
            StageView::Fetching(_, left) => {
                lemma_rest_of_rest(left, all);
            },
            _ => {},
        }
    }
}

/// What is sent for each thing that is heard, in every session: where the source goes and over
/// which transport, what the build prints byte for byte, a reason wherever there was no build, a
/// line on standard error for an artifact that could not be had, and where the binary and the
/// symbols landed. An exit code is sent exactly where nothing is left to do after a build that
/// ran, and after the artifacts it is always zero.
pub proof fn law_what_is_sent_for_what_is_heard(
    invocation: InvocationView,
    transport: Seq<char>,
    events: Seq<EventView>,
    event: EventView,
)
    requires
        proper(SessionView::start(invocation, transport), events.push(event)),
    ensures
        ({
            let start = SessionView::start(invocation, transport);
            let was = run(start, events).0.due();
            let over = run(start, events.push(event)).0.due() == ActionView::Close;
            let sent = run(start, events).1;
            let sent_now = run(start, events.push(event)).1;
            let end = if over {
                seq![FrameView::Exit(0)]
            } else {
                Seq::empty()
            };
            match event {
                EventView::Upload(Ok(target)) => sent_now == sent + seq![
                    FrameView::Status(
                        "Syncing"@,
                        invocation.project_id + " to "@ + target.host + " via "@ + transport,
                    ),
                ],
                EventView::Upload(Err(why)) => sent_now == sent + seq![FrameView::Failed(why)],
                EventView::Pushed(Ok(_)) => sent_now == sent,
                EventView::Pushed(Err(why)) => sent_now == sent + seq![FrameView::Failed(why)],
                EventView::Started(Ok(_)) => sent_now == sent,
                EventView::Started(Err(why)) => sent_now == sent + seq![FrameView::Failed(why)],
                EventView::Reported(Some(Ok(Some(PayloadView::Stdout(bytes))))) => sent_now == sent
                    + seq![FrameView::Stdout(bytes)],
                EventView::Reported(Some(Ok(Some(PayloadView::Stderr(bytes))))) => sent_now == sent
                    + seq![FrameView::Stderr(bytes)],
                EventView::Reported(Some(Ok(_))) => sent_now == sent,
                EventView::Reported(Some(Err(why))) => sent_now == sent + seq![
                    FrameView::Failed(why),
                ],
                EventView::Reported(None) => if over {
                    sent_now.len() == sent.len() + 1 && sent_now.drop_last() == sent && (
                    sent_now.last() matches FrameView::Exit(code) && code != 0)
                } else {
                    sent_now == sent
                },
                EventView::Artifact(Ok(_)) => sent_now == sent,
                EventView::Artifact(Err(why)) => sent_now == sent + seq![
                    FrameView::Stderr(encode_utf8("mamba: "@ + why + "\n"@)),
                ] + end,
                EventView::Fetched(Ok(path)) => was matches ActionView::Fetch(_, _, kind)
                    && sent_now == sent + (if kind == Kind::Binary || kind == Kind::Symbols {
                    seq![FrameView::Status("Downloaded"@, path)]
                } else {
                    Seq::empty()
                }) + end,
                EventView::Fetched(Err(why)) => sent_now == sent + seq![
                    FrameView::Stderr(encode_utf8("mamba: fetch failed: "@ + why + "\n"@)),
                ] + end,
            }
        }),
{
    let start = SessionView::start(invocation, transport);
    let session = run(start, events).0;
    let sent = run(start, events).1;
    let new = session.after(event).1;
    let all = wanted_kinds(invocation.settings);
    lemma_last_event(start, events, event);
    lemma_session_keeps(invocation, transport, events);
    law_what_is_wanted(invocation.settings);
    assert(sent + Seq::<FrameView>::empty() =~= sent);
    match session.stage {
        StageView::Streaming(exit) => {
            if event == EventView::Reported(None) && exit != 0 {
                assert((sent + seq![FrameView::Exit(exit)]).drop_last() =~= sent);
            }
        },
        StageView::Requesting(left) => {
            lemma_rest_of_rest(left, all);
            if let EventView::Artifact(Err(why)) = event {
                let line = seq![FrameView::Stderr(encode_utf8("mamba: "@ + why + "\n"@))];
                assert(sent + (line + session.past_first(left).1) =~= sent + line
                    + session.past_first(left).1);
            }
        },
        StageView::Fetching(_, left) => {
            lemma_rest_of_rest(left, all);
            match event {
                EventView::Fetched(Ok(path)) => {
                    assert(sent + (landed(left[0], path) + session.past_first(left).1) =~= sent
                        + landed(left[0], path) + session.past_first(left).1);
                },
                EventView::Fetched(Err(why)) => {
                    let line = seq![
                        FrameView::Stderr(encode_utf8("mamba: fetch failed: "@ + why + "\n"@)),
                    ];
                    assert(sent + (line + session.past_first(left).1) =~= sent + line
                        + session.past_first(left).1);
                },
                _ => {},
            }
        },
        _ => {},
    }
}

proof fn lemma_no_code_in(exit: i32, events: Seq<EventView>)
    requires
        forall|i: int|
            0 <= i < events.len() ==> !(#[trigger] events[i] matches EventView::Reported(
                Some(Ok(Some(PayloadView::ExitCode(_)))),
            )),
    ensures
        exit_reported(exit, events) == exit,
    decreases events.len(),
{
    if events.len() > 0 {
        let rest = events.drop_first();
        assert(!(events[0] matches EventView::Reported(Some(Ok(Some(PayloadView::ExitCode(_)))))));
        assert forall|i: int| 0 <= i < rest.len() implies !(#[trigger] rest[i] matches EventView::Reported(
            Some(Ok(Some(PayloadView::ExitCode(_)))),
        )) by {
            assert(rest[i] == events[i + 1]);
        }
        lemma_no_code_in(exit, rest);
    }
}

proof fn lemma_last_code(exit: i32, events: Seq<EventView>, at: int, code: i32)
    requires
        0 <= at < events.len(),
        events[at] == EventView::Reported(Some(Ok(Some(PayloadView::ExitCode(code))))),
        forall|i: int|
            at < i < events.len() ==> !(#[trigger] events[i] matches EventView::Reported(
                Some(Ok(Some(PayloadView::ExitCode(_)))),
            )),
    ensures
        exit_reported(exit, events) == code,
    decreases events.len(),
{
    let rest = events.drop_first();
    assert forall|i: int| at - 1 < i < rest.len() && 0 <= i implies !(#[trigger] rest[i] matches EventView::Reported(
        Some(Ok(Some(PayloadView::ExitCode(_)))),
    )) by {
        assert(rest[i] == events[i + 1]);
    }
    if at == 0 {
        lemma_no_code_in(code, rest);
    } else {
        assert(rest[at - 1] == events[at]);
        lemma_last_code(exit_after(exit, events[0]), rest, at - 1, code);
    }
}

/// The exit code a conversation ends with is the one the build reported last, and 1 where it
/// reported none: `at` is the place of the last report of one. Where the build is over and that
/// code is zero its artifacts are asked for, and where it is not the code is sent at once.
pub proof fn law_the_last_code_reported_counts(
    invocation: InvocationView,
    transport: Seq<char>,
    events: Seq<EventView>,
    at: Option<int>,
)
    requires
        proper(SessionView::start(invocation, transport), events),
        at matches Some(i) ==> 0 <= i < events.len() && (events[i] matches EventView::Reported(
            Some(Ok(Some(PayloadView::ExitCode(_)))),
        )),
        forall|i: int|
            0 <= i < events.len() && (at matches Some(j) ==> j < i)
                ==> !(#[trigger] events[i] matches EventView::Reported(
                Some(Ok(Some(PayloadView::ExitCode(_)))),
            )),
    ensures
        ({
            let start = SessionView::start(invocation, transport);
            let code = match at {
                Some(i) => events[i]->Reported_0->Some_0->Ok_0->Some_0->ExitCode_0,
                None => 1i32,
            };
            let (end, frames) = run(start, events);
            &&& end.due() == ActionView::Close && frames.last() is Exit ==> frames.last()
                == FrameView::Exit(code)
            &&& events.len() > 0 && events.last() == EventView::Reported(None) ==> if code == 0 {
                end.due() == ActionView::RequestArtifact(invocation.project_id, Kind::ProcMacros)
            } else {
                end.due() == ActionView::Close && frames.last() == FrameView::Exit(code)
            }
            &&& end.due() is RequestArtifact || end.due() is Fetch ==> code == 0
        }),
{
    let start = SessionView::start(invocation, transport);
    let code = match at {
        Some(i) => events[i]->Reported_0->Some_0->Ok_0->Some_0->ExitCode_0,
        None => 1i32,
    };
    match at {
        Some(i) => {
            lemma_last_code(1, events, i, code);
        },
        None => {
            lemma_no_code_in(1, events);
        },
    }
    law_exit_code_is_the_builds_own(start, events);
    law_what_is_wanted(invocation.settings);
    lemma_session_keeps(invocation, transport, events);
    if events.len() > 0 {
        let before = events.drop_last();
        assert(before.push(events.last()) =~= events);
        lemma_last_event(start, before, events.last());
        lemma_session_keeps(invocation, transport, before);
        if events.last() == EventView::Reported(None) {
            let old_code = exit_so_far(run(start, before).0.stage);
            assert(run(start, before).0.stage == StageView::Streaming(old_code));
            let new = run(start, before).0.after(events.last()).1;
            if old_code != 0 {
                assert(new == seq![FrameView::Exit(old_code)]);
                assert(run(start, events).1.last() == FrameView::Exit(old_code));
            }
        }
    }
}

/// A sweep keeps exactly those channels whose last use is less than the timeout ago, a use that
/// is yet to come counting as one just now, and it keeps them as they are.
pub proof fn law_a_sweep_keeps_what_was_used_lately<C>(
    entries: Map<Seq<char>, SlotView<C>>,
    now: u64,
    timeout: u64,
    host: Seq<char>,
)
    ensures
        still_fresh(entries, now, timeout).contains_key(host) <==> entries.contains_key(host) && 0
            < timeout && now - entries[host].last < timeout,
        still_fresh(entries, now, timeout).contains_key(host) ==> still_fresh(
            entries,
            now,
            timeout,
        )[host] == entries[host],
{
}

/// What is told of silence names the limit.
pub proof fn law_silence_names_the_limit(limit: u64)
    ensures
        silence(limit) == "no response within "@ + decimal_form(limit as nat)
            + "s — the connection may be dead"@,
{
}

/// What is to be done is seen as it is: every name, every flag in its order, every root and every
/// target.
pub proof fn law_actions_are_seen_as_they_are(action: Action)
    ensures
        match action {
            Action::RequestUpload(id) => action@ == ActionView::RequestUpload(id@),
            Action::Push(root, target) => action@ == ActionView::Push(root@, target@),
            Action::StartBuild(id, flags, root) => action@ == ActionView::StartBuild(
                id@,
                texts(flags@),
                root@,
            ),
            Action::NextEvent => action@ == ActionView::NextEvent,
            Action::RequestArtifact(id, kind) => action@ == ActionView::RequestArtifact(id@, kind),
            Action::Fetch(root, target, kind) => action@ == ActionView::Fetch(
                root@,
                target@,
                kind,
            ),
            Action::Close => action@ == ActionView::Close,
        },
{
}

/// What was heard is seen as it was.
pub proof fn law_events_are_seen_as_they_are(event: Event)
    ensures
        match event {
            Event::Upload(Ok(target)) => event@ == EventView::Upload(Ok(target@)),
            Event::Upload(Err(e)) => event@ == EventView::Upload(Err(e@)),
            Event::Pushed(Ok(_)) => event@ matches EventView::Pushed(Ok(_)),
            Event::Pushed(Err(why)) => event@ == EventView::Pushed(Err(why@)),
            Event::Started(Ok(_)) => event@ matches EventView::Started(Ok(_)),
            Event::Started(Err(e)) => event@ == EventView::Started(Err(e@)),
            Event::Reported(None) => event@ == EventView::Reported(None),
            Event::Reported(Some(Ok(report))) => event@ == EventView::Reported(Some(Ok(report@))),
            Event::Reported(Some(Err(e))) => event@ == EventView::Reported(Some(Err(e@))),
            Event::Artifact(Ok(target)) => event@ == EventView::Artifact(Ok(target@)),
            Event::Artifact(Err(e)) => event@ == EventView::Artifact(Err(e@)),
            Event::Fetched(Ok(path)) => event@ == EventView::Fetched(Ok(path@)),
            Event::Fetched(Err(why)) => event@ == EventView::Fetched(Err(why@)),
        },
{
}

/// How long things are waited for, in seconds: a first answer for less than any later one, and
/// either for less than an open channel is kept.
pub proof fn law_how_long_things_are_waited_for()
    ensures
        PROBE_TIMEOUT == 2,
        RPC_TIMEOUT == 30,
        IDLE_TIMEOUT == 600,
        PROBE_TIMEOUT < RPC_TIMEOUT < IDLE_TIMEOUT,
{
}

} // verus!
