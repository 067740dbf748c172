//! A control channel that needs no server.
//!
//! Everything here is answered by convention rather than by asking: a project lives at
//! `.mamba/<id>` in the remote home directory, and its artifacts sit where cargo puts them. The
//! daemon still only knows that it asked and was answered, and this transport is the one that
//! has nobody to ask.
//!
//! This is the zero-setup path: an ordinary ssh host and nothing installed on it.

use crate::channel::{target_answer, ChannelError};
use crate::keyed::KeyedList;
use crate::layout::{
    binary_name, binary_name_in, locate, located, manifest_path_of, split_script, split_text,
    subdir, target_subdir, SplitRun, SplitView,
};
use crate::paths::joined;
use crate::proto::{BuildEvent, Kind, Payload, PayloadView, TargetView, TransferTarget};
use crate::shell::{all_quoted, append_quoted, quoted, quoted_texts, spaced, Quoted};
use crate::text::{bytes_of, copy_text, copy_texts, glue2, glue3, glue4, glue5, outcome, texts};
use vstd::prelude::*;
use vstd::utf8::encode_utf8;

verus! {

/// The command line that builds a project on the far side.
pub open spec fn build_line(
    remote_dir: Seq<char>,
    local_root: Seq<char>,
    args: Seq<Seq<char>>,
) -> Seq<char> {
    build_head(remote_dir, local_root) + spaced(all_quoted(args))
}

/// That command line up to cargo's own flags.
pub open spec fn build_head(remote_dir: Seq<char>, local_root: Seq<char>) -> Seq<char> {
    ". \"$HOME/.cargo/env\" 2>/dev/null; cd "@ + quoted(remote_dir)
        + " && RUSTFLAGS=\"--remap-path-prefix=$PWD=\""@ + quoted(local_root)
        + " CARGO_TERM_COLOR=always cargo build"@
}

/// Assembles the one-line shell command ssh runs on the far side.
///
/// `CARGO_TERM_COLOR=always` is needed because cargo turns colour off when its output is not a
/// terminal, and over ssh it never is. The leading `. "$HOME/.cargo/env"` matters just as much:
/// `ssh host command` runs a non-interactive shell, and rustup wires `~/.cargo/bin` onto `PATH`
/// only from interactive rc files; without it, a cargo a human can run fine over an interactive
/// login is invisible here.
///
/// `$PWD` is expanded by the remote shell after the `cd`, so the path rewrite needs no knowledge
/// of the remote home directory.
pub fn build_command(remote_dir: &str, local_root: &str, args: &[String]) -> (r: String)
    ensures
        r@ == build_line(remote_dir@, local_root@, texts(args@)),
{
    let dir = Quoted::new(remote_dir);
    let root = Quoted::new(local_root);
    let mut command = glue5(
        ". \"$HOME/.cargo/env\" 2>/dev/null; cd ",
        dir.as_str(),
        " && RUSTFLAGS=\"--remap-path-prefix=$PWD=\"",
        root.as_str(),
        " CARGO_TERM_COLOR=always cargo build",
    );
    let flags = quote_all(args);
    append_quoted(&mut command, flags.as_slice());
    command
}

/// Quotes every one of a list of arguments.
pub(crate) fn quote_all(args: &[String]) -> (r: Vec<Quoted>)
    ensures
        quoted_texts(r@) == all_quoted(texts(args@)),
{
    let mut out: Vec<Quoted> = Vec::new();
    let mut i: usize = 0;
    while i < args.len()
        invariant
            i <= args@.len(),
            out@.len() == i,
            forall|j: int| 0 <= j < i ==> (#[trigger] out@[j])@ == quoted(args@[j]@),
        decreases args@.len() - i,
    {
        out.push(Quoted::new(args[i].as_str()));
        i += 1;
    }
    assert(quoted_texts(out@) =~= all_quoted(texts(args@)));
    out
}

/// Whatever the flags are, the remote shell hands cargo exactly those, one word each.
pub proof fn law_flags_reach_the_remote_cargo(
    remote_dir: Seq<char>,
    local_root: Seq<char>,
    args: Seq<Seq<char>>,
)
    ensures
        crate::shell::shell_words(
            build_line(remote_dir, local_root, args).skip(
                build_head(remote_dir, local_root).len() as int,
            ),
        ) == Some(args),
{
    let head = build_head(remote_dir, local_root);
    let tail = spaced(all_quoted(args));
    assert((head + tail).skip(head.len() as int) =~= tail);
    crate::shell::law_quoted_list_is_read_back(args);
}

/// Which of a build's streams a line came in on.
#[derive(Debug, Clone, Copy, PartialEq, Eq, Structural)]
pub enum Origin {
    Stdout,
    Stderr,
}

/// What is reported of one line of output.
pub open spec fn line_payload(origin: Origin, line: Seq<char>) -> PayloadView {
    match origin {
        Origin::Stdout => PayloadView::Stdout(encode_utf8(line + "\n"@)),
        Origin::Stderr => PayloadView::Stderr(encode_utf8(line + "\n"@)),
    }
}

/// The report of one line of output.
pub fn line_event(origin: Origin, line: &str) -> (r: BuildEvent)
    ensures
        r@ == Some(line_payload(origin, line@)),
{
    let bytes = bytes_of(glue2(line, "\n").as_str());
    BuildEvent {
        payload: Some(
            match origin {
                Origin::Stdout => Payload::Stdout(bytes),
                Origin::Stderr => Payload::Stderr(bytes),
            },
        ),
    }
}

/// The exit code that stands for a process that a signal ended.
pub const INTERRUPTED: i32 = 130;

/// The exit code with which ssh says that it could not connect.
pub const CONNECTION_FAILED: i32 = 255;

/// What is reported of ssh's own end, `waited` being its exit code, `None` where a signal ended
/// it, or why there is no telling.
pub open spec fn ending(waited: Result<Option<i32>, Seq<char>>) -> Result<
    Option<PayloadView>,
    Seq<char>,
> {
    match waited {
        Ok(Some(code)) => if code == CONNECTION_FAILED {
            Err("ssh could not connect"@)
        } else {
            Ok(Some(PayloadView::ExitCode(code)))
        },
        Ok(None) => Ok(Some(PayloadView::ExitCode(INTERRUPTED))),
        Err(why) => Err("ssh failed: "@ + why),
    }
}

/// How a process ended, as contracts see it.
pub open spec fn ended(waited: Result<Option<i32>, String>) -> Result<Option<i32>, Seq<char>> {
    match waited {
        Ok(code) => Ok(code),
        Err(why) => Err(why@),
    }
}

/// The last report of a build. ssh's own connection failure is an error rather than an exit
/// code, which is what lets the shim offer a local build instead of pretending that cargo said
/// something.
pub fn exit_event(waited: &Result<Option<i32>, String>) -> (r: Result<BuildEvent, ChannelError>)
    ensures
        match ending(ended(*waited)) {
            Ok(payload) => r matches Ok(event) && event@ == payload,
            Err(why) => r matches Err(e) && e@ == why,
        },
{
    match waited {
        Ok(Some(code)) => {
            if *code == CONNECTION_FAILED {
                Err(ChannelError(copy_text("ssh could not connect")))
            } else {
                Ok(BuildEvent { payload: Some(Payload::ExitCode(*code)) })
            }
        },
        Ok(None) => Ok(BuildEvent { payload: Some(Payload::ExitCode(INTERRUPTED)) }),
        Err(why) => Err(ChannelError(glue2("ssh failed: ", why.as_str()))),
    }
}

/// A build that ran, failed or not, ends with an exit code: only ssh's own failure is an error.
pub proof fn law_only_ssh_failures_are_errors(waited: Result<Option<i32>, Seq<char>>)
    ensures
        ending(waited) is Err <==> waited is Err || waited == Ok::<Option<i32>, Seq<char>>(
            Some(CONNECTION_FAILED),
        ),
{
}

/// The two streams a running build writes to, as far as they are still listened to, as contracts
/// see them.
#[verifier::ext_equal]
pub struct RelayView {
    pub stdout: bool,
    pub stderr: bool,
}

impl RelayView {
    /// Whether a stream is still listened to.
    pub open spec fn open(self, origin: Origin) -> bool {
        match origin {
            Origin::Stdout => self.stdout,
            Origin::Stderr => self.stderr,
        }
    }

    /// A stream is not listened to any more; the other is left as it was.
    pub open spec fn without(self, origin: Origin) -> RelayView {
        match origin {
            Origin::Stdout => RelayView { stdout: false, ..self },
            Origin::Stderr => RelayView { stderr: false, ..self },
        }
    }

    /// Neither stream is listened to any more.
    pub open spec fn drained(self) -> bool {
        !self.stdout && !self.stderr
    }
}

/// Passes on what a running build writes. Either stream is read line by line until it ends, and
/// each line becomes one report; how the build ended is reported last, once, and not before both
/// streams have been read to their ends.
pub struct Relay {
    stdout: bool,
    stderr: bool,
}

impl View for Relay {
    type V = RelayView;

    closed spec fn view(&self) -> RelayView {
        RelayView { stdout: self.stdout, stderr: self.stderr }
    }
}

impl Relay {
    /// A build that has just started.
    pub fn new() -> (r: Relay)
        ensures
            r@ == (RelayView { stdout: true, stderr: true }),
    {
        Relay { stdout: true, stderr: true }
    }

    /// Whether a stream is still to be read.
    pub fn listens_to(&self, origin: Origin) -> (r: bool)
        ensures
            r == self@.open(origin),
    {
        match origin {
            Origin::Stdout => self.stdout,
            Origin::Stderr => self.stderr,
        }
    }

    /// Whether there is nothing left to be read.
    pub fn is_drained(&self) -> (r: bool)
        ensures
            r == self@.drained(),
    {
        !self.stdout && !self.stderr
    }

    /// Stops listening to a stream: it ended, it cannot be read, or nobody wants its lines.
    pub fn close(&mut self, origin: Origin)
        ensures
            final(self)@ == old(self)@.without(origin),
    {
        match origin {
            Origin::Stdout => {
                self.stdout = false;
            },
            Origin::Stderr => {
                self.stderr = false;
            },
        }
    }

    /// Takes in what reading a stream gave: a line, or `None` where the stream ended or cannot be
    /// read. Gives the report to pass on, if there is one.
    pub fn read(&mut self, origin: Origin, line: Option<&str>) -> (r: Option<BuildEvent>)
        requires
            old(self)@.open(origin),
        ensures
            match line {
                Some(text) => r matches Some(event) && event@ == Some(
                    line_payload(origin, text@),
                ) && final(self)@ == old(self)@,
                None => r is None && final(self)@ == old(self)@.without(origin),
            },
    {
        match line {
            Some(text) => Some(line_event(origin, text)),
            None => {
                self.close(origin);
                None
            },
        }
    }

    /// The last report: how the build ended.
    pub fn finish(self, waited: &Result<Option<i32>, String>) -> (r: Result<
        BuildEvent,
        ChannelError,
    >)
        requires
            self@.drained(),
        ensures
            match ending(ended(*waited)) {
                Ok(payload) => r matches Ok(event) && event@ == payload,
                Err(why) => r matches Err(e) && e@ == why,
            },
    {
        exit_event(waited)
    }
}

/// The error for an ssh that could not be run.
pub fn unstarted(why: &str) -> (r: ChannelError)
    ensures
        r@ == "could not run ssh: "@ + why@,
{
    ChannelError(glue2("could not run ssh: ", why))
}

/// One project's most recent build.
struct Memory {
    args: Vec<String>,
    root: String,
}

/// Talks to an ordinary ssh host, with nothing installed on it.
///
/// It remembers each project's most recent build, its arguments and the client's project root,
/// so that a later artifact request resolves against the profile that build used. That is kept
/// per project because one channel is shared by every project building against this host.
pub struct SshControlChannel {
    host: String,
    last: KeyedList<Memory>,
}

/// A [`SshControlChannel`] as contracts see it.
#[verifier::ext_equal]
pub struct SshView {
    pub host: Seq<char>,
    /// The arguments and the root of each project's most recent build.
    pub last: Map<Seq<char>, (Seq<Seq<char>>, Seq<char>)>,
}

spec fn memories(last: Map<Seq<char>, Memory>) -> Map<Seq<char>, (Seq<Seq<char>>, Seq<char>)> {
    last.map_values(|memory: Memory| (texts(memory.args@), memory.root@))
}

impl View for SshControlChannel {
    type V = SshView;

    closed spec fn view(&self) -> SshView {
        SshView { host: self.host@, last: memories(self.last@) }
    }
}

/// Where a project lives on the far side. Relative paths are taken from the remote home
/// directory, which is how this resolves without ever needing a tilde.
pub open spec fn remote_home(project_id: Seq<char>) -> Seq<char> {
    ".mamba/"@ + project_id
}

impl SshView {
    /// The arguments of a project's most recent build; none where it has not been built.
    pub open spec fn args(self, project_id: Seq<char>) -> Seq<Seq<char>> {
        if self.last.contains_key(project_id) {
            self.last[project_id].0
        } else {
            Seq::empty()
        }
    }

    /// The client's root of a project's most recent build; nothing where it has not been built.
    pub open spec fn root(self, project_id: Seq<char>) -> Seq<char> {
        if self.last.contains_key(project_id) {
            self.last[project_id].1
        } else {
            ""@
        }
    }

    /// The target for a path on this host. The user is left empty: `host` may be an alias from
    /// `~/.ssh/config`, which already carries the user, and naming one would override it.
    pub open spec fn target(self, path: Seq<char>, relative_path: Seq<char>) -> TargetView {
        TargetView { host: self.host, port: 22, user: ""@, path, relative_path }
    }

    /// The script that splits a project's binary, where the artifact asked for needs it. `read`
    /// is what reading the client's manifest gave.
    pub open spec fn split(
        self,
        project_id: Seq<char>,
        kind: Kind,
        read: Result<Seq<char>, Seq<char>>,
    ) -> Result<Option<Seq<char>>, Seq<char>> {
        if kind != Kind::Binary {
            Ok(None)
        } else {
            match binary_name_in(manifest_path_of(self.root(project_id)), read) {
                Err(why) => Err(why),
                Ok(name) => Ok(
                    Some(
                        "cd "@ + quoted(remote_home(project_id)) + " && "@ + split_text(
                            subdir(self.args(project_id)),
                            name,
                        ),
                    ),
                ),
            }
        }
    }

    /// Where an artifact of a project's most recent build is.
    pub open spec fn artifact(
        self,
        project_id: Seq<char>,
        kind: Kind,
        read: Result<Seq<char>, Seq<char>>,
        split: SplitView,
    ) -> Result<TargetView, Seq<char>> {
        match located(kind, self.args(project_id), self.root(project_id), read, split) {
            Err(why) => Err(why),
            Ok((source, place)) => Ok(
                self.target(remote_home(project_id) + "/"@ + source, place),
            ),
        }
    }
}

impl SshControlChannel {
    pub fn new(host: &str) -> (r: SshControlChannel)
        ensures
            r@.host == host@,
            r@.last == Map::<Seq<char>, (Seq<Seq<char>>, Seq<char>)>::empty(),
    {
        let channel = SshControlChannel { host: copy_text(host), last: KeyedList::new() };
        assert(channel@.last =~= Map::<Seq<char>, (Seq<Seq<char>>, Seq<char>)>::empty());
        channel
    }

    /// The destination ssh is run with.
    pub fn host(&self) -> (r: &str)
        ensures
            r@ == self@.host,
    {
        self.host.as_str()
    }

    /// Records what a project's most recent build was, for artifact resolution afterwards.
    pub fn remember(&mut self, project_id: &str, args: &[String], local_root: &str)
        ensures
            final(self)@.host == old(self)@.host,
            final(self)@.last == old(self)@.last.insert(
                project_id@,
                (texts(args@), local_root@),
            ),
    {
        self.last.insert(
            project_id,
            Memory { args: copy_texts(args), root: copy_text(local_root) },
        );
        assert(self@.last =~= old(self)@.last.insert(project_id@, (texts(args@), local_root@)));
    }

    /// The arguments of a project's most recent build.
    pub fn last_args(&self, project_id: &str) -> (r: Vec<String>)
        ensures
            texts(r@) == self@.args(project_id@),
    {
        match self.last.get(project_id) {
            Some(memory) => copy_texts(memory.args.as_slice()),
            None => {
                let none: Vec<String> = Vec::new();
                assert(texts(none@) =~= Seq::<Seq<char>>::empty());
                none
            },
        }
    }

    /// The client's root of a project's most recent build.
    pub fn last_root(&self, project_id: &str) -> (r: String)
        ensures
            r@ == self@.root(project_id@),
    {
        match self.last.get(project_id) {
            Some(memory) => memory.root.clone(),
            None => copy_text(""),
        }
    }

    /// Where a project lives on the far side.
    pub fn remote_dir(&self, project_id: &str) -> (r: String)
        ensures
            r@ == remote_home(project_id@),
    {
        glue2(".mamba/", project_id)
    }

    fn target(&self, path: String, relative_path: String) -> (r: TransferTarget)
        ensures
            r@ == self@.target(path@, relative_path@),
    {
        TransferTarget {
            host: self.host.clone(),
            port: 22,
            user: copy_text(""),
            path,
            relative_path,
        }
    }

    /// Where this project's source should be pushed.
    pub fn request_upload(&self, project_id: &str) -> (r: Result<TransferTarget, ChannelError>)
        ensures
            r matches Ok(target) && target@ == self@.target(remote_home(project_id@), ""@),
    {
        Ok(self.target(self.remote_dir(project_id), copy_text("")))
    }

    /// Remembers a build that is about to start, and gives the command that ssh runs for it.
    pub fn start_build(&mut self, project_id: &str, args: &[String], local_root: &str) -> (r:
        String)
        ensures
            r@ == build_line(remote_home(project_id@), local_root@, texts(args@)),
            final(self)@.host == old(self)@.host,
            final(self)@.last == old(self)@.last.insert(
                project_id@,
                (texts(args@), local_root@),
            ),
    {
        self.remember(project_id, args, local_root);
        let dir = self.remote_dir(project_id);
        build_command(dir.as_str(), local_root, args)
    }

    /// The command that ssh runs before an artifact can be fetched, if there is one. The split
    /// runs where the binary is, using CPU already paid for.
    pub fn split_command(
        &self,
        project_id: &str,
        kind: Kind,
        read: &Result<String, String>,
    ) -> (r: Result<Option<String>, ChannelError>)
        ensures
            match self@.split(project_id@, kind, outcome(*read)) {
                Ok(Some(script)) => r matches Ok(Some(s)) && s@ == script,
                Ok(None) => r matches Ok(None),
                Err(why) => r matches Err(e) && e@ == why,
            },
    {
        match kind {
            Kind::Binary => {
                let root = self.last_root(project_id);
                match binary_name(root.as_str(), read) {
                    Err(why) => Err(ChannelError(why)),
                    Ok(name) => {
                        let dir = self.remote_dir(project_id);
                        let args = self.last_args(project_id);
                        let place = target_subdir(args.as_slice());
                        let script = split_script(place.as_str(), name.as_str());
                        Ok(
                            Some(
                                glue4(
                                    "cd ",
                                    Quoted::new(dir.as_str()).as_str(),
                                    " && ",
                                    script.as_str(),
                                ),
                            ),
                        )
                    },
                }
            },
            _ => Ok(None),
        }
    }

    /// Where one artifact of the last build ended up. `read` is what reading the client's
    /// manifest gave, and `split` how the split went; both are looked at only for the artifacts
    /// that need them.
    pub fn request_artifact(
        &self,
        project_id: &str,
        kind: Kind,
        read: &Result<String, String>,
        split: &SplitRun,
    ) -> (r: Result<TransferTarget, ChannelError>)
        ensures
            target_answer(r) == self@.artifact(project_id@, kind, outcome(*read), split@),
    {
        let dir = self.remote_dir(project_id);
        let args = self.last_args(project_id);
        let root = self.last_root(project_id);
        match locate(kind, args.as_slice(), root.as_str(), read, split) {
            Err(why) => Err(ChannelError(why)),
            Ok((source, place)) => Ok(
                self.target(glue3(dir.as_str(), "/", source.as_str()), place),
            ),
        }
    }
}

/// Projects that build over one channel keep their own build memory: remembering one project's
/// build changes no answer about another.
pub proof fn law_projects_keep_their_own_memory(
    channel: SshView,
    project: Seq<char>,
    other: Seq<char>,
    args: Seq<Seq<char>>,
    root: Seq<char>,
    kind: Kind,
    read: Result<Seq<char>, Seq<char>>,
    split: SplitView,
)
    requires
        project != other,
    ensures
        ({
            let after = SshView { last: channel.last.insert(other, (args, root)), ..channel };
            &&& after.args(project) == channel.args(project)
            &&& after.root(project) == channel.root(project)
            &&& after.artifact(project, kind, read, split) == channel.artifact(
                project,
                kind,
                read,
                split,
            )
            &&& after.args(other) == args
            &&& after.root(other) == root
        }),
{
}

/// A project is identified by the name of its directory alone, so two projects whose directories
/// have the same name share a directory on the far side.
pub proof fn law_same_name_same_directory(root: Seq<char>, other: Seq<char>)
    requires
        crate::input::root_name(root) == crate::input::root_name(other),
    ensures
        remote_home(crate::input::project_name_of(crate::input::root_name(root))) == remote_home(
            crate::input::project_name_of(crate::input::root_name(other)),
        ),
{
}

/// The build runs in the project's own directory over there, with cargo on the path, colours on
/// and that directory's path rewritten to the local root; its flags stand behind it one after
/// the other, each quoted.
pub proof fn law_a_build_line_grows_by_its_flags(
    remote_dir: Seq<char>,
    local_root: Seq<char>,
    args: Seq<Seq<char>>,
    arg: Seq<char>,
)
    ensures
        build_line(remote_dir, local_root, Seq::empty())
            == ". \"$HOME/.cargo/env\" 2>/dev/null; cd "@ + quoted(remote_dir)
            + " && RUSTFLAGS=\"--remap-path-prefix=$PWD=\""@ + quoted(local_root)
            + " CARGO_TERM_COLOR=always cargo build"@,
        build_line(remote_dir, local_root, args.push(arg)) == build_line(
            remote_dir,
            local_root,
            args,
        ) + seq![' '] + quoted(arg),
{
    let head = build_head(remote_dir, local_root);
    let none = Seq::<Seq<char>>::empty();
    crate::shell::law_a_list_is_spaced_out(args, arg);
    crate::shell::law_a_list_is_spaced_out(all_quoted(args), quoted(arg));
    assert(all_quoted(none) =~= none);
    assert(build_line(remote_dir, local_root, none) =~= head);
    assert(build_line(remote_dir, local_root, args.push(arg)) =~= build_line(
        remote_dir,
        local_root,
        args,
    ) + seq![' '] + quoted(arg));
}

/// A line is passed on to the stream it came in on, with the line end that reading took off it.
pub proof fn law_lines_stay_on_their_stream(line: Seq<char>)
    ensures
        line_payload(Origin::Stdout, line) == PayloadView::Stdout(encode_utf8(line.push('\n'))),
        line_payload(Origin::Stderr, line) == PayloadView::Stderr(encode_utf8(line.push('\n'))),
{
    reveal_strlit("\n");
    assert(line + "\n"@ =~= line.push('\n'));
}

/// How ssh's end is reported: 255 is ssh's own failure to connect, every other code is the
/// build's, and a signal counts as an interruption.
pub proof fn law_how_an_end_is_reported(code: i32, why: Seq<char>)
    ensures
        code != 255 ==> ending(Ok(Some(code))) == Ok::<Option<PayloadView>, Seq<char>>(
            Some(PayloadView::ExitCode(code)),
        ),
        code == 255 ==> ending(Ok(Some(code))) == Err::<Option<PayloadView>, Seq<char>>(
            "ssh could not connect"@,
        ),
        ending(Ok(None)) == Ok::<Option<PayloadView>, Seq<char>>(Some(PayloadView::ExitCode(130))),
        ending(Err(why)) == Err::<Option<PayloadView>, Seq<char>>("ssh failed: "@ + why),
{
}

/// Closing one stream closes that one alone, and nothing is left to be read exactly where neither
/// stream is open.
pub proof fn law_streams_close_one_by_one(relay: RelayView, closed: Origin, other: Origin)
    ensures
        relay.without(closed).open(other) <==> closed != other && relay.open(other),
        relay.drained() <==> !relay.open(Origin::Stdout) && !relay.open(Origin::Stderr),
        relay.without(Origin::Stdout).without(Origin::Stderr).drained(),
{
}

/// A project's source goes to a directory of its own name, on the channel's own host, over the
/// port ssh takes by itself and as whoever its config says.
pub proof fn law_targets_on_a_plain_host(
    channel: SshView,
    project: Seq<char>,
    path: Seq<char>,
    relative: Seq<char>,
)
    ensures
        remote_home(project) == ".mamba/"@ + project,
        channel.target(path, relative).host == channel.host,
        channel.target(path, relative).port == 22,
        channel.target(path, relative).user == Seq::<char>::empty(),
        channel.target(path, relative).path == path,
        channel.target(path, relative).relative_path == relative,
{
    reveal_strlit("");
    assert(""@ =~= Seq::<char>::empty());
}

/// An artifact is looked for where the project's most recent build left it: below the project's
/// directory over there, under the path it has below the root here. A project that was not built
/// counts as built without flags. Only the binary needs a step of its own first, which runs in
/// the project's directory.
pub proof fn law_artifacts_of_the_latest_build(
    channel: SshView,
    project: Seq<char>,
    args: Seq<Seq<char>>,
    root: Seq<char>,
    kind: Kind,
    read: Result<Seq<char>, Seq<char>>,
    split: SplitView,
)
    ensures
        !channel.last.contains_key(project) ==> channel.args(project).len() == 0 && channel.root(
            project,
        ).len() == 0,
        ({
            let built = SshView { last: channel.last.insert(project, (args, root)), ..channel };
            &&& match located(kind, args, root, read, split) {
                Err(why) => built.artifact(project, kind, read, split) == Err::<
                    TargetView,
                    Seq<char>,
                >(why),
                Ok((source, place)) => built.artifact(project, kind, read, split) matches Ok(target)
                    && target.host == channel.host && target.port == 22 && target.user.len() == 0
                    && target.path == ".mamba/"@ + project + "/"@ + source && target.relative_path
                    == place,
            }
            &&& kind != Kind::Binary ==> built.split(project, kind, read) == Ok::<
                Option<Seq<char>>,
                Seq<char>,
            >(None)
            &&& kind == Kind::Binary ==> match binary_name_in(joined(root, "Cargo.toml"@), read) {
                Err(why) => built.split(project, kind, read) == Err::<Option<Seq<char>>, Seq<char>>(
                    why,
                ),
                Ok(name) => built.split(project, kind, read) == Ok::<Option<Seq<char>>, Seq<char>>(
                    Some(
                        "cd "@ + quoted(".mamba/"@ + project) + " && "@ + split_text(
                            subdir(args),
                            name,
                        ),
                    ),
                ),
            }
        }),
{
    reveal_strlit("");
    assert(""@ =~= Seq::<char>::empty());
}

/// The end of a process is seen as it was: its exit code, no code where a signal ended it, or why
/// there is no telling.
pub proof fn law_ends_are_seen_as_they_are(waited: Result<Option<i32>, String>)
    ensures
        waited matches Ok(code) ==> ended(waited) == Ok::<Option<i32>, Seq<char>>(code),
        waited matches Err(why) ==> ended(waited) == Err::<Option<i32>, Seq<char>>(why@),
{
}

} // verus!
