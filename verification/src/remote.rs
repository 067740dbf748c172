//! Building on another machine over plain ssh, without a daemon.

use crate::config::{quotable, RemoteDir};
use crate::shell::{append_quoted, quoted, quoted_texts, spaced, Quoted};
use crate::ssh::{ended, CONNECTION_FAILED, INTERRUPTED};
use crate::text::{copy_text, glue2, glue3, glue4, same_text, texts};
use crate::transfer::{self, rsync_result};
use vstd::prelude::*;

verus! {

/// The rsync arguments for pushing a project.
pub open spec fn upload_line(root: Seq<char>, host: Seq<char>, dir: Seq<char>) -> Seq<Seq<char>> {
    seq![
        "-az"@,
        "--delete"@,
        "--filter=:- .gitignore"@,
        "--filter=P /target/"@,
        "--exclude=.git/"@,
        "--rsync-path=mkdir -p "@ + quoted(dir) + " && rsync"@,
        root + "/"@,
        host + ":"@ + dir + "/"@,
    ]
}

/// Builds the rsync command line for pushing a project to the remote machine.
///
/// Two of the flags are subtle, and getting either wrong is silent rather than loud.
/// `:- .gitignore` reads your ignore rules to decide what to upload. `P /target/` is a protect
/// rule telling the receiving side never to delete that path, which is necessary because ignore
/// rules apply only to the sender, so without it `--delete` wipes the remote build cache on
/// every run.
pub fn rsync_args(root: &str, host: &str, dir: &RemoteDir) -> (r: Vec<String>)
    ensures
        texts(r@) == upload_line(root@, host@, dir@),
{
    let mut args: Vec<String> = Vec::new();
    args.push(copy_text("-az"));
    args.push(copy_text("--delete"));
    args.push(copy_text("--filter=:- .gitignore"));
    args.push(copy_text("--filter=P /target/"));
    args.push(copy_text("--exclude=.git/"));
    args.push(
        glue3("--rsync-path=mkdir -p ", Quoted::new(dir.as_str()).as_str(), " && rsync"),
    );
    args.push(glue2(root, "/"));
    args.push(glue4(host, ":", dir.as_str(), "/"));
    assert(texts(args@) =~= upload_line(root@, host@, dir@));
    args
}

/// The push is over: `ran` is rsync's exit code, `None` where a signal ended it, or why it could
/// not be run.
///
/// An `Err` here always means that the transfer could not happen (a bad network, a missing
/// rsync, a refused login), never that the code failed to compile.
pub fn sync(ran: &Result<Option<i32>, String>) -> (r: Result<(), String>)
    ensures
        match rsync_result(ended(*ran)) {
            Ok(_) => r is Ok,
            Err(why) => r matches Err(e) && e@ == why,
        },
{
    transfer::push(ran)
}

/// What happened when we tried to build on the remote machine.
///
/// The split matters more than it looks. `Finished` means remote cargo ran and this is its exit
/// status, including a normal compile error, which is a real answer and must be shown to the
/// user untouched. `Unreachable` means the build never started, and it is the only case where
/// offering to build locally makes sense. Keeping them as separate variants makes "retry a
/// compile error locally" unrepresentable.
#[derive(Debug)]
pub enum BuildOutcome {
    Finished(i32),
    Unreachable(String),
}

/// A [`BuildOutcome`] as contracts see it.
#[verifier::ext_equal]
pub enum OutcomeView {
    Finished(i32),
    Unreachable(Seq<char>),
}

impl View for BuildOutcome {
    type V = OutcomeView;

    open spec fn view(&self) -> OutcomeView {
        match self {
            BuildOutcome::Finished(code) => OutcomeView::Finished(*code),
            BuildOutcome::Unreachable(why) => OutcomeView::Unreachable(why@),
        }
    }
}

/// The command line that ssh runs, up to cargo's own flags.
pub open spec fn command_head(dir: Seq<char>) -> Seq<char> {
    ". \"$HOME/.cargo/env\" 2>/dev/null; cd "@ + quoted(dir)
        + " && CARGO_TERM_COLOR=always cargo build"@
}

/// What follows cargo's own flags: the step after a successful build, if there is one, between
/// taking down the build's exit code and ending with it.
pub open spec fn command_tail(post_build: Seq<char>) -> Seq<char> {
    if post_build.len() == 0 {
        Seq::empty()
    } else {
        "; rc=$?; if [ $rc -eq 0 ]; then "@ + post_build + "; fi; exit $rc"@
    }
}

/// The command line that ssh runs.
pub open spec fn command_line(
    dir: Seq<char>,
    args: Seq<Seq<char>>,
    post_build: Seq<char>,
) -> Seq<char> {
    command_head(dir) + spaced(args) + command_tail(post_build)
}

/// Assembles the one-line shell command that ssh will run on the far side.
///
/// `CARGO_TERM_COLOR=always` is needed because cargo turns colour off when its output is not a
/// terminal, and over ssh it never is. Setting it means diagnostics arrive coloured without
/// allocating a pseudo-terminal.
///
/// The leading `. "$HOME/.cargo/env" 2>/dev/null` matters more than it looks: `ssh host command`
/// runs a non-interactive remote shell, and rustup's installer normally wires `~/.cargo/bin`
/// onto `PATH` only from an interactive rc file. Without this, a remote `cargo` that a human can
/// run just fine over an interactive login is invisible here, and fails as if cargo were not
/// installed at all.
///
/// The build's status is captured before anything else runs, and is what the line ends with.
/// Whatever the post-build step does, including failing outright, the caller still sees cargo's
/// own verdict.
pub fn remote_command(dir: &RemoteDir, args: &[Quoted], post_build: &str) -> (r: String)
    ensures
        r@ == command_line(dir@, quoted_texts(args@), post_build@),
        crate::shell::shell_words(spaced(quoted_texts(args@))) is Some,
{
    let mut command = glue3(
        ". \"$HOME/.cargo/env\" 2>/dev/null; cd ",
        Quoted::new(dir.as_str()).as_str(),
        " && CARGO_TERM_COLOR=always cargo build",
    );
    append_quoted(&mut command, args);
    proof {
        reveal_strlit("");
        assert(post_build@.len() == 0 ==> post_build@ =~= ""@);
    }
    if same_text(post_build, "") {
        assert(command@ + Seq::<char>::empty() =~= command@);
        command
    } else {
        let whole = glue4(
            command.as_str(),
            "; rc=$?; if [ $rc -eq 0 ]; then ",
            post_build,
            "; fi; exit $rc",
        );
        assert(whole@ =~= command@ + command_tail(post_build@));
        whole
    }
}

/// What is made of how ssh ended.
pub open spec fn build_result(ran: Result<Option<i32>, Seq<char>>) -> OutcomeView {
    match ran {
        Err(why) => OutcomeView::Unreachable("could not run ssh: "@ + why),
        Ok(Some(code)) => if code == CONNECTION_FAILED {
            OutcomeView::Unreachable("ssh could not connect"@)
        } else {
            OutcomeView::Finished(code)
        },
        Ok(None) => OutcomeView::Finished(INTERRUPTED),
    }
}

/// The build is over: `ran` is ssh's exit code, `None` where a signal ended it, or why it could
/// not be run. Exit status 255 is ssh's own signal that it could not connect, which is why it
/// counts as unreachable while every other status is the remote cargo's own.
pub fn build(ran: &Result<Option<i32>, String>) -> (r: BuildOutcome)
    ensures
        r@ == build_result(ended(*ran)),
{
    match ran {
        Err(why) => BuildOutcome::Unreachable(glue2("could not run ssh: ", why.as_str())),
        Ok(Some(code)) => {
            if *code == CONNECTION_FAILED {
                BuildOutcome::Unreachable(copy_text("ssh could not connect"))
            } else {
                BuildOutcome::Finished(*code)
            }
        },
        Ok(None) => BuildOutcome::Finished(INTERRUPTED),
    }
}

/// Whatever the flags are, the remote shell hands cargo exactly those, one word each.
pub proof fn law_flags_stay_words(
    dir: Seq<char>,
    raws: Seq<Seq<char>>,
    post_build: Seq<char>,
)
    ensures
        ({
            let line = command_line(dir, crate::shell::all_quoted(raws), post_build);
            let start = command_head(dir).len() as int;
            let end = line.len() - command_tail(post_build).len();
            crate::shell::shell_words(line.subrange(start, end)) == Some(raws)
        }),
{
    let head = command_head(dir);
    let flags = spaced(crate::shell::all_quoted(raws));
    let tail = command_tail(post_build);
    assert((head + flags + tail).subrange(
        head.len() as int,
        (head + flags + tail).len() - tail.len(),
    ) =~= flags);
    crate::shell::law_quoted_list_is_read_back(raws);
}

/// The step after the build comes last but for the build's own exit code, and runs only where
/// that is 0.
pub proof fn law_post_build_keeps_the_exit_code(
    dir: Seq<char>,
    args: Seq<Seq<char>>,
    post_build: Seq<char>,
)
    ensures
        post_build.len() > 0 ==> command_line(dir, args, post_build) == command_line(
            dir,
            args,
            Seq::empty(),
        ) + ("; rc=$?; if [ $rc -eq 0 ]; then "@ + post_build + "; fi; exit $rc"@),
{
    assert(command_line(dir, args, Seq::empty()) =~= command_head(dir) + spaced(args));
}

/// A compile error is never taken for a machine that cannot be reached: only ssh's own failure
/// is.
pub proof fn law_only_ssh_failures_are_unreachable(ran: Result<Option<i32>, Seq<char>>)
    ensures
        build_result(ran) is Unreachable <==> ran is Err || ran == Ok::<Option<i32>, Seq<char>>(
            Some(CONNECTION_FAILED),
        ),
{
}

/// The directory that is made before a first push is, to the remote shell, one word: the
/// project's directory.
pub proof fn law_made_directory_is_one_word(dir: Seq<char>)
    requires
        quotable(dir),
    ensures
        crate::shell::shell_words(quoted(dir)) == Some(seq![dir]),
{
    crate::shell::law_quoted_text_is_one_word(dir);
}

/// An upload names its source and its destination last, and ahead of them tells rsync to delete
/// what is gone from the source, to leave out what git ignores, to keep the build cache however
/// much else is deleted, and to leave git's own directory out; nothing else is left out or
/// deleted.
pub proof fn law_an_upload_keeps_the_cache(root: Seq<char>, host: Seq<char>, dir: Seq<char>)
    ensures
        upload_line(root, host, dir).len() >= 2,
        upload_line(root, host, dir).last() == host.push(':') + dir.push('/'),
        upload_line(root, host, dir).drop_last().last() == root.push('/'),
        upload_line(root, host, dir).drop_last().drop_last().contains("-az"@),
        upload_line(root, host, dir).drop_last().drop_last().contains("--delete"@),
        upload_line(root, host, dir).drop_last().drop_last().contains("--filter=:- .gitignore"@),
        upload_line(root, host, dir).drop_last().drop_last().contains("--filter=P /target/"@),
        upload_line(root, host, dir).drop_last().drop_last().contains("--exclude=.git/"@),
        upload_line(root, host, dir).drop_last().drop_last().contains(
            "--rsync-path=mkdir -p "@ + quoted(dir) + " && rsync"@,
        ),
        forall|i: int|
            0 <= i < upload_line(root, host, dir).len() - 2 ==> {
                let item = #[trigger] upload_line(root, host, dir)[i];
                item == "-az"@ || item == "--delete"@ || item == "--filter=:- .gitignore"@ || item
                    == "--filter=P /target/"@ || item == "--exclude=.git/"@ || item
                    == "--rsync-path=mkdir -p "@ + quoted(dir) + " && rsync"@
            },
{
    let line = upload_line(root, host, dir);
    let options = line.drop_last().drop_last();
    reveal_strlit("/");
    reveal_strlit(":");
    assert(root + "/"@ =~= root.push('/'));
    assert(host + ":"@ + dir + "/"@ =~= host.push(':') + dir.push('/'));
    assert(options[0] == "-az"@ && options[1] == "--delete"@ && options[2]
        == "--filter=:- .gitignore"@ && options[3] == "--filter=P /target/"@ && options[4]
        == "--exclude=.git/"@ && options[5] == "--rsync-path=mkdir -p "@ + quoted(dir)
        + " && rsync"@);
}

/// The build runs in the project's own directory over there, with cargo on the path and colours
/// on, and its flags stand behind it one after the other.
pub proof fn law_a_build_command_grows_by_its_flags(
    dir: Seq<char>,
    args: Seq<Seq<char>>,
    arg: Seq<char>,
)
    ensures
        command_line(dir, Seq::empty(), Seq::empty())
            == ". \"$HOME/.cargo/env\" 2>/dev/null; cd "@ + quoted(dir)
            + " && CARGO_TERM_COLOR=always cargo build"@,
        command_line(dir, args.push(arg), Seq::empty()) == command_line(dir, args, Seq::empty())
            + seq![' '] + arg,
{
    crate::shell::law_a_list_is_spaced_out(args, arg);
    let head = command_head(dir);
    let none = Seq::<char>::empty();
    assert(command_line(dir, Seq::empty(), none) =~= head);
    assert(command_line(dir, args.push(arg), none) =~= command_line(dir, args, none) + seq![' ']
        + arg);
}

/// How ssh's end is read: 255 is ssh's own failure to connect, every other code is the build's,
/// and a signal counts as an interruption.
pub proof fn law_how_a_build_ended(code: i32, why: Seq<char>)
    ensures
        code != 255 ==> build_result(Ok(Some(code))) == OutcomeView::Finished(code),
        code == 255 ==> build_result(Ok(Some(code))) == OutcomeView::Unreachable(
            "ssh could not connect"@,
        ),
        build_result(Ok(None)) == OutcomeView::Finished(130),
        build_result(Err(why)) == OutcomeView::Unreachable("could not run ssh: "@ + why),
{
}

} // verus!
