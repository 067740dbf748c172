//! Bulk file movement, driven entirely by targets the far side supplies.
//!
//! rsync has this job because its delta transfer and compression are why a rebuilt binary costs
//! a fraction of its size to move. Every host, user, and path here arrives in a
//! [`TransferTarget`] and is used as given, so a server can point at a different machine without
//! the client knowing.
//!
//! All transfers share one multiplexed ssh connection, turning a per-command handshake into a
//! one-time cost.

use crate::input::{home_dir, mamba_home};
use crate::paths::{join, joined, parent, parent_of};
use crate::proto::{Kind, TargetView, TransferTarget};
use crate::ssh::ended;
use crate::text::{
    copy_text, decimal, decimal_form, glue2, glue3, glue4, glue5, maybe, outcome, same_text,
    signed_decimal, signed_form, texts,
};
use vstd::prelude::*;

verus! {

/// The path of the socket that transfers share. `%C` stands for a hash of the destination.
pub open spec fn control_path(home: Option<Seq<char>>) -> Seq<char> {
    joined(home_dir(home), "cm-%C"@)
}

/// The ssh command that rsync is told to use.
pub open spec fn control_line(home: Option<Seq<char>>, port: u32) -> Seq<char> {
    "ssh -o ControlMaster=auto -o ControlPath="@ + control_path(home)
        + " -o ControlPersist=600"@ + (if port != 0 && port != 22 {
        " -p "@ + decimal_form(port as nat)
    } else {
        Seq::empty()
    })
}

/// The `-e` argument that makes rsync reuse one ssh connection for every transfer, and honours
/// the target's port when it names a nonstandard one.
///
/// `ControlPath` is a unix socket path, and `sockaddr_un` caps those at 108 bytes; a descriptive
/// path silently breaks multiplexing, so `%C` (a 40-character hash of the destination) under a
/// short directory is used instead.
///
/// Port 22 (and 0, the unset default) is deliberately left off the command line: it is what ssh
/// does anyway, and forcing `-p 22` would clobber a port set for this host in `~/.ssh/config`.
pub fn ssh_control_args(home: Option<&str>, port: u32) -> (r: Vec<String>)
    ensures
        texts(r@) == seq!["-e"@, control_line(maybe(home), port)],
{
    let path = join(mamba_home(home).as_str(), "cm-%C");
    let line = glue3(
        "ssh -o ControlMaster=auto -o ControlPath=",
        path.as_str(),
        " -o ControlPersist=600",
    );
    let ssh = if port != 0 && port != 22 {
        let with_port = glue3(line.as_str(), " -p ", decimal(port as u64).as_str());
        assert(with_port@ =~= control_line(maybe(home), port));
        with_port
    } else {
        assert(line@ =~= control_line(maybe(home), port));
        line
    };
    let mut args: Vec<String> = Vec::new();
    args.push(copy_text("-e"));
    args.push(ssh);
    assert(texts(args@) =~= seq!["-e"@, control_line(maybe(home), port)]);
    args
}

/// The remote side of an rsync command line. An empty user means that the ssh config already
/// knows who to log in as.
pub open spec fn remote_text(target: TargetView) -> Seq<char> {
    if target.user.len() == 0 {
        target.host + ":"@ + target.path
    } else {
        target.user + "@"@ + target.host + ":"@ + target.path
    }
}

/// Renders the remote side of an rsync command line.
pub fn remote_spec(target: &TransferTarget) -> (r: String)
    ensures
        r@ == remote_text(target@),
{
    proof {
        reveal_strlit("");
        assert(target.user@.len() == 0 ==> target.user@ =~= ""@);
    }
    if same_text(target.user.as_str(), "") {
        glue3(target.host.as_str(), ":", target.path.as_str())
    } else {
        glue5(target.user.as_str(), "@", target.host.as_str(), ":", target.path.as_str())
    }
}

/// The rsync arguments for a push.
pub open spec fn push_line(home: Option<Seq<char>>, root: Seq<char>, target: TargetView) -> Seq<
    Seq<char>,
> {
    seq![
        "-az"@,
        "--delete"@,
        "--filter=:- .gitignore"@,
        "--filter=P /target/"@,
        "--exclude=.git/"@,
        "--rsync-path=mkdir -p '"@ + target.path + "' && rsync"@,
        "-e"@,
        control_line(home, target.port),
        root + "/"@,
        remote_text(target) + "/"@,
    ]
}

/// The rsync arguments for pushing a project's source to wherever the far side said.
///
/// `:- .gitignore` decides what is uploaded; `P /target/` tells the receiver never to delete
/// that path, which is what keeps the remote build cache alive across runs. The two do different
/// jobs: ignore rules apply only to the sender, so without the protect rule `--delete` wipes the
/// cache on every run.
pub fn push_args(home: Option<&str>, root: &str, target: &TransferTarget) -> (r: Vec<String>)
    ensures
        texts(r@) == push_line(maybe(home), root@, target@),
{
    let mut args: Vec<String> = Vec::new();
    args.push(copy_text("-az"));
    args.push(copy_text("--delete"));
    args.push(copy_text("--filter=:- .gitignore"));
    args.push(copy_text("--filter=P /target/"));
    args.push(copy_text("--exclude=.git/"));
    args.push(glue3("--rsync-path=mkdir -p '", target.path.as_str(), "' && rsync"));
    let mut control = ssh_control_args(home, target.port);
    let ghost line = texts(control@);
    assert(control@.len() == line.len());
    assert(control@[0]@ == line[0] && control@[1]@ == line[1]);
    args.append(&mut control);
    args.push(glue2(root, "/"));
    args.push(glue2(remote_spec(target).as_str(), "/"));
    assert(texts(args@) =~= push_line(maybe(home), root@, target@));
    args
}

/// Whether an artifact is a directory rather than a file.
pub open spec fn is_directory(kind: Kind) -> bool {
    kind == Kind::ProcMacros || kind == Kind::GeneratedSource
}

/// The rules that say which files of a directory are fetched. The include rules come before the
/// catch-all exclude: rsync takes the first rule that matches.
pub open spec fn filters(kind: Kind) -> Seq<Seq<char>> {
    match kind {
        Kind::ProcMacros => seq!["--include=*.so"@, "--exclude=*"@],
        Kind::GeneratedSource => seq![
            "--include=*/"@,
            "--include=*.rs"@,
            "--exclude=*"@,
            "--prune-empty-dirs"@,
        ],
        _ => Seq::empty(),
    }
}

/// Where an artifact lands: the target's relative path, taken from the project's root.
pub open spec fn landing(root: Seq<char>, target: TargetView) -> Seq<char> {
    joined(root, target.relative_path)
}

/// The rsync arguments for a fetch.
pub open spec fn fetch_line(
    home: Option<Seq<char>>,
    root: Seq<char>,
    target: TargetView,
    kind: Kind,
) -> Seq<Seq<char>> {
    seq!["-az"@] + filters(kind) + seq![
        "-e"@,
        control_line(home, target.port),
        if is_directory(kind) {
            remote_text(target) + "/"@
        } else {
            remote_text(target)
        },
        landing(root, target),
    ]
}

/// The rsync arguments for fetching one artifact, plus where it lands locally.
///
/// The destination is the target's `relative_path` joined to this project's root, which is how
/// the binary can travel as a stripped `.slim` file yet land under the plain name a local build
/// would have written.
///
/// Of `deps/` only the dynamic libraries are wanted: the rest is statically linked into the
/// binary and never needed here. Of the generated source every directory is entered and only
/// Rust files are taken; without the rule for directories rsync never enters the nested `out/`
/// directories and copies nothing.
pub fn fetch_args(home: Option<&str>, root: &str, target: &TransferTarget, kind: Kind) -> (r: (
    Vec<String>,
    String,
))
    ensures
        texts(r.0@) == fetch_line(maybe(home), root@, target@, kind),
        r.1@ == landing(root@, target@),
{
    let local = join(root, target.relative_path.as_str());
    let mut args: Vec<String> = Vec::new();
    args.push(copy_text("-az"));
    let remote = match kind {
        Kind::ProcMacros => {
            args.push(copy_text("--include=*.so"));
            args.push(copy_text("--exclude=*"));
            glue2(remote_spec(target).as_str(), "/")
        },
        Kind::GeneratedSource => {
            args.push(copy_text("--include=*/"));
            args.push(copy_text("--include=*.rs"));
            args.push(copy_text("--exclude=*"));
            args.push(copy_text("--prune-empty-dirs"));
            glue2(remote_spec(target).as_str(), "/")
        },
        Kind::Binary => remote_spec(target),
        Kind::Symbols => remote_spec(target),
    };
    assert(texts(args@) =~= seq!["-az"@] + filters(kind));
    let mut control = ssh_control_args(home, target.port);
    let ghost before = args@;
    let ghost line = texts(control@);
    assert(control@.len() == line.len());
    assert(control@[0]@ == line[0] && control@[1]@ == line[1]);
    args.append(&mut control);
    args.push(remote);
    args.push(local.clone());
    proof {
        let front = seq!["-az"@] + filters(kind);
        assert(texts(before) == front);
        assert(forall|i: int| 0 <= i < before.len() ==> before[i]@ == #[trigger] front[i]) by {
            assert forall|i: int| 0 <= i < before.len() implies before[i]@ == #[trigger] front[i] by {
                assert(texts(before)[i] == before[i]@);
            }
        }
        assert(texts(args@) =~= fetch_line(maybe(home), root@, target@, kind));
    }
    (args, local)
}

/// The directory that has to be there before an artifact can land, if there is one to make.
pub open spec fn landing_dir(local: Seq<char>, kind: Kind) -> Option<Seq<char>> {
    if is_directory(kind) {
        Some(local)
    } else {
        parent(local)
    }
}

/// Finds the directory that has to be there before an artifact can land.
pub fn needed_dir(local: &str, kind: Kind) -> (r: Option<String>)
    ensures
        match landing_dir(local@, kind) {
            Some(dir) => r matches Some(d) && d@ == dir,
            None => r is None,
        },
{
    match kind {
        Kind::ProcMacros => Some(copy_text(local)),
        Kind::GeneratedSource => Some(copy_text(local)),
        Kind::Binary => parent_of(local),
        Kind::Symbols => parent_of(local),
    }
}

/// What is made of how rsync ended: its exit code, `None` where a signal ended it, or why it
/// could not be run.
pub open spec fn rsync_result(ran: Result<Option<i32>, Seq<char>>) -> Result<(), Seq<char>> {
    match ran {
        Err(why) => Err("could not run rsync: "@ + why),
        Ok(Some(code)) => if code == 0 {
            Ok(())
        } else {
            Err("rsync exited with "@ + signed_form(code as int))
        },
        Ok(None) => Err("rsync was killed by a signal"@),
    }
}

/// The push is over: turns rsync's end into a message.
pub fn push(ran: &Result<Option<i32>, String>) -> (r: Result<(), String>)
    ensures
        match rsync_result(ended(*ran)) {
            Ok(_) => r is Ok,
            Err(why) => r matches Err(e) && e@ == why,
        },
{
    match ran {
        Err(why) => Err(glue2("could not run rsync: ", why.as_str())),
        Ok(Some(code)) => {
            if *code == 0 {
                Ok(())
            } else {
                Err(glue2("rsync exited with ", signed_decimal(*code).as_str()))
            }
        },
        Ok(None) => Err(copy_text("rsync was killed by a signal")),
    }
}

/// What is made of a fetch: where the artifact landed, or what went wrong, making the directory
/// before running rsync.
pub open spec fn fetch_result(
    local: Seq<char>,
    kind: Kind,
    made: Result<(), Seq<char>>,
    ran: Result<Option<i32>, Seq<char>>,
) -> Result<Seq<char>, Seq<char>> {
    match (landing_dir(local, kind), made) {
        (Some(dir), Err(why)) => Err("could not create "@ + dir + ": "@ + why),
        _ => match rsync_result(ran) {
            Ok(_) => Ok(local),
            Err(why) => Err(why),
        },
    }
}

/// The fetch is over: tells where the artifact landed. `made` says how making the needed
/// directory went, and `ran` how rsync ended, which is looked at only where the directory is
/// there.
pub fn fetch(
    local: &str,
    kind: Kind,
    made: &Result<(), String>,
    ran: &Result<Option<i32>, String>,
) -> (r: Result<String, String>)
    ensures
        outcome(r) == fetch_result(
            local@,
            kind,
            match *made {
                Ok(_) => Ok(()),
                Err(why) => Err(why@),
            },
            ended(*ran),
        ),
{
    if let Some(dir) = needed_dir(local, kind) {
        if let Err(why) = made {
            return Err(glue4("could not create ", dir.as_str(), ": ", why.as_str()));
        }
    }
    match push(ran) {
        Ok(_) => Ok(copy_text(local)),
        Err(why) => Err(why),
    }
}

/// What a target says is what rsync is told: the machine, the user and the path at the remote
/// end come from the target alone, and so does the port, whenever it is not the one ssh takes by
/// itself.
pub proof fn law_targets_are_obeyed(
    home: Option<Seq<char>>,
    root: Seq<char>,
    target: TargetView,
    kind: Kind,
)
    ensures
        push_line(home, root, target).last() == remote_text(target) + "/"@,
        fetch_line(home, root, target, kind)[fetch_line(home, root, target, kind).len() - 2]
            == remote_text(target) + (if is_directory(kind) {
            "/"@
        } else {
            Seq::empty()
        }),
        fetch_line(home, root, target, kind)[fetch_line(home, root, target, kind).len() - 3]
            == control_line(home, target.port),
        fetch_line(home, root, target, kind).last() == landing(root, target),
{
    assert(remote_text(target) + Seq::<char>::empty() =~= remote_text(target));
}

/// The socket's path is short: it adds thirteen characters at most to the home directory's. With
/// a hash of forty characters in place of `%C` that is 51, which leaves 56 of the 107 bytes a
/// socket's path may have to the home directory.
pub proof fn law_control_path_is_short(home: Seq<char>)
    ensures
        control_path(Some(home)).len() <= home.len() + 13,
{
    reveal_strlit(".mamba");
    reveal_strlit("cm-%C");
    reveal_strlit("/");
}

/// A push names its source and its destination last, and ahead of them tells rsync to delete what
/// is gone from the source, to leave out what git ignores, to keep the build cache however much
/// else is deleted, and to leave git's own directory out; nothing else is left out or deleted.
pub proof fn law_a_push_keeps_the_cache(
    home: Option<Seq<char>>,
    root: Seq<char>,
    target: TargetView,
)
    ensures
        push_line(home, root, target).len() >= 2,
        push_line(home, root, target).last() == remote_text(target).push('/'),
        push_line(home, root, target).drop_last().last() == root.push('/'),
        push_line(home, root, target).drop_last().drop_last().contains("-az"@),
        push_line(home, root, target).drop_last().drop_last().contains("--delete"@),
        push_line(home, root, target).drop_last().drop_last().contains("--filter=:- .gitignore"@),
        push_line(home, root, target).drop_last().drop_last().contains("--filter=P /target/"@),
        push_line(home, root, target).drop_last().drop_last().contains("--exclude=.git/"@),
        push_line(home, root, target).drop_last().drop_last().contains(
            "--rsync-path=mkdir -p '"@ + target.path + "' && rsync"@,
        ),
        exists|i: int|
            0 <= i < push_line(home, root, target).len() - 3 && #[trigger] push_line(
                home,
                root,
                target,
            )[i] == "-e"@ && push_line(home, root, target)[i + 1] == control_line(
                home,
                target.port,
            ),
        forall|i: int|
            0 <= i < push_line(home, root, target).len() - 2 ==> {
                let item = #[trigger] push_line(home, root, target)[i];
                item == "-az"@ || item == "--delete"@ || item == "--filter=:- .gitignore"@ || item
                    == "--filter=P /target/"@ || item == "--exclude=.git/"@ || item == "-e"@
                    || item == control_line(home, target.port) || item
                    == "--rsync-path=mkdir -p '"@ + target.path + "' && rsync"@
            },
{
    let line = push_line(home, root, target);
    let options = line.drop_last().drop_last();
    reveal_strlit("/");
    assert(root + "/"@ =~= root.push('/'));
    assert(remote_text(target) + "/"@ =~= remote_text(target).push('/'));
    assert(options[0] == "-az"@ && options[1] == "--delete"@ && options[2]
        == "--filter=:- .gitignore"@ && options[3] == "--filter=P /target/"@ && options[4]
        == "--exclude=.git/"@ && options[5] == "--rsync-path=mkdir -p '"@ + target.path
        + "' && rsync"@);
    assert(line[6] == "-e"@ && line[7] == control_line(home, target.port));
}

/// Every transfer goes over the shared connection in the home directory, or in `/tmp` where there
/// is none, and a port is named exactly where it is set and not the one ssh takes by itself.
pub proof fn law_a_port_is_named_where_it_matters(home: Option<Seq<char>>, port: u32)
    ensures
        control_line(home, 0) == "ssh -o ControlMaster=auto -o ControlPath="@ + joined(
            joined(
                match home {
                    Some(dir) => dir,
                    None => "/tmp"@,
                },
                ".mamba"@,
            ),
            "cm-%C"@,
        ) + " -o ControlPersist=600"@,
        control_line(home, 22) == control_line(home, 0),
        port != 0 && port != 22 ==> control_line(home, port) == control_line(home, 0) + " -p "@
            + decimal_form(port as nat),
{
}

/// The remote end is the path on the host, behind a colon, and the user comes in front exactly
/// where there is one.
pub proof fn law_the_remote_end_is_named_in_full(target: TargetView)
    ensures
        target.user == Seq::<char>::empty() ==> remote_text(target) == target.host.push(':')
            + target.path,
        target.user != Seq::<char>::empty() ==> remote_text(target) == target.user.push('@')
            + target.host.push(':') + target.path,
{
    reveal_strlit(":");
    reveal_strlit("@");
    assert(target.host + ":"@ =~= target.host.push(':'));
    assert(target.user + "@"@ =~= target.user.push('@'));
    if target.user.len() == 0 {
        assert(target.user =~= Seq::<char>::empty());
    } else {
        assert(target.user.push('@') + target.host.push(':') =~= target.user + "@"@ + target.host
            + ":"@);
    }
}

/// What each fetch asks for: one file under its name, or of a directory's contents only those
/// files that are needed here, the rules that take files in standing ahead of the one that leaves
/// the rest out. Nothing here is ever deleted by one, and it lands below the project's root.
pub proof fn law_a_fetch_takes_what_is_needed(
    home: Option<Seq<char>>,
    root: Seq<char>,
    target: TargetView,
)
    ensures
        fetch_line(home, root, target, Kind::Binary) == seq![
            "-az"@,
            "-e"@,
            control_line(home, target.port),
            remote_text(target),
            joined(root, target.relative_path),
        ],
        fetch_line(home, root, target, Kind::Symbols) == fetch_line(
            home,
            root,
            target,
            Kind::Binary,
        ),
        fetch_line(home, root, target, Kind::ProcMacros) == seq![
            "-az"@,
            "--include=*.so"@,
            "--exclude=*"@,
            "-e"@,
            control_line(home, target.port),
            remote_text(target).push('/'),
            joined(root, target.relative_path),
        ],
        fetch_line(home, root, target, Kind::GeneratedSource) == seq![
            "-az"@,
            "--include=*/"@,
            "--include=*.rs"@,
            "--exclude=*"@,
            "--prune-empty-dirs"@,
            "-e"@,
            control_line(home, target.port),
            remote_text(target).push('/'),
            joined(root, target.relative_path),
        ],
        landing(root, target) == joined(root, target.relative_path),
{
    reveal_strlit("/");
    assert(remote_text(target) + "/"@ =~= remote_text(target).push('/'));
    assert(fetch_line(home, root, target, Kind::Binary) =~= seq![
        "-az"@,
        "-e"@,
        control_line(home, target.port),
        remote_text(target),
        joined(root, target.relative_path),
    ]);
    assert(fetch_line(home, root, target, Kind::Symbols) =~= fetch_line(
        home,
        root,
        target,
        Kind::Binary,
    ));
    assert(fetch_line(home, root, target, Kind::ProcMacros) =~= seq![
        "-az"@,
        "--include=*.so"@,
        "--exclude=*"@,
        "-e"@,
        control_line(home, target.port),
        remote_text(target).push('/'),
        joined(root, target.relative_path),
    ]);
    assert(fetch_line(home, root, target, Kind::GeneratedSource) =~= seq![
        "-az"@,
        "--include=*/"@,
        "--include=*.rs"@,
        "--exclude=*"@,
        "--prune-empty-dirs"@,
        "-e"@,
        control_line(home, target.port),
        remote_text(target).push('/'),
        joined(root, target.relative_path),
    ]);
}

/// A transfer succeeded exactly where rsync ran and exited with zero; every other end is told
/// with its cause.
pub proof fn law_only_a_clean_exit_is_success(code: i32, why: Seq<char>)
    ensures
        rsync_result(Ok(Some(code))) is Ok <==> code == 0,
        code != 0 ==> rsync_result(Ok(Some(code))) == Err::<(), Seq<char>>(
            "rsync exited with "@ + signed_form(code as int),
        ),
        rsync_result(Ok(None)) == Err::<(), Seq<char>>("rsync was killed by a signal"@),
        rsync_result(Err(why)) == Err::<(), Seq<char>>("could not run rsync: "@ + why),
{
}

/// A fetch needs the directory itself where a directory is fetched, and the directory around it
/// where a file is. It ends where the artifact landed exactly if that directory could be made, or
/// none was needed, and rsync exited with zero.
pub proof fn law_a_fetch_needs_its_directory(
    local: Seq<char>,
    kind: Kind,
    made: Result<(), Seq<char>>,
    ran: Result<Option<i32>, Seq<char>>,
)
    ensures
        landing_dir(local, Kind::ProcMacros) == Some(local),
        landing_dir(local, Kind::GeneratedSource) == Some(local),
        landing_dir(local, Kind::Binary) == parent(local),
        landing_dir(local, Kind::Symbols) == parent(local),
        match fetch_result(local, kind, made, ran) {
            Ok(place) => place == local && ran == Ok::<Option<i32>, Seq<char>>(Some(0i32)) && (made
                is Ok || landing_dir(local, kind) is None),
            Err(e) => {
                ||| made is Err && (landing_dir(local, kind) matches Some(dir) && e
                    == "could not create "@ + dir + ": "@ + made->Err_0)
                ||| (made is Ok || landing_dir(local, kind) is None) && ran != Ok::<
                    Option<i32>,
                    Seq<char>,
                >(Some(0i32)) && rsync_result(ran) == Err::<(), Seq<char>>(e)
            },
        },
{
}

} // verus!
