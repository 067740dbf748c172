//! Fetching what a remote build left behind, over plain ssh, without a daemon.

use crate::config::{Config, ConfigView};
use crate::layout::{
    artifact_paths, artifact_place, artifact_source, binary_name, binary_name_in, manifest_path_of,
    split_script, split_text,
};
use crate::paths::{join, joined};
use crate::proto::Kind;
use crate::ssh::ended;
use crate::text::{characters, copy_text, glue2, glue5, has_text, outcome, texts};
use crate::transfer::{fetch, fetch_result, filters, is_directory};
use vstd::prelude::*;

verus! {

/// The shell fragment the host runs after a successful build to separate debug info from the
/// binary. `<bin>.slim` always exists afterwards, and is simply the unstripped binary when
/// splitting was not possible.
pub fn split_command(profile: &str, name: &str) -> (r: String)
    ensures
        r@ == split_text(profile@, name@),
{
    split_script(profile, name)
}

/// The profile directory that forwarded flags make cargo use.
pub open spec fn profile_name(args: Seq<Seq<char>>) -> Seq<char> {
    if args.contains("--release"@) {
        "release"@
    } else {
        "debug"@
    }
}

/// Which profile directory cargo will have used, read from the forwarded flags.
pub fn profile_of(args: &[String]) -> (r: &'static str)
    ensures
        r@ == profile_name(texts(args@)),
{
    if has_text(args, "--release") {
        "release"
    } else {
        "debug"
    }
}

/// Where an artifact lands.
pub open spec fn local_path(
    kind: Kind,
    config: ConfigView,
    name: Seq<char>,
    args: Seq<Seq<char>>,
) -> Seq<char> {
    joined(config.root, artifact_place(kind, profile_name(args), name))
}

/// The remote side of fetching an artifact.
pub open spec fn remote_path(
    kind: Kind,
    config: ConfigView,
    name: Seq<char>,
    args: Seq<Seq<char>>,
) -> Seq<char> {
    config.host + ":"@ + config.remote_dir + "/"@ + artifact_source(kind, profile_name(args), name)
        + (if is_directory(kind) {
        "/"@
    } else {
        Seq::empty()
    })
}

/// The rsync arguments for fetching an artifact.
pub open spec fn download_line(
    kind: Kind,
    config: ConfigView,
    name: Seq<char>,
    args: Seq<Seq<char>>,
) -> Seq<Seq<char>> {
    seq!["-az"@] + filters(kind) + seq![
        remote_path(kind, config, name, args),
        local_path(kind, config, name, args),
    ]
}

fn download_args(kind: Kind, config: &Config, name: &str, args: &[String]) -> (r: (
    Vec<String>,
    String,
))
    ensures
        texts(r.0@) == download_line(kind, config@, name@, texts(args@)),
        r.1@ == local_path(kind, config@, name@, texts(args@)),
{
    let (source, place) = artifact_paths(kind, profile_of(args), name);
    let local = join(config.root.as_path(), place.as_str());
    let bare = glue5(
        config.host.as_str(),
        ":",
        config.remote_dir.as_str(),
        "/",
        source.as_str(),
    );
    let mut line: Vec<String> = Vec::new();
    line.push(copy_text("-az"));
    let remote = match kind {
        Kind::ProcMacros => {
            line.push(copy_text("--include=*.so"));
            line.push(copy_text("--exclude=*"));
            glue2(bare.as_str(), "/")
        },
        Kind::GeneratedSource => {
            line.push(copy_text("--include=*/"));
            line.push(copy_text("--include=*.rs"));
            line.push(copy_text("--exclude=*"));
            line.push(copy_text("--prune-empty-dirs"));
            glue2(bare.as_str(), "/")
        },
        Kind::Binary => bare,
        Kind::Symbols => bare,
    };
    assert(remote@ =~= remote_path(kind, config@, name@, texts(args@)));
    line.push(remote);
    line.push(local.clone());
    assert(texts(line@) =~= download_line(kind, config@, name@, texts(args@)));
    (line, local)
}

/// Builds the rsync arguments for pulling the built binary back to the exact local path cargo
/// would have used, plus that path itself.
///
/// The host holds both a full binary and a stripped one. Only the stripped one travels, but it
/// lands under the plain name so that everything downstream finds it exactly where a local build
/// would have left it.
pub fn pull_args(config: &Config, name: &str, args: &[String]) -> (r: (Vec<String>, String))
    ensures
        texts(r.0@) == download_line(Kind::Binary, config@, name@, texts(args@)),
        r.1@ == local_path(Kind::Binary, config@, name@, texts(args@)),
{
    download_args(Kind::Binary, config, name, args)
}

/// Builds the rsync arguments for fetching the symbol file, plus where it lands.
pub fn symbols_args(config: &Config, name: &str, args: &[String]) -> (r: (Vec<String>, String))
    ensures
        texts(r.0@) == download_line(Kind::Symbols, config@, name@, texts(args@)),
        r.1@ == local_path(Kind::Symbols, config@, name@, texts(args@)),
{
    download_args(Kind::Symbols, config, name, args)
}

/// rsync arguments for fetching just the proc-macro dylibs out of the host's `deps/` directory,
/// plus the local directory they land in.
pub fn proc_macro_args(config: &Config, args: &[String]) -> (r: (Vec<String>, String))
    ensures
        texts(r.0@) == download_line(Kind::ProcMacros, config@, ""@, texts(args@)),
        r.1@ == local_path(Kind::ProcMacros, config@, ""@, texts(args@)),
{
    download_args(Kind::ProcMacros, config, "", args)
}

/// rsync arguments for fetching build-script generated Rust source, plus the local directory it
/// lands in.
pub fn generated_source_args(config: &Config, args: &[String]) -> (r: (Vec<String>, String))
    ensures
        texts(r.0@) == download_line(Kind::GeneratedSource, config@, ""@, texts(args@)),
        r.1@ == local_path(Kind::GeneratedSource, config@, ""@, texts(args@)),
{
    download_args(Kind::GeneratedSource, config, "", args)
}

/// How making a directory went, as contracts see it.
pub open spec fn made_view(made: Result<(), String>) -> Result<(), Seq<char>> {
    match made {
        Ok(_) => Ok(()),
        Err(why) => Err(why@),
    }
}

/// What is made of fetching a file that is named after the package: `read` is what reading the
/// local manifest gave.
pub open spec fn file_result(
    kind: Kind,
    config: ConfigView,
    args: Seq<Seq<char>>,
    read: Result<Seq<char>, Seq<char>>,
    made: Result<(), Seq<char>>,
    ran: Result<Option<i32>, Seq<char>>,
) -> Result<Seq<char>, Seq<char>> {
    match binary_name_in(manifest_path_of(config.root), read) {
        Err(why) => Err(why),
        Ok(name) => fetch_result(local_path(kind, config, name, args), kind, made, ran),
    }
}

/// Pulling the binary is over: tells where it landed. `read` is what reading the local manifest
/// gave, `made` how making the binary's directory went, and `ran` how rsync ended; each is looked
/// at only where the one before it succeeded.
///
/// Only meaningful after a successful build; a compile failure leaves nothing on the remote
/// worth pulling.
pub fn pull(
    config: &Config,
    args: &[String],
    read: &Result<String, String>,
    made: &Result<(), String>,
    ran: &Result<Option<i32>, String>,
) -> (r: Result<String, String>)
    ensures
        outcome(r) == file_result(
            Kind::Binary,
            config@,
            texts(args@),
            outcome(*read),
            made_view(*made),
            ended(*ran),
        ),
{
    match binary_name(config.root.as_path(), read) {
        Err(why) => Err(why),
        Ok(name) => {
            let (_, local) = pull_args(config, name.as_str(), args);
            fetch(local.as_str(), Kind::Binary, made, ran)
        },
    }
}

/// Fetching the debug symbols for the binary just pulled is over: tells where they landed.
///
/// The stripped binary records a link naming this file, and both gdb and `addr2line` follow it
/// once the two sit side by side, so nothing needs configuring after this lands. Without it a
/// backtrace still shows function names, just not line numbers.
pub fn pull_symbols(
    config: &Config,
    args: &[String],
    read: &Result<String, String>,
    made: &Result<(), String>,
    ran: &Result<Option<i32>, String>,
) -> (r: Result<String, String>)
    ensures
        outcome(r) == file_result(
            Kind::Symbols,
            config@,
            texts(args@),
            outcome(*read),
            made_view(*made),
            ended(*ran),
        ),
{
    match binary_name(config.root.as_path(), read) {
        Err(why) => Err(why),
        Ok(name) => {
            let (_, local) = symbols_args(config, name.as_str(), args);
            fetch(local.as_str(), Kind::Symbols, made, ran)
        },
    }
}

/// Whether a file's name has the extension of a shared object. A dot that only hides the file
/// begins no extension.
pub open spec fn is_shared_object(name: Seq<char>) -> bool {
    name.len() > 3 && name[name.len() - 3] == '.' && name[name.len() - 2] == 's' && name[name.len()
        - 1] == 'o'
}

/// How many of the files in a directory are shared objects.
pub open spec fn count_shared_objects(names: Seq<Seq<char>>) -> nat {
    names.filter(|name: Seq<char>| is_shared_object(name)).len()
}

fn shared_object(name: &str) -> (r: bool)
    ensures
        r == is_shared_object(name@),
{
    let chars = characters(name);
    let n = chars.len();
    n > 3 && chars[n - 3] == '.' && chars[n - 2] == 's' && chars[n - 1] == 'o'
}

fn shared_objects(names: &[String]) -> (r: usize)
    ensures
        r == count_shared_objects(texts(names@)),
{
    let ghost all = texts(names@);
    let ghost wanted = |name: Seq<char>| is_shared_object(name);
    let mut count: usize = 0;
    let mut i: usize = 0;
    proof {
        reveal(Seq::filter);
        assert(all.take(0) =~= Seq::<Seq<char>>::empty());
    }
    while i < names.len()
        invariant
            i <= names@.len(),
            count <= i,
            all == texts(names@),
            wanted == (|name: Seq<char>| is_shared_object(name)),
            count == all.take(i as int).filter(wanted).len(),
        decreases names@.len() - i,
    {
        let name = names[i].as_str();
        proof {
            reveal(Seq::filter);
            let now = all.take(i + 1);
            assert(now.drop_last() =~= all.take(i as int));
            assert(now.last() == name@);
        }
        if shared_object(name) {
            count += 1;
        }
        i += 1;
    }
    assert(all.take(i as int) =~= all);
    count
}

/// What is made of fetching the proc-macro libraries: how many of them there now are.
pub open spec fn macros_result(
    local: Seq<char>,
    made: Result<(), Seq<char>>,
    ran: Result<Option<i32>, Seq<char>>,
    listing: Option<Seq<Seq<char>>>,
) -> Result<nat, Seq<char>> {
    match fetch_result(local, Kind::ProcMacros, made, ran) {
        Err(why) => Err(why),
        Ok(_) => Ok(
            match listing {
                Some(names) => count_shared_objects(names),
                None => 0,
            },
        ),
    }
}

/// Bringing the compiled proc-macro libraries down is over: tells how many of them there are.
/// `listing` is what the local directory now holds, where it could be read.
///
/// These are the one part of the host's `deps/` directory that has to exist locally: the editor
/// loads them as dynamic libraries to expand derives, and without them those types read as
/// unresolved. They only change when dependencies do, so this is cheap to repeat.
pub fn sync_proc_macros(
    config: &Config,
    args: &[String],
    made: &Result<(), String>,
    ran: &Result<Option<i32>, String>,
    listing: &Option<Vec<String>>,
) -> (r: Result<usize, String>)
    ensures
        match macros_result(
            local_path(Kind::ProcMacros, config@, ""@, texts(args@)),
            made_view(*made),
            ended(*ran),
            match *listing {
                Some(names) => Some(texts(names@)),
                None => None,
            },
        ) {
            Ok(n) => r matches Ok(count) && count == n,
            Err(why) => r matches Err(e) && e@ == why,
        },
{
    let (_, local) = proc_macro_args(config, args);
    match fetch(local.as_str(), Kind::ProcMacros, made, ran) {
        Err(why) => Err(why),
        Ok(_) => Ok(
            match listing {
                Some(names) => shared_objects(names.as_slice()),
                None => 0,
            },
        ),
    }
}

/// Bringing down the Rust source that build scripts generate is over.
///
/// Only `.rs` files travel. The compiled build-script executables sharing that directory are the
/// bulk of its size and are never needed locally.
pub fn sync_generated_source(
    config: &Config,
    args: &[String],
    made: &Result<(), String>,
    ran: &Result<Option<i32>, String>,
) -> (r: Result<(), String>)
    ensures
        match fetch_result(
            local_path(Kind::GeneratedSource, config@, ""@, texts(args@)),
            Kind::GeneratedSource,
            made_view(*made),
            ended(*ran),
        ) {
            Ok(_) => r is Ok,
            Err(why) => r matches Err(e) && e@ == why,
        },
{
    let (_, local) = generated_source_args(config, args);
    match fetch(local.as_str(), Kind::GeneratedSource, made, ran) {
        Err(why) => Err(why),
        Ok(_) => Ok(()),
    }
}

/// The symbols land beside the binary, under the binary's name with `.debug` behind it: the link
/// that the stripped binary carries names a bare file, so a debugger finds them only there.
pub proof fn law_symbols_land_beside_the_binary(
    config: ConfigView,
    name: Seq<char>,
    args: Seq<Seq<char>>,
)
    ensures
        local_path(Kind::Symbols, config, name, args) == local_path(
            Kind::Binary,
            config,
            name,
            args,
        ) + ".debug"@,
{
    reveal_strlit("target/");
    let binary = artifact_place(Kind::Binary, profile_name(args), name);
    let symbols = artifact_place(Kind::Symbols, profile_name(args), name);
    assert(symbols =~= binary + ".debug"@);
    assert(binary[0] == "target/"@[0]);
    assert(symbols[0] == "target/"@[0]);
    let root = config.root;
    assert((root + "/"@ + binary) + ".debug"@ =~= root + "/"@ + symbols);
    assert((root + binary) + ".debug"@ =~= root + symbols);
}

/// The profile is `release` exactly where `--release` is among the flags, and `debug` elsewhere.
pub proof fn law_release_is_asked_for(args: Seq<Seq<char>>)
    ensures
        args.contains("--release"@) ==> profile_name(args) == "release"@,
        !args.contains("--release"@) ==> profile_name(args) == "debug"@,
{
}

/// Where each artifact lands below the project's root, and where on the host it comes from: the
/// binary as the stripped file beside it, the symbols and the two directories from where they
/// land here.
pub proof fn law_where_artifacts_come_from_and_land(
    config: ConfigView,
    name: Seq<char>,
    args: Seq<Seq<char>>,
)
    ensures
        ({
            let place = "target/"@ + (if args.contains("--release"@) {
                "release"@
            } else {
                "debug"@
            });
            let there = config.host + ":"@ + config.remote_dir + "/"@;
            let binary = place + "/"@ + name;
            &&& local_path(Kind::Binary, config, name, args) == joined(config.root, binary)
            &&& local_path(Kind::Symbols, config, name, args) == joined(
                config.root,
                binary + ".debug"@,
            )
            &&& local_path(Kind::ProcMacros, config, name, args) == joined(
                config.root,
                place + "/deps"@,
            )
            &&& local_path(Kind::GeneratedSource, config, name, args) == joined(
                config.root,
                place + "/build"@,
            )
            &&& download_line(Kind::Binary, config, name, args) == seq![
                "-az"@,
                there + (binary + ".slim"@),
                joined(config.root, binary),
            ]
            &&& download_line(Kind::Symbols, config, name, args) == seq![
                "-az"@,
                there + (binary + ".debug"@),
                joined(config.root, binary + ".debug"@),
            ]
            &&& download_line(Kind::ProcMacros, config, name, args) == seq![
                "-az"@,
                "--include=*.so"@,
                "--exclude=*"@,
                there + (place + "/deps"@) + "/"@,
                joined(config.root, place + "/deps"@),
            ]
            &&& download_line(Kind::GeneratedSource, config, name, args) == seq![
                "-az"@,
                "--include=*/"@,
                "--include=*.rs"@,
                "--exclude=*"@,
                "--prune-empty-dirs"@,
                there + (place + "/build"@) + "/"@,
                joined(config.root, place + "/build"@),
            ]
        }),
{
    let place = "target/"@ + profile_name(args);
    let there = config.host + ":"@ + config.remote_dir + "/"@;
    let binary = place + "/"@ + name;
    assert(there + (binary + ".slim"@) + Seq::<char>::empty() =~= there + (binary + ".slim"@));
    assert(there + (binary + ".debug"@) + Seq::<char>::empty() =~= there + (binary + ".debug"@));
    assert(download_line(Kind::Binary, config, name, args) =~= seq![
        "-az"@,
        there + (binary + ".slim"@),
        joined(config.root, binary),
    ]);
    assert(download_line(Kind::Symbols, config, name, args) =~= seq![
        "-az"@,
        there + (binary + ".debug"@),
        joined(config.root, binary + ".debug"@),
    ]);
    assert(download_line(Kind::ProcMacros, config, name, args) =~= seq![
        "-az"@,
        "--include=*.so"@,
        "--exclude=*"@,
        there + (place + "/deps"@) + "/"@,
        joined(config.root, place + "/deps"@),
    ]);
    assert(download_line(Kind::GeneratedSource, config, name, args) =~= seq![
        "-az"@,
        "--include=*/"@,
        "--include=*.rs"@,
        "--exclude=*"@,
        "--prune-empty-dirs"@,
        there + (place + "/build"@) + "/"@,
        joined(config.root, place + "/build"@),
    ]);
}

/// A shared object is a name with `.so` behind some other characters, and files are counted one
/// by one.
pub proof fn law_shared_objects_are_counted(names: Seq<Seq<char>>, name: Seq<char>)
    ensures
        is_shared_object(name + ".so"@) <==> name.len() > 0,
        is_shared_object(name) ==> name.len() > 3 && name == name.take(name.len() - 3) + ".so"@,
        count_shared_objects(Seq::empty()) == 0,
        count_shared_objects(names.push(name)) == count_shared_objects(names) + (if name.len() > 3
            && name.skip(name.len() - 3) == ".so"@ {
            1nat
        } else {
            0nat
        }),
{
    reveal(Seq::filter);
    reveal_strlit(".so");
    let end = ".so"@;
    assert(end.len() == 3 && end[0] == '.' && end[1] == 's' && end[2] == 'o');
    let wanted = |n: Seq<char>| is_shared_object(n);
    let grown = name + end;
    assert(grown[grown.len() - 3] == '.' && grown[grown.len() - 2] == 's' && grown[grown.len() - 1]
        == 'o');
    if name.len() > 3 {
        let tail = name.skip(name.len() - 3);
        assert(tail[0] == name[name.len() - 3] && tail[1] == name[name.len() - 2] && tail[2]
            == name[name.len() - 1]);
        if is_shared_object(name) {
            assert(name =~= name.take(name.len() - 3) + end);
            assert(tail =~= end);
        }
    }
    assert(names.push(name).drop_last() =~= names);
    assert(Seq::<Seq<char>>::empty().filter(wanted).len() == 0);
}

/// A file is pulled to its place exactly where the project's manifest names a binary, its
/// directory could be made, and rsync exited with zero; the libraries are counted exactly where
/// they could be fetched, and none are where their directory cannot be read.
pub proof fn law_pulling_needs_every_step(
    kind: Kind,
    config: ConfigView,
    args: Seq<Seq<char>>,
    read: Result<Seq<char>, Seq<char>>,
    made: Result<(), Seq<char>>,
    ran: Result<Option<i32>, Seq<char>>,
    listing: Option<Seq<Seq<char>>>,
    local: Seq<char>,
)
    ensures
        match binary_name_in(joined(config.root, "Cargo.toml"@), read) {
            Err(why) => file_result(kind, config, args, read, made, ran) == Err::<
                Seq<char>,
                Seq<char>,
            >(why),
            Ok(name) => file_result(kind, config, args, read, made, ran) == fetch_result(
                local_path(kind, config, name, args),
                kind,
                made,
                ran,
            ),
        },
        match fetch_result(local, Kind::ProcMacros, made, ran) {
            Err(why) => macros_result(local, made, ran, listing) == Err::<nat, Seq<char>>(why),
            Ok(_) => macros_result(local, made, ran, listing) == Ok::<nat, Seq<char>>(
                match listing {
                    Some(names) => count_shared_objects(names),
                    None => 0,
                },
            ),
        },
{
}

/// How making a directory went is seen as it was.
pub proof fn law_directories_are_seen_as_they_are(made: Result<(), String>)
    ensures
        made is Ok <==> made_view(made) is Ok,
        made matches Err(why) ==> made_view(made) == Err::<(), Seq<char>>(why@),
{
}

} // verus!
