//! Where cargo puts things, and how debug info is separated from a finished binary.
//!
//! Both ends of a build share these rules: the server resolves paths with them for its
//! clients, and the ssh transport, which has no server to ask, resolves the same paths
//! itself. Keeping one copy is what stops the two from disagreeing about where a binary went.

use crate::document::{parse_table, parsed_document, table_get, value_get, value_text, Node, Shape};
use crate::paths::{join, joined};
use crate::proto::Kind;
use crate::text::{
    after_prefix, begins_with, copy_text, glue2, glue3, glue4, glue5, has_text, maybe, outcome,
    same_text, texts,
};
use vstd::prelude::*;

verus! {

/// The value of a flag written either as `--flag value` or `--flag=value`. The first
/// occurrence decides.
pub open spec fn flag_setting(args: Seq<Seq<char>>, flag: Seq<char>) -> Option<Seq<char>>
    decreases args.len(),
{
    if args.len() == 0 {
        None
    } else if args[0] == flag {
        if args.len() > 1 {
            Some(args[1])
        } else {
            None
        }
    } else if begins_with(args[0], flag.push('=')) {
        Some(args[0].skip(flag.len() as int + 1))
    } else {
        flag_setting(args.drop_first(), flag)
    }
}

/// Reads the value of a flag written either as `--flag value` or `--flag=value`.
pub fn flag_value(args: &[String], flag: &str) -> (r: Option<String>)
    ensures
        match r {
            Some(value) => flag_setting(texts(args@), flag@) == Some(value@),
            None => flag_setting(texts(args@), flag@) is None,
        },
{
    let with_sign = glue2(flag, "=");
    proof {
        reveal_strlit("=");
        assert(with_sign@ =~= flag@.push('='));
    }
    let mut i: usize = 0;
    let ghost all = texts(args@);
    assert(all.skip(0) =~= all);
    while i < args.len()
        invariant
            i <= args@.len(),
            all == texts(args@),
            with_sign@ == flag@.push('='),
            flag_setting(all, flag@) == flag_setting(all.skip(i as int), flag@),
        decreases args@.len() - i,
    {
        let ghost here = all.skip(i as int);
        assert(here[0] == args@[i as int]@);
        assert(here.drop_first() =~= all.skip(i + 1));
        if same_text(args[i].as_str(), flag) {
            if i + 1 < args.len() {
                assert(here[1] == args@[i + 1]@);
                return Some(args[i + 1].clone());
            }
            return None;
        }
        if let Some(value) = after_prefix(args[i].as_str(), with_sign.as_str()) {
            assert(here[0].skip(flag@.len() as int + 1) =~= value@);
            return Some(value);
        }
        i += 1;
    }
    None
}

/// Both spellings of a flag say the same, whatever follows.
pub proof fn law_both_spellings_agree(
    flag: Seq<char>,
    value: Seq<char>,
    rest: Seq<Seq<char>>,
)
    ensures
        flag_setting(seq![flag, value] + rest, flag) == Some(value),
        flag_setting(seq![flag.push('=') + value] + rest, flag) == Some(value),
{
    let apart = seq![flag, value] + rest;
    assert(apart[0] == flag && apart[1] == value);
    let word = flag.push('=') + value;
    let together = seq![word] + rest;
    assert(together[0] == word);
    assert(word.len() != flag.len());
    assert(word.subrange(0, flag.len() as int + 1) =~= flag.push('='));
    assert(word.skip(flag.len() as int + 1) =~= value);
}

/// The profile directory cargo writes into for a build with these arguments. `dev` and `test`
/// both build into `debug`, and `bench` into `release`; every other name uses itself.
pub open spec fn profile_dir(args: Seq<Seq<char>>) -> Seq<char> {
    match flag_setting(args, "--profile"@) {
        Some(name) => if name == "dev"@ || name == "test"@ {
            "debug"@
        } else if name == "bench"@ {
            "release"@
        } else {
            name
        },
        None => if args.contains("--release"@) {
            "release"@
        } else {
            "debug"@
        },
    }
}

/// The profile directory cargo writes into, which is not always the profile's name.
pub fn profile_directory(args: &[String]) -> (r: String)
    ensures
        r@ == profile_dir(texts(args@)),
{
    if let Some(name) = flag_value(args, "--profile") {
        if same_text(name.as_str(), "dev") || same_text(name.as_str(), "test") {
            return copy_text("debug");
        }
        if same_text(name.as_str(), "bench") {
            return copy_text("release");
        }
        return name;
    }
    if has_text(args, "--release") {
        copy_text("release")
    } else {
        copy_text("debug")
    }
}

/// Where under `target/` a build with these arguments leaves its artifacts.
pub open spec fn subdir(args: Seq<Seq<char>>) -> Seq<char> {
    match flag_setting(args, "--target"@) {
        Some(triple) => triple + "/"@ + profile_dir(args),
        None => profile_dir(args),
    }
}

/// Where under `target/` this build's artifacts land, as a relative path.
///
/// Three flags move it, and all three are read from the arguments the build received:
/// `--release`, `--profile <name>`, and `--target <triple>`, the last nesting everything one
/// level deeper.
pub fn target_subdir(args: &[String]) -> (r: String)
    ensures
        r@ == subdir(texts(args@)),
{
    let profile = profile_directory(args);
    match flag_value(args, "--target") {
        Some(triple) => glue3(triple.as_str(), "/", profile.as_str()),
        None => profile,
    }
}

/// Where a project keeps its manifest.
pub open spec fn manifest_path_of(project_dir: Seq<char>) -> Seq<char> {
    joined(project_dir, "Cargo.toml"@)
}

/// Where a project keeps its manifest.
pub fn manifest_path(project_dir: &str) -> (r: String)
    ensures
        r@ == manifest_path_of(project_dir@),
{
    join(project_dir, "Cargo.toml")
}

/// The `name` in the `[package]` table of a manifest, where both are there and the name is a
/// text.
pub open spec fn package_name(manifest: Map<Seq<char>, Node>) -> Option<Seq<char>> {
    if manifest.contains_key("package"@) {
        match manifest["package"@].shape {
            Shape::Table(package) => if package.contains_key("name"@) {
                match package["name"@].shape {
                    Shape::Text(name) => Some(name),
                    _ => None,
                }
            } else {
                None
            },
            _ => None,
        }
    } else {
        None
    }
}

/// The name of a project's binary, `read` being what came of reading the manifest at `path`.
pub open spec fn binary_name_in(
    path: Seq<char>,
    read: Result<Seq<char>, Seq<char>>,
) -> Result<Seq<char>, Seq<char>> {
    match read {
        Err(why) => Err("could not read "@ + path + ": "@ + why),
        Ok(text) => match parsed_document(text) {
            Err(why) => Err(path + " is not valid TOML: "@ + why),
            Ok(manifest) => named_or(path, package_name(manifest)),
        },
    }
}

/// The name a manifest gives its package, or the complaint that it gives none.
pub open spec fn named_or(path: Seq<char>, name: Option<Seq<char>>) -> Result<
    Seq<char>,
    Seq<char>,
> {
    match name {
        Some(name) => Ok(name),
        None => Err(path + " has no [package] name"@),
    }
}

/// Turns the name found in a manifest, if any, into the answer about the binary's name.
pub fn name_found(path: &str, name: Option<&str>) -> (r: Result<String, String>)
    ensures
        outcome(r) == named_or(path@, maybe(name)),
{
    match name {
        Some(n) => Ok(copy_text(n)),
        None => Err(glue2(path, " has no [package] name")),
    }
}

/// The binary's name, from a manifest's `[package] name`. `read` is what came of reading the
/// file at [`manifest_path`].
///
/// Only the crate's default binary is resolved: a workspace, or an explicit `[[bin]]` target
/// under a different name, is not handled.
pub fn binary_name(project_dir: &str, read: &Result<String, String>) -> (r: Result<String, String>)
    ensures
        outcome(r) == binary_name_in(manifest_path_of(project_dir@), outcome(*read)),
{
    let path = manifest_path(project_dir);
    let text = match read {
        Ok(text) => text,
        Err(why) => {
            return Err(glue4("could not read ", path.as_str(), ": ", why.as_str()));
        },
    };
    let table = match parse_table(text.as_str()) {
        Ok(table) => table,
        Err(why) => {
            return Err(glue3(path.as_str(), " is not valid TOML: ", why.as_str()));
        },
    };
    let name = match table_get(&table, "package") {
        Some(package) => match value_get(package, "name") {
            Some(name) => value_text(name),
            None => None,
        },
        None => None,
    };
    name_found(path.as_str(), name)
}

/// What follows the binary's path in the script of [`split_script`].
pub const SPLIT_STEPS: &'static str =
    "; objcopy --only-keep-debug \"$b\" \"$b.debug\" 2>/dev/null && strip --strip-debug -o \"$b.slim\" \"$b\" 2>/dev/null && objcopy --add-gnu-debuglink=\"$b.debug\" \"$b.slim\" 2>/dev/null || cp \"$b\" \"$b.slim\"";

/// The text of the script that separates debug info from a binary.
pub open spec fn split_text(subdir: Seq<char>, name: Seq<char>) -> Seq<char> {
    "b=target/"@ + subdir + "/"@ + name + SPLIT_STEPS@
}

/// The shell fragment that separates debug info from a built binary, run in the project
/// directory on whichever machine compiled.
///
/// Three steps: copy the symbols out, write a stripped binary beside them, then record a link
/// from the stripped one back to the symbols. gdb and `addr2line` follow that link when the
/// two files sit together, so fetching symbols later needs no configuration to take effect.
///
/// The trailing `|| cp` matters more than it looks: without it a host that lacks binutils
/// leaves no `.slim` file at all, and the fetch fails with a confusing "no such file" instead
/// of simply moving an unstripped binary.
pub fn split_script(subdir: &str, name: &str) -> (r: String)
    ensures
        r@ == split_text(subdir@, name@),
{
    glue5("b=target/", subdir, "/", name, SPLIT_STEPS)
}

/// Where an artifact is found, relative to the project on the machine that built it. The
/// binary travels as the stripped `.slim` file.
pub open spec fn artifact_source(kind: Kind, subdir: Seq<char>, name: Seq<char>) -> Seq<char> {
    match kind {
        Kind::Binary => artifact_place(kind, subdir, name) + ".slim"@,
        _ => artifact_place(kind, subdir, name),
    }
}

/// Where an artifact belongs, relative to the local project: where a local build would have
/// left it.
pub open spec fn artifact_place(kind: Kind, subdir: Seq<char>, name: Seq<char>) -> Seq<char> {
    match kind {
        Kind::ProcMacros => "target/"@ + subdir + "/deps"@,
        Kind::GeneratedSource => "target/"@ + subdir + "/build"@,
        Kind::Binary => "target/"@ + subdir + "/"@ + name,
        Kind::Symbols => "target/"@ + subdir + "/"@ + name + ".debug"@,
    }
}

/// Whether an artifact's path depends on the binary's name.
pub open spec fn is_named(kind: Kind) -> bool {
    kind == Kind::Binary || kind == Kind::Symbols
}

/// Where an artifact is found and where it belongs, in this order. `name` is looked at only
/// for the kinds whose path carries it.
pub fn artifact_paths(kind: Kind, subdir: &str, name: &str) -> (r: (String, String))
    ensures
        r.0@ == artifact_source(kind, subdir@, name@),
        r.1@ == artifact_place(kind, subdir@, name@),
{
    let place = match kind {
        Kind::ProcMacros => glue3("target/", subdir, "/deps"),
        Kind::GeneratedSource => glue3("target/", subdir, "/build"),
        Kind::Binary => glue4("target/", subdir, "/", name),
        Kind::Symbols => glue5("target/", subdir, "/", name, ".debug"),
    };
    let source = match kind {
        Kind::Binary => glue2(place.as_str(), ".slim"),
        _ => copy_text(place.as_str()),
    };
    (source, place)
}

/// Proc-macro libraries and generated source are found without knowing the binary's name.
pub proof fn law_directories_need_no_name(
    kind: Kind,
    subdir: Seq<char>,
    name: Seq<char>,
    other: Seq<char>,
)
    requires
        !is_named(kind),
    ensures
        artifact_source(kind, subdir, name) == artifact_source(kind, subdir, other),
        artifact_place(kind, subdir, name) == artifact_place(kind, subdir, other),
{
}

/// How running the split went.
#[derive(Debug)]
pub enum SplitRun {
    /// It ran and said that it succeeded.
    Succeeded,
    /// It ran and ended otherwise, with this status.
    Ended(String),
    /// It could not be run, and why.
    Unstarted(String),
}

/// A [`SplitRun`] as contracts see it.
#[verifier::ext_equal]
pub enum SplitView {
    Succeeded,
    Ended(Seq<char>),
    Unstarted(Seq<char>),
}

impl View for SplitRun {
    type V = SplitView;

    open spec fn view(&self) -> SplitView {
        match self {
            SplitRun::Succeeded => SplitView::Succeeded,
            SplitRun::Ended(status) => SplitView::Ended(status@),
            SplitRun::Unstarted(why) => SplitView::Unstarted(why@),
        }
    }
}

/// What is made of how the split went.
pub open spec fn split_result(ran: SplitView) -> Result<(), Seq<char>> {
    match ran {
        SplitView::Succeeded => Ok(()),
        SplitView::Ended(status) => Err("splitting debug info failed with "@ + status),
        SplitView::Unstarted(why) => Err("could not run the split: "@ + why),
    }
}

/// Judges how the split went.
pub fn split_verdict(ran: &SplitRun) -> (r: Result<(), String>)
    ensures
        match split_result(ran@) {
            Ok(_) => r is Ok,
            Err(why) => r matches Err(e) && e@ == why,
        },
{
    match ran {
        SplitRun::Succeeded => Ok(()),
        SplitRun::Ended(status) => Err(
            glue2("splitting debug info failed with ", status.as_str()),
        ),
        SplitRun::Unstarted(why) => Err(glue2("could not run the split: ", why.as_str())),
    }
}

/// Where an artifact is found and where it belongs, or why there is no telling. A directory is
/// where it always is. A file is named after the package, `read` being what reading the
/// project's manifest gave, and the binary is there only once the split has succeeded.
pub open spec fn located(
    kind: Kind,
    args: Seq<Seq<char>>,
    project_dir: Seq<char>,
    read: Result<Seq<char>, Seq<char>>,
    split: SplitView,
) -> Result<(Seq<char>, Seq<char>), Seq<char>> {
    if !is_named(kind) {
        Ok((artifact_source(kind, subdir(args), ""@), artifact_place(kind, subdir(args), ""@)))
    } else {
        match binary_name_in(manifest_path_of(project_dir), read) {
            Err(why) => Err(why),
            Ok(name) => match split_result(split) {
                Err(why) if kind == Kind::Binary => Err(why),
                _ => Ok(
                    (
                        artifact_source(kind, subdir(args), name),
                        artifact_place(kind, subdir(args), name),
                    ),
                ),
            },
        }
    }
}

/// Finds out where an artifact is and where it belongs.
pub fn locate(
    kind: Kind,
    args: &[String],
    project_dir: &str,
    read: &Result<String, String>,
    split: &SplitRun,
) -> (r: Result<(String, String), String>)
    ensures
        match located(kind, texts(args@), project_dir@, outcome(*read), split@) {
            Ok((source, place)) => r matches Ok(pair) && pair.0@ == source && pair.1@ == place,
            Err(why) => r matches Err(e) && e@ == why,
        },
{
    let dir = target_subdir(args);
    match kind {
        Kind::ProcMacros => Ok(artifact_paths(kind, dir.as_str(), "")),
        Kind::GeneratedSource => Ok(artifact_paths(kind, dir.as_str(), "")),
        Kind::Binary => match binary_name(project_dir, read) {
            Err(why) => Err(why),
            Ok(name) => match split_verdict(split) {
                Err(why) => Err(why),
                Ok(_) => Ok(artifact_paths(kind, dir.as_str(), name.as_str())),
            },
        },
        Kind::Symbols => match binary_name(project_dir, read) {
            Err(why) => Err(why),
            Ok(name) => Ok(artifact_paths(kind, dir.as_str(), name.as_str())),
        },
    }
}

/// The manifest and the split are looked at only for the artifacts that need them: the manifest
/// for files, the split for the binary.
pub proof fn law_only_what_is_needed_is_looked_at(
    kind: Kind,
    args: Seq<Seq<char>>,
    project_dir: Seq<char>,
    read: Result<Seq<char>, Seq<char>>,
    other_read: Result<Seq<char>, Seq<char>>,
    split: SplitView,
    other_split: SplitView,
)
    ensures
        !is_named(kind) ==> located(kind, args, project_dir, read, split) == located(
            kind,
            args,
            project_dir,
            other_read,
            other_split,
        ),
        kind != Kind::Binary ==> located(kind, args, project_dir, read, split) == located(
            kind,
            args,
            project_dir,
            read,
            other_split,
        ),
{
}

/// The artifact of a kind, once it is known where it is, lands where a local build would have
/// left it: only the binary travels under another name than it lands under.
pub proof fn law_only_the_binary_is_renamed(kind: Kind, subdir: Seq<char>, name: Seq<char>)
    ensures
        kind == Kind::Binary ==> artifact_source(kind, subdir, name) == artifact_place(
            kind,
            subdir,
            name,
        ) + ".slim"@,
        kind != Kind::Binary ==> artifact_source(kind, subdir, name) == artifact_place(
            kind,
            subdir,
            name,
        ),
{
}

/// Arguments are read from left to right: one that is neither the flag nor the flag with a value
/// behind an equals sign is passed over, and a flag at the very end has no value.
pub proof fn law_flags_are_read_from_left_to_right(
    first: Seq<char>,
    rest: Seq<Seq<char>>,
    flag: Seq<char>,
)
    ensures
        flag_setting(Seq::<Seq<char>>::empty(), flag) is None,
        flag_setting(seq![flag], flag) is None,
        first != flag && !(first.len() > flag.len() && first.take(flag.len() as int) == flag
            && first[flag.len() as int] == '=') ==> flag_setting(seq![first] + rest, flag)
            == flag_setting(rest, flag),
{
    let all = seq![first] + rest;
    assert(all[0] == first);
    assert(all.drop_first() =~= rest);
    if begins_with(first, flag.push('=')) {
        let head = first.subrange(0, flag.len() as int + 1);
        assert(head[flag.len() as int] == '=');
        assert(first.take(flag.len() as int) =~= head.drop_last());
        assert(flag.push('=').drop_last() =~= flag);
    }
}

/// Which directory a profile builds into: `release` where `--release` or the `bench` profile is
/// named, `debug` where nothing or the `dev` or `test` profile is, and a directory of its own name
/// for any other profile. `--profile` decides where both flags are given.
pub proof fn law_profiles_and_their_directories(args: Seq<Seq<char>>)
    ensures
        flag_setting(args, "--profile"@) is None && !args.contains("--release"@) ==> profile_dir(
            args,
        ) == "debug"@,
        flag_setting(args, "--profile"@) is None && args.contains("--release"@) ==> profile_dir(
            args,
        ) == "release"@,
        flag_setting(args, "--profile"@) == Some("dev"@) ==> profile_dir(args) == "debug"@,
        flag_setting(args, "--profile"@) == Some("test"@) ==> profile_dir(args) == "debug"@,
        flag_setting(args, "--profile"@) == Some("bench"@) ==> profile_dir(args) == "release"@,
        flag_setting(args, "--profile"@) matches Some(name) ==> name == "dev"@ || name == "test"@
            || name == "bench"@ || profile_dir(args) == name,
{
    reveal_strlit("dev");
    reveal_strlit("test");
    reveal_strlit("bench");
    assert("dev"@.len() == 3 && "test"@.len() == 4 && "bench"@.len() == 5);
}

/// Without a target triple, artifacts are in the profile's directory; with one, they are in a
/// directory of that name inside the triple's, whatever else was asked for.
pub proof fn law_a_triple_only_nests(args: Seq<Seq<char>>)
    ensures
        flag_setting(args, "--target"@) is None ==> subdir(args) == profile_dir(args),
        flag_setting(args, "--target"@) matches Some(triple) ==> subdir(args) == triple.push('/')
            + profile_dir(args),
        flag_setting(args, "--target"@) is None && flag_setting(args, "--profile"@) is None
            && !args.contains("--release"@) ==> subdir(args) == "debug"@,
        flag_setting(args, "--target"@) matches Some(triple) ==> flag_setting(args, "--profile"@)
            is None && !args.contains("--release"@) ==> subdir(args) == triple.push('/')
            + "debug"@,
        flag_setting(args, "--target"@) matches Some(triple) ==> flag_setting(args, "--profile"@)
            is None && args.contains("--release"@) ==> subdir(args) == triple.push('/')
            + "release"@,
{
    reveal_strlit("/");
    law_profiles_and_their_directories(args);
    if let Some(triple) = flag_setting(args, "--target"@) {
        assert(triple + "/"@ =~= triple.push('/'));
    }
}

/// Naming a target triple, in either spelling, puts whatever the same build would have left
/// without it one level deeper.
pub proof fn law_a_triple_nests_the_same_build(triple: Seq<char>, args: Seq<Seq<char>>)
    requires
        flag_setting(args, "--target"@) is None,
        triple != "--release"@,
        triple != "--profile"@,
        !(triple.len() > 9 && triple.take(9) == "--profile"@ && triple[9] == '='),
    ensures
        subdir(seq!["--target"@, triple] + args) == triple.push('/') + subdir(args),
        subdir(seq!["--target"@.push('=') + triple] + args) == triple.push('/') + subdir(args),
{
    let target = "--target"@;
    let profile = "--profile"@;
    let release = "--release"@;
    let word = target.push('=') + triple;
    let apart = seq![target, triple] + args;
    let together = seq![word] + args;
    reveal_strlit("--target");
    reveal_strlit("--profile");
    reveal_strlit("--release");
    assert(target.len() == 8 && profile.len() == 9 && release.len() == 9);
    assert(word[2] == 't' && profile[2] == 'p' && release[2] == 'r');
    law_both_spellings_agree(target, triple, args);
    law_a_triple_only_nests(apart);
    law_a_triple_only_nests(together);
    law_a_triple_only_nests(args);
    assert(apart =~= seq![target] + (seq![triple] + args));
    law_flags_are_read_from_left_to_right(target, seq![triple] + args, profile);
    law_flags_are_read_from_left_to_right(triple, args, profile);
    assert(word.take(9) != profile) by {
        assert(word.take(9)[2] == 't');
    }
    law_flags_are_read_from_left_to_right(word, args, profile);
    assert(apart.contains(release) == args.contains(release)) by {
        if args.contains(release) {
            let i = choose|i: int| 0 <= i < args.len() && args[i] == release;
            assert(apart[i + 2] == release);
        }
        if apart.contains(release) {
            let i = choose|i: int| 0 <= i < apart.len() && apart[i] == release;
            assert(i >= 2) by {
                assert(apart[0] == target && apart[1] == triple);
            }
            assert(args[i - 2] == release);
        }
    }
    assert(together.contains(release) == args.contains(release)) by {
        if args.contains(release) {
            let i = choose|i: int| 0 <= i < args.len() && args[i] == release;
            assert(together[i + 1] == release);
        }
        if together.contains(release) {
            let i = choose|i: int| 0 <= i < together.len() && together[i] == release;
            assert(i >= 1) by {
                assert(together[0] == word);
            }
            assert(args[i - 1] == release);
        }
    }
    law_profiles_and_their_directories(apart);
    law_profiles_and_their_directories(together);
    law_profiles_and_their_directories(args);
}

/// Where each artifact is, below the directory the build went to: the binary under the package's
/// name, its symbols beside it, and the two directories under the names cargo gives them. The
/// binary travels as the stripped file beside it.
pub proof fn law_artifacts_and_their_places(place: Seq<char>, name: Seq<char>)
    ensures
        artifact_place(Kind::Binary, place, name) == "target/"@ + place + seq!['/'] + name,
        artifact_place(Kind::Symbols, place, name) == "target/"@ + place + seq!['/'] + name
            + ".debug"@,
        artifact_place(Kind::ProcMacros, place, name) == "target/"@ + place + "/deps"@,
        artifact_place(Kind::GeneratedSource, place, name) == "target/"@ + place + "/build"@,
        artifact_source(Kind::Binary, place, name) == "target/"@ + place + seq!['/'] + name
            + ".slim"@,
        artifact_source(Kind::Symbols, place, name) == "target/"@ + place + seq!['/'] + name
            + ".debug"@,
        artifact_source(Kind::ProcMacros, place, name) == "target/"@ + place + "/deps"@,
        artifact_source(Kind::GeneratedSource, place, name) == "target/"@ + place + "/build"@,
{
    reveal_strlit("/");
    assert("/"@ =~= seq!['/']);
}

/// The split works on the binary where cargo left it, and on no other file: the script names it
/// once, and every step goes by that name.
pub proof fn law_the_split_works_on_the_binary(place: Seq<char>, name: Seq<char>)
    ensures
        split_text(place, name) == "b="@ + artifact_place(Kind::Binary, place, name)
            + "; objcopy --only-keep-debug \"$b\" \"$b.debug\" 2>/dev/null && strip --strip-debug -o \"$b.slim\" \"$b\" 2>/dev/null && objcopy --add-gnu-debuglink=\"$b.debug\" \"$b.slim\" 2>/dev/null || cp \"$b\" \"$b.slim\""@,
{
    reveal_strlit("b=target/");
    reveal_strlit("b=");
    reveal_strlit("target/");
    assert("b=target/"@ =~= "b="@ + "target/"@);
    let rest = place + "/"@ + name;
    assert("b=target/"@ + place + "/"@ + name =~= "b="@ + ("target/"@ + place + "/"@ + name));
}

/// A binary is named by the text under `name` in the table under `package`, and by nothing else;
/// where a manifest does not name one that way, the complaint begins with its path, and one that
/// cannot be read or parsed is complained about with its path and the reason.
pub proof fn law_the_package_names_the_binary(path: Seq<char>, text: Seq<char>, why: Seq<char>)
    ensures
        binary_name_in(path, Err(why)) == Err::<Seq<char>, Seq<char>>(
            "could not read "@ + path + ": "@ + why,
        ),
        parsed_document(text) matches Err(reason) ==> binary_name_in(path, Ok(text)) == Err::<
            Seq<char>,
            Seq<char>,
        >(path + " is not valid TOML: "@ + reason),
        parsed_document(text) matches Ok(nodes) ==> (match binary_name_in(path, Ok(text)) {
            Ok(name) => nodes.contains_key("package"@) && (nodes["package"@].shape matches Shape::Table(
                package,
            ) && package.contains_key("name"@) && package["name"@].shape == Shape::Text(name)),
            Err(e) => e == path + " has no [package] name"@ && !(nodes.contains_key("package"@) && (
            nodes["package"@].shape matches Shape::Table(package) && package.contains_key(
                "name"@,
            ) && package["name"@].shape is Text)),
        }),
{
}

/// An artifact of a build is where the build's arguments put it: a directory always, a file under
/// the name the manifest gives, and the binary only once it has been split.
pub proof fn law_artifacts_follow_the_arguments(
    kind: Kind,
    args: Seq<Seq<char>>,
    project_dir: Seq<char>,
    read: Result<Seq<char>, Seq<char>>,
    split: SplitView,
)
    ensures
        kind == Kind::ProcMacros ==> located(kind, args, project_dir, read, split) == Ok::<
            (Seq<char>, Seq<char>),
            Seq<char>,
        >(("target/"@ + subdir(args) + "/deps"@, "target/"@ + subdir(args) + "/deps"@)),
        kind == Kind::GeneratedSource ==> located(kind, args, project_dir, read, split) == Ok::<
            (Seq<char>, Seq<char>),
            Seq<char>,
        >(("target/"@ + subdir(args) + "/build"@, "target/"@ + subdir(args) + "/build"@)),
        kind == Kind::Binary || kind == Kind::Symbols ==> (match binary_name_in(
            joined(project_dir, "Cargo.toml"@),
            read,
        ) {
            Err(why) => located(kind, args, project_dir, read, split) == Err::<
                (Seq<char>, Seq<char>),
                Seq<char>,
            >(why),
            Ok(name) => {
                let file = "target/"@ + subdir(args) + seq!['/'] + name;
                if kind == Kind::Symbols {
                    located(kind, args, project_dir, read, split) == Ok::<
                        (Seq<char>, Seq<char>),
                        Seq<char>,
                    >((file + ".debug"@, file + ".debug"@))
                } else {
                    match split {
                        SplitView::Succeeded => located(kind, args, project_dir, read, split)
                            == Ok::<(Seq<char>, Seq<char>), Seq<char>>((file + ".slim"@, file)),
                        SplitView::Ended(status) => located(kind, args, project_dir, read, split)
                            == Err::<(Seq<char>, Seq<char>), Seq<char>>(
                            "splitting debug info failed with "@ + status,
                        ),
                        SplitView::Unstarted(why) => located(kind, args, project_dir, read, split)
                            == Err::<(Seq<char>, Seq<char>), Seq<char>>(
                            "could not run the split: "@ + why,
                        ),
                    }
                }
            },
        }),
{
    reveal_strlit("/");
    assert("/"@ =~= seq!['/']);
}

/// How a split went is seen as it was.
pub proof fn law_splits_are_seen_as_they_are(ran: SplitRun)
    ensures
        ran is Succeeded <==> ran@ == SplitView::Succeeded,
        ran matches SplitRun::Ended(status) ==> ran@ == SplitView::Ended(status@),
        ran matches SplitRun::Unstarted(why) ==> ran@ == SplitView::Unstarted(why@),
{
}

} // verus!
