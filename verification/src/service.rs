//! The three questions `mamba-server` answers.
//!
//! Every path a client sees is produced here. A request names a project by an opaque id and an
//! artifact by kind; this module decides where those live and returns both an absolute path for
//! rsync to read and a project-relative one for the client to write to.

use crate::input::{name_char, plain_name};
use crate::keyed::KeyedList;
use crate::layout::{
    binary_name, binary_name_in, locate, located, manifest_path_of, split_script, split_text,
    subdir, target_subdir, SplitRun, SplitView,
};
use crate::paths::{file_name, join, joined, last_start};
use crate::proto::{Kind, TargetView, TransferTarget};
use crate::text::{
    characters, copy_text, copy_texts, debug_form, debug_text, glue3, glue4, outcome, texts,
};
use vstd::prelude::*;

verus! {

/// Serves one directory of projects, advertising itself under a fixed host and user.
///
/// The advertised pair goes into every [`TransferTarget`], which is what lets a server point a
/// client at a different machine without the client changing.
///
/// It remembers each project's most recent build arguments, so that a later artifact request
/// resolves against the same profile the build actually used.
pub struct ControlService {
    root: String,
    advertise_host: String,
    advertise_user: String,
    last_build_args: KeyedList<Vec<String>>,
}

/// A [`ControlService`] as contracts see it.
#[verifier::ext_equal]
pub struct ServiceView {
    pub root: Seq<char>,
    pub host: Seq<char>,
    pub user: Seq<char>,
    pub last: Map<Seq<char>, Seq<Seq<char>>>,
}

spec fn args_views(last: Map<Seq<char>, Vec<String>>) -> Map<Seq<char>, Seq<Seq<char>>> {
    last.map_values(|args: Vec<String>| texts(args@))
}

impl View for ControlService {
    type V = ServiceView;

    closed spec fn view(&self) -> ServiceView {
        ServiceView {
            root: self.root@,
            host: self.advertise_host@,
            user: self.advertise_user@,
            last: args_views(self.last_build_args@),
        }
    }
}

/// What is answered where a target was asked for, as contracts see it.
pub open spec fn answer(r: Result<TransferTarget, String>) -> Result<TargetView, Seq<char>> {
    match r {
        Ok(target) => Ok(target@),
        Err(why) => Err(why@),
    }
}

impl ServiceView {
    /// The directory of a project. An id that is not a plain name has none.
    pub open spec fn dir(self, project_id: Seq<char>) -> Result<Seq<char>, Seq<char>> {
        if plain_name(project_id) {
            Ok(joined(self.root, project_id))
        } else {
            Err("project id "@ + debug_form(project_id) + " is not a plain name"@)
        }
    }

    /// The target for a path on the advertised machine.
    pub open spec fn target(self, path: Seq<char>, relative_path: Seq<char>) -> TargetView {
        TargetView { host: self.host, port: 22, user: self.user, path, relative_path }
    }

    /// The arguments of a project's most recent build; none where it has not been built.
    pub open spec fn args(self, project_id: Seq<char>) -> Seq<Seq<char>> {
        if self.last.contains_key(project_id) {
            self.last[project_id]
        } else {
            Seq::empty()
        }
    }

    /// Where to push a project's source, `made` being how making its directory went.
    pub open spec fn upload(self, project_id: Seq<char>, made: Result<(), Seq<char>>) -> Result<
        TargetView,
        Seq<char>,
    > {
        match self.dir(project_id) {
            Err(why) => Err(why),
            Ok(dir) => match made {
                Err(why) => Err("could not create "@ + dir + ": "@ + why),
                Ok(_) => Ok(self.target(dir, ""@)),
            },
        }
    }

    /// Where an artifact of a project is, `read` being what reading the project's manifest gave
    /// and `split` how the split went.
    pub open spec fn artifact(
        self,
        project_id: Seq<char>,
        kind: Kind,
        args: Seq<Seq<char>>,
        read: Result<Seq<char>, Seq<char>>,
        split: SplitView,
    ) -> Result<TargetView, Seq<char>> {
        match self.dir(project_id) {
            Err(why) => Err(why),
            Ok(dir) => match located(kind, args, dir, read, split) {
                Err(why) => Err(why),
                Ok((source, place)) => Ok(self.target(joined(dir, source), place)),
            },
        }
    }

    /// The script that splits a project's binary, where the artifact asked for needs it.
    pub open spec fn split(
        self,
        project_id: Seq<char>,
        kind: Kind,
        args: Seq<Seq<char>>,
        read: Result<Seq<char>, Seq<char>>,
    ) -> Result<Option<Seq<char>>, Seq<char>> {
        match self.dir(project_id) {
            Err(why) => Err(why),
            Ok(dir) => if kind != Kind::Binary {
                Ok(None)
            } else {
                match binary_name_in(manifest_path_of(dir), read) {
                    Err(why) => Err(why),
                    Ok(name) => Ok(Some(split_text(subdir(args), name))),
                }
            },
        }
    }
}

/// Whether a text is a plain name.
fn is_plain_name(text: &str) -> (r: bool)
    ensures
        r == plain_name(text@),
{
    let chars = characters(text);
    let mut i: usize = 0;
    while i < chars.len()
        invariant
            i <= chars@.len(),
            chars@ == text@,
            forall|j: int| 0 <= j < i ==> crate::input::is_name_char(#[trigger] chars@[j]),
        decreases chars@.len() - i,
    {
        if !name_char(chars[i]) {
            assert(!crate::input::is_name_char(text@[i as int]));
            return false;
        }
        i += 1;
    }
    let dot = chars.len() == 1 && chars[0] == '.';
    let dots = chars.len() == 2 && chars[0] == '.' && chars[1] == '.';
    proof {
        if dot {
            assert(text@ =~= seq!['.']);
        } else if text@ =~= seq!['.'] {
            assert(text@[0] == '.');
        }
        if dots {
            assert(text@ =~= seq!['.', '.']);
        } else if text@ =~= seq!['.', '.'] {
            assert(text@[0] == '.' && text@[1] == '.');
        }
    }
    chars.len() > 0 && !dot && !dots
}

impl ControlService {
    pub fn new(root: String, advertise_host: String, advertise_user: String) -> (r: ControlService)
        ensures
            r@.root == root@,
            r@.host == advertise_host@,
            r@.user == advertise_user@,
            r@.last == Map::<Seq<char>, Seq<Seq<char>>>::empty(),
    {
        let service = ControlService {
            root,
            advertise_host,
            advertise_user,
            last_build_args: KeyedList::new(),
        };
        assert(service@.last =~= Map::<Seq<char>, Seq<Seq<char>>>::empty());
        service
    }

    /// Maps a project id to its directory, refusing anything that would climb out of the
    /// server's root. The id arrives over the network, so this is a trust boundary.
    pub fn project_dir(&self, project_id: &str) -> (r: Result<String, String>)
        ensures
            outcome(r) == self@.dir(project_id@),
    {
        if !is_plain_name(project_id) {
            return Err(
                glue3("project id ", debug_text(project_id).as_str(), " is not a plain name"),
            );
        }
        Ok(join(self.root.as_str(), project_id))
    }

    /// Records the arguments of a project's most recent build.
    pub fn remember_args(&mut self, project_id: &str, args: &[String])
        ensures
            final(self)@ == (ServiceView {
                last: old(self)@.last.insert(project_id@, texts(args@)),
                ..old(self)@
            }),
    {
        self.last_build_args.insert(project_id, copy_texts(args));
        assert(self@.last =~= old(self)@.last.insert(project_id@, texts(args@)));
    }

    /// The arguments of a project's most recent build.
    pub fn last_args(&self, project_id: &str) -> (r: Vec<String>)
        ensures
            texts(r@) == self@.args(project_id@),
    {
        match self.last_build_args.get(project_id) {
            Some(args) => copy_texts(args.as_slice()),
            None => {
                let none: Vec<String> = Vec::new();
                assert(texts(none@) =~= Seq::<Seq<char>>::empty());
                none
            },
        }
    }

    fn target(&self, path: String, relative_path: String) -> (r: TransferTarget)
        ensures
            r@ == self@.target(path@, relative_path@),
    {
        TransferTarget {
            host: self.advertise_host.clone(),
            port: 22,
            user: self.advertise_user.clone(),
            path,
            relative_path,
        }
    }

    /// Where a client should push this project's source. The directory is made on demand so
    /// that a project's first build needs no setup; `made` says how that went.
    pub fn upload_target(&self, project_id: &str, made: &Result<(), String>) -> (r: Result<
        TransferTarget,
        String,
    >)
        ensures
            answer(r) == self@.upload(
                project_id@,
                match *made {
                    Ok(_) => Ok(()),
                    Err(why) => Err(why@),
                },
            ),
    {
        match self.project_dir(project_id) {
            Err(why) => Err(why),
            Ok(dir) => match made {
                Err(why) => Err(glue4("could not create ", dir.as_str(), ": ", why.as_str())),
                Ok(_) => Ok(self.target(dir, copy_text(""))),
            },
        }
    }

    /// The script that has to be run in the project's directory before an artifact can be
    /// fetched, if there is one.
    pub fn split_script_for(
        &self,
        project_id: &str,
        kind: Kind,
        args: &[String],
        read: &Result<String, String>,
    ) -> (r: Result<Option<String>, String>)
        ensures
            match self@.split(project_id@, kind, texts(args@), outcome(*read)) {
                Ok(Some(script)) => r matches Ok(Some(s)) && s@ == script,
                Ok(None) => r matches Ok(None),
                Err(why) => r matches Err(e) && e@ == why,
            },
    {
        let dir = match self.project_dir(project_id) {
            Err(why) => {
                return Err(why);
            },
            Ok(dir) => dir,
        };
        match kind {
            Kind::Binary => match binary_name(dir.as_str(), read) {
                Err(why) => Err(why),
                Ok(name) => {
                    let place = target_subdir(args);
                    Ok(Some(split_script(place.as_str(), name.as_str())))
                },
            },
            _ => Ok(None),
        }
    }

    /// Builds a transfer target for one artifact kind. `read` is what reading the project's
    /// manifest gave and `split` how the split went; both are looked at only for the artifacts
    /// that need them.
    ///
    /// The remote and local halves differ for the binary: it travels as the stripped `.slim`
    /// file but lands under the plain name a local build would have produced.
    pub fn resolve_artifact(
        &self,
        project_id: &str,
        kind: Kind,
        args: &[String],
        read: &Result<String, String>,
        split: &SplitRun,
    ) -> (r: Result<TransferTarget, String>)
        ensures
            answer(r) == self@.artifact(project_id@, kind, texts(args@), outcome(*read), split@),
    {
        match self.project_dir(project_id) {
            Err(why) => Err(why),
            Ok(dir) => match locate(kind, args, dir.as_str(), read, split) {
                Err(why) => Err(why),
                Ok((source, place)) => Ok(
                    self.target(join(dir.as_str(), source.as_str()), place),
                ),
            },
        }
    }
}

proof fn lemma_name_is_last(front: Seq<char>, name: Seq<char>)
    requires
        name.len() > 0,
        forall|i: int| 0 <= i < name.len() ==> #[trigger] name[i] != '/',
        front.len() == 0 || front.last() == '/',
    ensures
        last_start(front + name) == front.len(),
    decreases name.len(),
{
    let path = front + name;
    assert(path.last() == name.last());
    assert(name[name.len() - 1] != '/');
    let shorter = name.drop_last();
    assert(path.drop_last() =~= front + shorter);
    if shorter.len() > 0 {
        assert forall|i: int| 0 <= i < shorter.len() implies #[trigger] shorter[i] != '/' by {
            assert(name[i] != '/');
        }
        lemma_name_is_last(front, shorter);
    } else {
        assert(front + shorter =~= front);
    }
}

/// A project's directory stands directly in the server's root, under the project's own name:
/// whatever id arrives, nothing outside is ever named.
pub proof fn law_projects_stay_under_the_root(service: ServiceView, project_id: Seq<char>)
    ensures
        service.dir(project_id) matches Ok(dir) ==> {
            &&& file_name(dir) == Some(project_id)
            &&& dir.len() >= service.root.len()
            &&& dir.take(service.root.len() as int) == service.root
            &&& forall|i: int|
                service.root.len() < i < dir.len() ==> #[trigger] dir[i] != '/'
        },
        service.dir(project_id) is Ok <==> plain_name(project_id),
{
    if plain_name(project_id) {
        let root = service.root;
        let dir = joined(root, project_id);
        assert forall|i: int| 0 <= i < project_id.len() implies #[trigger] project_id[i] != '/' by {
            assert(crate::input::is_name_char(project_id[i]));
        }
        reveal_strlit("/");
        let front = if root.len() == 0 || root.last() == '/' {
            root
        } else {
            root + "/"@
        };
        assert(project_id[0] != '/');
        assert(dir =~= front + project_id);
        lemma_name_is_last(front, project_id);
        assert(dir.skip(front.len() as int) =~= project_id);
        assert(dir.last() == project_id[project_id.len() - 1]);
        assert(dir.take(root.len() as int) =~= root);
    }
}

/// Every id that a client can make is one that the server accepts.
pub proof fn law_client_ids_are_accepted(service: ServiceView, raw: Seq<char>)
    ensures
        service.dir(crate::input::project_name_of(raw)) is Ok,
{
    crate::input::law_project_name_is_plain(raw);
}

/// The two transports agree: for one build, the server and the ssh channel put an artifact in the
/// same place locally, and find it under the same name inside the project. For a file both go by
/// the package's name, which either reads from its own copy of the manifest.
pub proof fn law_transports_agree(
    service: ServiceView,
    channel: crate::ssh::SshView,
    project_id: Seq<char>,
    kind: Kind,
    name: Seq<char>,
    here: Result<Seq<char>, Seq<char>>,
    there: Result<Seq<char>, Seq<char>>,
    split: SplitView,
)
    requires
        plain_name(project_id),
        crate::layout::is_named(kind) ==> {
            &&& binary_name_in(manifest_path_of(channel.root(project_id)), here) == Ok::<
                Seq<char>,
                Seq<char>,
            >(name)
            &&& binary_name_in(manifest_path_of(service.dir(project_id)->Ok_0), there) == Ok::<
                Seq<char>,
                Seq<char>,
            >(name)
        },
    ensures
        ({
            let over_ssh = channel.artifact(project_id, kind, here, split);
            let over_grpc = service.artifact(
                project_id,
                kind,
                channel.args(project_id),
                there,
                split,
            );
            let source = crate::layout::artifact_source(
                kind,
                subdir(channel.args(project_id)),
                name,
            );
            match (over_ssh, over_grpc) {
                (Ok(a), Ok(b)) => a.relative_path == b.relative_path && a.path
                    == crate::ssh::remote_home(project_id) + "/"@ + source && b.path == joined(
                    service.dir(project_id)->Ok_0,
                    source,
                ),
                (Err(a), Err(b)) => a == b,
                _ => false,
            }
        }),
{
    if !crate::layout::is_named(kind) {
        crate::layout::law_directories_need_no_name(
            kind,
            subdir(channel.args(project_id)),
            name,
            ""@,
        );
    }
}

/// Every target a server gives names the machine and the user it advertises and the port ssh
/// takes by itself. A project's source goes to the directory of its own name in the server's
/// root, once that is there, and an id that is no plain name is refused as it came.
pub proof fn law_where_a_server_sends_clients(
    service: ServiceView,
    project: Seq<char>,
    path: Seq<char>,
    relative: Seq<char>,
    why: Seq<char>,
)
    ensures
        service.target(path, relative).host == service.host,
        service.target(path, relative).user == service.user,
        service.target(path, relative).port == 22,
        service.target(path, relative).path == path,
        service.target(path, relative).relative_path == relative,
        plain_name(project) ==> service.dir(project) == Ok::<Seq<char>, Seq<char>>(
            joined(service.root, project),
        ),
        !plain_name(project) ==> service.dir(project) == Err::<Seq<char>, Seq<char>>(
            "project id "@ + debug_form(project) + " is not a plain name"@,
        ),
        plain_name(project) ==> service.upload(project, Err(why)) == Err::<TargetView, Seq<char>>(
            "could not create "@ + joined(service.root, project) + ": "@ + why,
        ),
        plain_name(project) ==> (service.upload(project, Ok(())) matches Ok(target) && target.host
            == service.host && target.user == service.user && target.port == 22 && target.path
            == joined(service.root, project) && target.relative_path.len() == 0),
        !plain_name(project) ==> service.upload(project, Ok(())) is Err && service.upload(
            project,
            Err(why),
        ) is Err,
{
    reveal_strlit("");
}

/// An artifact is where the arguments of the build put it below the project's directory, and
/// belongs under the same path below the client's root. Only the binary needs a step of its own
/// first. For an id that is no plain name there is neither.
pub proof fn law_where_a_server_finds_artifacts(
    service: ServiceView,
    project: Seq<char>,
    kind: Kind,
    args: Seq<Seq<char>>,
    read: Result<Seq<char>, Seq<char>>,
    split: SplitView,
)
    ensures
        !plain_name(project) ==> service.artifact(project, kind, args, read, split) is Err
            && service.split(project, kind, args, read) is Err,
        plain_name(project) ==> ({
            let dir = joined(service.root, project);
            &&& match located(kind, args, dir, read, split) {
                Err(why) => service.artifact(project, kind, args, read, split) == Err::<
                    TargetView,
                    Seq<char>,
                >(why),
                Ok((source, place)) => service.artifact(project, kind, args, read, split) matches Ok(
                    target,
                ) && target.host == service.host && target.user == service.user && target.port == 22
                    && target.path == joined(dir, source) && target.relative_path == place,
            }
            &&& kind != Kind::Binary ==> service.split(project, kind, args, read) == Ok::<
                Option<Seq<char>>,
                Seq<char>,
            >(None)
            &&& kind == Kind::Binary ==> match binary_name_in(joined(dir, "Cargo.toml"@), read) {
                Err(why) => service.split(project, kind, args, read) == Err::<
                    Option<Seq<char>>,
                    Seq<char>,
                >(why),
                Ok(name) => service.split(project, kind, args, read) == Ok::<
                    Option<Seq<char>>,
                    Seq<char>,
                >(Some(split_text(subdir(args), name))),
            }
        }),
{
}

/// A server remembers the arguments of each project's latest build, and only of that project's;
/// one that was not built counts as built without arguments.
pub proof fn law_a_server_remembers_builds(
    service: ServiceView,
    project: Seq<char>,
    other: Seq<char>,
    args: Seq<Seq<char>>,
)
    ensures
        !service.last.contains_key(project) ==> service.args(project).len() == 0,
        (ServiceView { last: service.last.insert(project, args), ..service }).args(project) == args,
        project != other ==> (ServiceView {
            last: service.last.insert(project, args),
            ..service
        }).args(other) == service.args(other),
{
}

/// An answer is seen as the target it gives, or as why there is none.
pub proof fn law_targets_are_seen_as_they_are(r: Result<TransferTarget, String>)
    ensures
        r matches Ok(target) ==> answer(r) == Ok::<TargetView, Seq<char>>(target@),
        r matches Err(why) ==> answer(r) == Err::<TargetView, Seq<char>>(why@),
{
}

} // verus!
