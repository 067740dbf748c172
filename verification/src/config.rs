//! The settings of a project that is built over plain ssh, without a daemon.

use crate::document::{
    entry, entry_at, entry_view, parse_table, parsed_document, Entry, EntryView, Held, HeldView,
};
use crate::input::{findings, find_nearest, is_plain_host, nearest, plain_host, root_name};
use crate::paths::{ancestors, ancestors_of, join, joined, name_or};
use crate::text::{
    characters, copy_text, debug_form, debug_text, glue2, glue3, glue4, outcome, texts,
};
use vstd::prelude::*;

verus! {

/// The file whose presence marks a directory as a project to build remotely.
pub const CONFIG_FILE: &'static str = ".mamba.toml";

/// An ssh destination: a bare hostname, a `user@host` pair, or an alias from `~/.ssh/config`.
/// The value is pasted onto an ssh and rsync command line, so the constructor refuses anything
/// a shell could reinterpret; that check happens once here rather than at every use.
#[derive(Debug, PartialEq, Eq)]
pub struct Host(String);

impl View for Host {
    type V = Seq<char>;

    closed spec fn view(&self) -> Seq<char> {
        self.0@
    }
}

impl Clone for Host {
    fn clone(&self) -> (r: Self)
        ensures
            r@ == self@,
    {
        proof {
            use_type_invariant(self);
        }
        Host(self.0.clone())
    }
}

impl Host {
    #[verifier::type_invariant]
    spec fn is_plain(self) -> bool {
        plain_host(self.0@)
    }

    pub fn new(raw: &str) -> (r: Result<Host, ConfigError>)
        ensures
            match r {
                Ok(host) => plain_host(raw@) && host@ == raw@,
                Err(e) => !plain_host(raw@) && e@ == ConfigErrorView::BadHost(raw@),
            },
    {
        if !is_plain_host(raw) {
            return Err(ConfigError::BadHost(copy_text(raw)));
        }
        Ok(Host(copy_text(raw)))
    }

    pub fn as_str(&self) -> (r: &str)
        ensures
            r@ == self@,
            plain_host(r@),
    {
        proof {
            use_type_invariant(self);
        }
        self.0.as_str()
    }
}

/// Text that can be put between single quotes: some characters, and no quote among them.
pub open spec fn quotable(text: Seq<char>) -> bool {
    text.len() > 0 && forall|i: int| 0 <= i < text.len() ==> #[trigger] text[i] != '\''
}

/// Where the project lands on the remote machine. A relative path is taken from the remote
/// user's home directory, which is how the `.mamba/<name>` default resolves without ever
/// needing a tilde. Single quotes are rejected so the value can be wrapped in them safely when
/// it is sent to a remote shell.
#[derive(Debug, PartialEq, Eq)]
pub struct RemoteDir(String);

impl View for RemoteDir {
    type V = Seq<char>;

    closed spec fn view(&self) -> Seq<char> {
        self.0@
    }
}

impl Clone for RemoteDir {
    fn clone(&self) -> (r: Self)
        ensures
            r@ == self@,
    {
        proof {
            use_type_invariant(self);
        }
        RemoteDir(self.0.clone())
    }
}

impl RemoteDir {
    #[verifier::type_invariant]
    spec fn is_quotable(self) -> bool {
        quotable(self.0@)
    }

    pub fn new(raw: &str) -> (r: Result<RemoteDir, ConfigError>)
        ensures
            match r {
                Ok(dir) => quotable(raw@) && dir@ == raw@,
                Err(e) => !quotable(raw@) && e@ == ConfigErrorView::BadRemoteDir(raw@),
            },
    {
        let chars = characters(raw);
        let mut i: usize = 0;
        while i < chars.len()
            invariant
                i <= chars@.len(),
                chars@ == raw@,
                forall|j: int| 0 <= j < i ==> #[trigger] chars@[j] != '\'',
            decreases chars@.len() - i,
        {
            if chars[i] == '\'' {
                assert(!quotable(raw@)) by {
                    assert(raw@[i as int] == '\'');
                }
                return Err(ConfigError::BadRemoteDir(copy_text(raw)));
            }
            i += 1;
        }
        if chars.len() == 0 {
            return Err(ConfigError::BadRemoteDir(copy_text(raw)));
        }
        Ok(RemoteDir(copy_text(raw)))
    }

    pub fn as_str(&self) -> (r: &str)
        ensures
            r@ == self@,
            quotable(r@),
    {
        proof {
            use_type_invariant(self);
        }
        self.0.as_str()
    }
}

/// A directory that holds a `.mamba.toml`. Only reading a [`Config`] builds one, so holding a
/// `ProjectRoot` is proof that there were settings to read.
#[derive(Debug, PartialEq, Eq)]
pub struct ProjectRoot(String);

impl View for ProjectRoot {
    type V = Seq<char>;

    closed spec fn view(&self) -> Seq<char> {
        self.0@
    }
}

impl Clone for ProjectRoot {
    fn clone(&self) -> (r: Self)
        ensures
            r@ == self@,
    {
        ProjectRoot(self.0.clone())
    }
}

impl ProjectRoot {
    pub fn as_path(&self) -> (r: &str)
        ensures
            r@ == self@,
    {
        self.0.as_str()
    }
}

/// Everything that is needed to run a build somewhere else, read from `.mamba.toml`.
///
/// Start with [`Config::discover`], which searches upward from a directory the way cargo looks
/// for `Cargo.toml`.
#[derive(Debug)]
pub struct Config {
    pub root: ProjectRoot,
    pub host: Host,
    pub remote_dir: RemoteDir,
    /// Fetch the built binary back.
    pub pull: bool,
    /// Fetch its debug symbols too.
    pub symbols: bool,
}

/// A [`Config`] as contracts see it.
#[verifier::ext_equal]
pub struct ConfigView {
    pub root: Seq<char>,
    pub host: Seq<char>,
    pub remote_dir: Seq<char>,
    pub pull: bool,
    pub symbols: bool,
}

impl View for Config {
    type V = ConfigView;

    open spec fn view(&self) -> ConfigView {
        ConfigView {
            root: self.root@,
            host: self.host@,
            remote_dir: self.remote_dir@,
            pull: self.pull,
            symbols: self.symbols,
        }
    }
}

impl ConfigView {
    /// What every config satisfies.
    pub open spec fn valid(self) -> bool {
        plain_host(self.host) && quotable(self.remote_dir) && (self.symbols ==> self.pull)
    }
}

/// What an attempt to read a config gave.
pub open spec fn config_outcome(r: Result<Config, ConfigError>) -> Result<
    ConfigView,
    ConfigErrorView,
> {
    match r {
        Ok(config) => Ok(config@),
        Err(e) => Err(e@),
    }
}

/// `.mamba/<project directory name>`, relative to the remote home directory.
pub open spec fn default_dir(root: Seq<char>) -> Seq<char> {
    ".mamba/"@ + root_name(root)
}

/// The directory that a config names, or the default where it names none.
pub open spec fn dir_at(root: Seq<char>, entry: Option<EntryView>) -> Result<
    Seq<char>,
    ConfigErrorView,
> {
    let dir = match entry {
        Some(e) => match e.value {
            HeldView::Text(dir) => dir,
            _ => default_dir(root),
        },
        None => default_dir(root),
    };
    if quotable(dir) {
        Ok(dir)
    } else {
        Err(ConfigErrorView::BadRemoteDir(dir))
    }
}

/// The host that a config names.
pub open spec fn config_host_at(entry: Option<EntryView>) -> Result<Seq<char>, ConfigErrorView> {
    match entry {
        Some(e) => match e.value {
            HeldView::Text(name) => if plain_host(name) {
                Ok(name)
            } else {
                Err(ConfigErrorView::BadHost(name))
            },
            _ => Err(ConfigErrorView::MissingHost),
        },
        None => Err(ConfigErrorView::MissingHost),
    }
}

/// The config that a file's entries amount to. Asking for symbols asks for the binary they
/// belong to.
pub open spec fn config_from(
    root: Seq<char>,
    host: Option<EntryView>,
    remote_dir: Option<EntryView>,
    pull: Option<EntryView>,
    symbols: Option<EntryView>,
) -> Result<ConfigView, ConfigErrorView> {
    match config_host_at(host) {
        Err(e) => Err(e),
        Ok(host) => match dir_at(root, remote_dir) {
            Err(e) => Err(e),
            Ok(remote_dir) => match flag_at(pull) {
                Err(shown) => Err(ConfigErrorView::BadPull(shown)),
                Ok(pull) => match flag_at(symbols) {
                    Err(shown) => Err(ConfigErrorView::BadSymbols(shown)),
                    Ok(symbols) => Ok(
                        ConfigView { root, host, remote_dir, pull: pull || symbols, symbols },
                    ),
                },
            },
        },
    }
}

/// What an entry that must be a boolean says: off where it is missing, and what is written there
/// where it is something else.
pub open spec fn flag_at(entry: Option<EntryView>) -> Result<bool, Seq<char>> {
    match entry {
        None => Ok(false),
        Some(e) => match e.value {
            HeldView::Flag(on) => Ok(on),
            _ => Err(e.rendered),
        },
    }
}

/// The config that a file's text amounts to, `read` being what reading the file in `root` gave.
pub open spec fn config_read(root: Seq<char>, read: Result<Seq<char>, Seq<char>>) -> Result<
    ConfigView,
    ConfigErrorView,
> {
    let path = joined(root, CONFIG_FILE@);
    match read {
        Err(why) => Err(ConfigErrorView::Unreadable(path, why)),
        Ok(text) => match parsed_document(text) {
            Err(why) => Err(ConfigErrorView::Syntax(path, why)),
            Ok(nodes) => config_from(
                root,
                entry_at(nodes, "host"@),
                entry_at(nodes, "remote_dir"@),
                entry_at(nodes, "pull"@),
                entry_at(nodes, "pull-symbols"@),
            ),
        },
    }
}

/// The config that a search finds. `None` means that this is an ordinary Rust project.
pub open spec fn discovered(
    start: Seq<char>,
    files: Seq<Option<Result<Seq<char>, Seq<char>>>>,
) -> Option<Result<ConfigView, ConfigErrorView>> {
    match nearest(ancestors_of(start), files) {
        None => None,
        Some(i) => Some(config_read(ancestors_of(start)[i], files[i]->Some_0)),
    }
}

fn flag_entry(entry: &Option<Entry>) -> (r: Result<bool, String>)
    ensures
        match flag_at(entry_view(*entry)) {
            Ok(on) => r == Ok::<bool, String>(on),
            Err(shown) => r matches Err(e) && e@ == shown,
        },
{
    match entry {
        None => Ok(false),
        Some(e) => match e.value {
            Held::Flag(on) => Ok(on),
            _ => Err(e.rendered.clone()),
        },
    }
}

/// Builds `.mamba/<project directory name>`, relative to the remote home directory.
fn default_remote_dir(root: &str) -> (r: Result<RemoteDir, ConfigError>)
    ensures
        match r {
            Ok(dir) => quotable(default_dir(root@)) && dir@ == default_dir(root@),
            Err(e) => !quotable(default_dir(root@)) && e@ == ConfigErrorView::BadRemoteDir(
                default_dir(root@),
            ),
        },
{
    let name = name_or(root, "project");
    RemoteDir::new(glue2(".mamba/", name.as_str()).as_str())
}

impl Config {
    /// Searches `start` and each parent for a config file. `files` says of each directory of
    /// [`crate::paths::ancestors`] in turn what reading its config file gave, `None` standing
    /// for a directory without one, and may stop at the first that has one.
    ///
    /// The three-way return is the point: `None` means this is an ordinary Rust project and
    /// cargo should proceed untouched, while `Some(Err(..))` means someone asked for remote
    /// builds and got the settings wrong, which must be reported instead of silently ignored.
    pub fn discover(start: &str, files: &[Option<Result<String, String>>]) -> (r: Option<
        Result<Config, ConfigError>,
    >)
        ensures
            match r {
                None => discovered(start@, findings(files@)) is None,
                Some(found) => discovered(start@, findings(files@)) == Some(config_outcome(found)),
            },
    {
        let dirs = ancestors(start);
        match find_nearest(dirs.len(), files) {
            None => None,
            Some(i) => match &files[i] {
                None => None,
                Some(read) => {
                    let root = dirs[i].as_str();
                    assert(root@ == ancestors_of(start@)[i as int]) by {
                        assert(texts(dirs@)[i as int] == dirs@[i as int]@);
                    }
                    Some(Config::load(root, read))
                },
            },
        }
    }

    /// Validates the config file sitting in `root`, `read` being what reading it gave.
    pub fn load(root: &str, read: &Result<String, String>) -> (r: Result<Config, ConfigError>)
        ensures
            config_outcome(r) == config_read(root@, outcome(*read)),
    {
        let path = join(root, CONFIG_FILE);
        let text = match read {
            Ok(text) => text,
            Err(why) => {
                return Err(ConfigError::Unreadable(path, why.clone()));
            },
        };
        let table = match parse_table(text.as_str()) {
            Ok(table) => table,
            Err(why) => {
                return Err(ConfigError::Syntax(path, why));
            },
        };
        let host = entry(&table, "host");
        let remote_dir = entry(&table, "remote_dir");
        let pull = entry(&table, "pull");
        let symbols = entry(&table, "pull-symbols");
        Config::from_entries(root, &host, &remote_dir, &pull, &symbols)
    }

    /// Validates the entries of a config file.
    pub fn from_entries(
        root: &str,
        host: &Option<Entry>,
        remote_dir: &Option<Entry>,
        pull: &Option<Entry>,
        symbols: &Option<Entry>,
    ) -> (r: Result<Config, ConfigError>)
        ensures
            config_outcome(r) == config_from(
                root@,
                entry_view(*host),
                entry_view(*remote_dir),
                entry_view(*pull),
                entry_view(*symbols),
            ),
    {
        let host = match host {
            Some(e) => match &e.value {
                Held::Text(name) => match Host::new(name.as_str()) {
                    Ok(host) => host,
                    Err(e) => {
                        return Err(e);
                    },
                },
                _ => {
                    return Err(ConfigError::MissingHost);
                },
            },
            None => {
                return Err(ConfigError::MissingHost);
            },
        };
        let named = match remote_dir {
            Some(e) => match &e.value {
                Held::Text(dir) => RemoteDir::new(dir.as_str()),
                _ => default_remote_dir(root),
            },
            None => default_remote_dir(root),
        };
        let remote_dir = match named {
            Ok(dir) => dir,
            Err(e) => {
                return Err(e);
            },
        };
        let pull = match flag_entry(pull) {
            Ok(on) => on,
            Err(shown) => {
                return Err(ConfigError::BadPull(shown));
            },
        };
        let symbols = match flag_entry(symbols) {
            Ok(on) => on,
            Err(shown) => {
                return Err(ConfigError::BadSymbols(shown));
            },
        };
        Ok(
            Config {
                root: ProjectRoot(copy_text(root)),
                host,
                remote_dir,
                pull: pull || symbols,
                symbols,
            },
        )
    }
}

/// Every way `.mamba.toml` can be wrong.
#[derive(Debug)]
pub enum ConfigError {
    /// The config file at this path could not be read, and why.
    Unreadable(String, String),
    /// The config file at this path is not TOML, and why.
    Syntax(String, String),
    MissingHost,
    BadHost(String),
    BadRemoteDir(String),
    BadPull(String),
    BadSymbols(String),
}

/// A [`ConfigError`] as contracts see it.
#[verifier::ext_equal]
pub enum ConfigErrorView {
    Unreadable(Seq<char>, Seq<char>),
    Syntax(Seq<char>, Seq<char>),
    MissingHost,
    BadHost(Seq<char>),
    BadRemoteDir(Seq<char>),
    BadPull(Seq<char>),
    BadSymbols(Seq<char>),
}

impl View for ConfigError {
    type V = ConfigErrorView;

    open spec fn view(&self) -> ConfigErrorView {
        match self {
            ConfigError::Unreadable(path, why) => ConfigErrorView::Unreadable(path@, why@),
            ConfigError::Syntax(path, why) => ConfigErrorView::Syntax(path@, why@),
            ConfigError::MissingHost => ConfigErrorView::MissingHost,
            ConfigError::BadHost(host) => ConfigErrorView::BadHost(host@),
            ConfigError::BadRemoteDir(dir) => ConfigErrorView::BadRemoteDir(dir@),
            ConfigError::BadPull(shown) => ConfigErrorView::BadPull(shown@),
            ConfigError::BadSymbols(shown) => ConfigErrorView::BadSymbols(shown@),
        }
    }
}

/// What is told of an error.
pub open spec fn config_error_text(e: ConfigErrorView) -> Seq<char> {
    match e {
        ConfigErrorView::Unreadable(path, why) => "cannot read "@ + path + ": "@ + why,
        ConfigErrorView::Syntax(path, why) => path + " is not valid TOML: "@ + why,
        ConfigErrorView::MissingHost =>
            ".mamba.toml needs a `host` key, for example: host = \"gpu-box\""@,
        ConfigErrorView::BadHost(host) => "host "@ + debug_form(host)
            + " is not a plain ssh destination (letters, digits, . - _ @ only)"@,
        ConfigErrorView::BadRemoteDir(dir) => "remote_dir "@ + debug_form(dir)
            + " is empty or contains a quote"@,
        ConfigErrorView::BadPull(shown) => "pull must be true or false, got "@ + shown,
        ConfigErrorView::BadSymbols(shown) => "pull-symbols must be true or false, got "@ + shown,
    }
}

impl ConfigError {
    /// What to tell whoever made the mistake.
    pub fn message(&self) -> (r: String)
        ensures
            r@ == config_error_text(self@),
    {
        match self {
            ConfigError::Unreadable(path, why) => glue4(
                "cannot read ",
                path.as_str(),
                ": ",
                why.as_str(),
            ),
            ConfigError::Syntax(path, why) => glue3(
                path.as_str(),
                " is not valid TOML: ",
                why.as_str(),
            ),
            ConfigError::MissingHost => copy_text(
                ".mamba.toml needs a `host` key, for example: host = \"gpu-box\"",
            ),
            ConfigError::BadHost(host) => glue3(
                "host ",
                debug_text(host.as_str()).as_str(),
                " is not a plain ssh destination (letters, digits, . - _ @ only)",
            ),
            ConfigError::BadRemoteDir(dir) => glue3(
                "remote_dir ",
                debug_text(dir.as_str()).as_str(),
                " is empty or contains a quote",
            ),
            ConfigError::BadPull(shown) => glue2(
                "pull must be true or false, got ",
                shown.as_str(),
            ),
            ConfigError::BadSymbols(shown) => glue2(
                "pull-symbols must be true or false, got ",
                shown.as_str(),
            ),
        }
    }
}

/// Every config that is read is valid: its host is plain, its directory can stand between single
/// quotes, and symbols bring the binary with them.
pub proof fn law_config_is_valid(root: Seq<char>, read: Result<Seq<char>, Seq<char>>)
    ensures
        config_read(root, read) matches Ok(config) ==> config.valid() && config.root == root,
{
}

/// A text that holds no single quote is quoted by putting one at either end.
pub proof fn law_quotable_text_is_quoted_plainly(text: Seq<char>)
    requires
        quotable(text),
    ensures
        crate::shell::quoted(text) == seq!['\''] + text + seq!['\''],
{
    lemma_nothing_to_escape(text);
}

proof fn lemma_nothing_to_escape(text: Seq<char>)
    requires
        forall|i: int| 0 <= i < text.len() ==> #[trigger] text[i] != '\'',
    ensures
        crate::shell::escaped(text) == text,
    decreases text.len(),
{
    if text.len() > 0 {
        let front = text.drop_last();
        assert forall|i: int| 0 <= i < front.len() implies #[trigger] front[i] != '\'' by {
            assert(text[i] != '\'');
        }
        lemma_nothing_to_escape(front);
        assert(text[text.len() - 1] != '\'');
        assert(front + seq![text.last()] =~= text);
    }
}

/// What a config says, on what its file has. The host has to be a plain text; the directory is the
/// one that is named, or `.mamba` and the name of the project's directory where none is; both
/// switches have to be booleans where they are there. Symbols are on exactly where the entry under
/// `pull-symbols` is true, and the binary exactly where that or the one under `pull` is.
pub proof fn law_what_a_config_says(
    root: Seq<char>,
    host: Option<EntryView>,
    remote_dir: Option<EntryView>,
    pull: Option<EntryView>,
    symbols: Option<EntryView>,
)
    ensures
        config_from(root, host, remote_dir, pull, symbols) matches Ok(config) ==> {
            &&& config.root == root
            &&& host matches Some(e) && e.value == HeldView::Text(config.host) && plain_host(
                config.host,
            )
            &&& config.remote_dir == (if remote_dir matches Some(e) && e.value is Text {
                remote_dir->Some_0.value->Text_0
            } else {
                ".mamba/"@ + root_name(root)
            })
            &&& config.remote_dir.len() > 0 && !config.remote_dir.contains('\'')
            &&& config.symbols <==> (symbols matches Some(e) && e.value == HeldView::Flag(true))
            &&& config.pull <==> (pull matches Some(e) && e.value == HeldView::Flag(true)) || (
            symbols matches Some(e) && e.value == HeldView::Flag(true))
            &&& pull matches Some(e) ==> e.value is Flag
            &&& symbols matches Some(e) ==> e.value is Flag
        },
{
    if let Ok(config) = config_from(root, host, remote_dir, pull, symbols) {
        assert(!config.remote_dir.contains('\'')) by {
            if config.remote_dir.contains('\'') {
                let i = choose|i: int|
                    0 <= i < config.remote_dir.len() && config.remote_dir[i] == '\'';
                assert(config.remote_dir[i] != '\'');
            }
        }
    }
}

/// When a config is refused, and for what: the host is looked at first, then the directory, then
/// `pull`, then `pull-symbols`, and the first that is wrong is named as it was written. One with
/// nothing wrong is accepted.
pub proof fn law_what_a_config_is_refused_for(
    root: Seq<char>,
    host: Option<EntryView>,
    remote_dir: Option<EntryView>,
    pull: Option<EntryView>,
    symbols: Option<EntryView>,
)
    ensures
        ({
            let made = config_from(root, host, remote_dir, pull, symbols);
            let dir = if remote_dir matches Some(e) && e.value is Text {
                remote_dir->Some_0.value->Text_0
            } else {
                ".mamba/"@ + root_name(root)
            };
            let no_host = !(host matches Some(e) && e.value is Text);
            let bad_host = !no_host && !plain_host(host->Some_0.value->Text_0);
            let bad_dir = dir.len() == 0 || dir.contains('\'');
            let bad_pull = pull matches Some(e) && !(e.value is Flag);
            let bad_symbols = symbols matches Some(e) && !(e.value is Flag);
            if no_host {
                made == Err::<ConfigView, ConfigErrorView>(ConfigErrorView::MissingHost)
            } else if bad_host {
                made == Err::<ConfigView, ConfigErrorView>(
                    ConfigErrorView::BadHost(host->Some_0.value->Text_0),
                )
            } else if bad_dir {
                made == Err::<ConfigView, ConfigErrorView>(ConfigErrorView::BadRemoteDir(dir))
            } else if bad_pull {
                made == Err::<ConfigView, ConfigErrorView>(
                    ConfigErrorView::BadPull(pull->Some_0.rendered),
                )
            } else if bad_symbols {
                made == Err::<ConfigView, ConfigErrorView>(
                    ConfigErrorView::BadSymbols(symbols->Some_0.rendered),
                )
            } else {
                made is Ok
            }
        }),
{
    let dir = if remote_dir matches Some(e) && e.value is Text {
        remote_dir->Some_0.value->Text_0
    } else {
        ".mamba/"@ + root_name(root)
    };
    if dir.contains('\'') {
        let i = choose|i: int| 0 <= i < dir.len() && dir[i] == '\'';
        assert(!quotable(dir)) by {
            assert(dir[i] == '\'');
        }
    } else {
        assert forall|i: int| 0 <= i < dir.len() implies #[trigger] dir[i] != '\'' by {
            assert(dir.contains(dir[i]));
        }
    }
}

/// A config file that cannot be read or is not TOML is complained about under its own path; one
/// that is, counts by what it has under `host`, `remote_dir`, `pull` and `pull-symbols` and
/// nothing else. The nearest one on the way up is the one that counts, and where there is none
/// there is no config.
pub proof fn law_where_a_config_is_read(
    root: Seq<char>,
    text: Seq<char>,
    why: Seq<char>,
    files: Seq<Option<Result<Seq<char>, Seq<char>>>>,
    at: int,
)
    ensures
        config_read(root, Err(why)) == Err::<ConfigView, ConfigErrorView>(
            ConfigErrorView::Unreadable(joined(root, ".mamba.toml"@), why),
        ),
        parsed_document(text) matches Err(reason) ==> config_read(root, Ok(text)) == Err::<
            ConfigView,
            ConfigErrorView,
        >(ConfigErrorView::Syntax(joined(root, ".mamba.toml"@), reason)),
        parsed_document(text) matches Ok(nodes) ==> config_read(root, Ok(text)) == config_from(
            root,
            entry_at(nodes, "host"@),
            entry_at(nodes, "remote_dir"@),
            entry_at(nodes, "pull"@),
            entry_at(nodes, "pull-symbols"@),
        ),
        0 <= at < files.len() && at < ancestors_of(root).len() && files[at] is Some && (forall|
            j: int,
        |
            0 <= j < at ==> #[trigger] files[j] is None) ==> discovered(root, files) == Some(
            config_read(ancestors_of(root)[at], files[at]->Some_0),
        ),
        (forall|j: int|
            0 <= j < files.len() && j < ancestors_of(root).len() ==> #[trigger] files[j] is None)
            ==> discovered(root, files) is None,
{
    crate::input::law_the_nearest_file(ancestors_of(root), files);
}

/// What each mistake is answered with.
pub proof fn law_config_mistakes_are_named(a: Seq<char>, b: Seq<char>)
    ensures
        config_error_text(ConfigErrorView::Unreadable(a, b)) == "cannot read "@ + a + ": "@ + b,
        config_error_text(ConfigErrorView::Syntax(a, b)) == a + " is not valid TOML: "@ + b,
        config_error_text(ConfigErrorView::MissingHost)
            == ".mamba.toml needs a `host` key, for example: host = \"gpu-box\""@,
        config_error_text(ConfigErrorView::BadHost(a)) == "host "@ + debug_form(a)
            + " is not a plain ssh destination (letters, digits, . - _ @ only)"@,
        config_error_text(ConfigErrorView::BadRemoteDir(a)) == "remote_dir "@ + debug_form(a)
            + " is empty or contains a quote"@,
        config_error_text(ConfigErrorView::BadPull(a)) == "pull must be true or false, got "@ + a,
        config_error_text(ConfigErrorView::BadSymbols(a))
            == "pull-symbols must be true or false, got "@ + a,
{
}

/// A config is seen as what it holds.
pub proof fn law_configs_are_seen_as_they_are(r: Result<Config, ConfigError>)
    ensures
        r matches Ok(config) ==> (config_outcome(r) matches Ok(seen) && seen.root == config.root@
            && seen.host == config.host@ && seen.remote_dir == config.remote_dir@ && seen.pull
            == config.pull && seen.symbols == config.symbols),
        r matches Err(e) ==> config_outcome(r) == Err::<ConfigView, ConfigErrorView>(e@),
{
}

} // verus!
