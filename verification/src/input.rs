//! Everything a build's parameters come from, in one place.
//!
//! Two sources say what a build needs, the `cargo` command line and `.mamba.toml`, and most
//! switches can be written in either. [`all_settings`] is the only place that knows how each
//! one is spelled: the flag, the config key, and the usage line all follow from it.
//!
//! [`plan`] is the single entry point. It turns a command line, and what was found on disk
//! above the directory it was typed in, into the one decision there is to make: run this
//! locally, run it elsewhere, or refuse because the settings are wrong.
//!
//! Values that leave this module carry types rather than strings, [`Host`], [`ProjectId`],
//! [`Settings`], so that the checks each one needs happen once, here, instead of at every
//! place they are used.

use crate::document::{
    entry, entry_at, entry_view, parse_table, parsed_document, Entry, EntryView, Held, HeldView, Node,
    Shape,
};
use crate::paths::{ancestors, ancestors_of, file_name, join, joined, name_or};
use crate::shell::is_ordinary;
use crate::text::{
    characters, copy_text, copy_texts, debug_form, debug_text, glue3, glue4, has_text, maybe,
    outcome, same_text, texts,
};
use vstd::prelude::*;

verus! {

/// The file whose presence marks a directory as a project to build remotely.
pub const CONFIG_FILE: &'static str = ".mamba.toml";

/// Where things are kept that belong to no project: the daemon's socket and the ssh
/// multiplexing sockets. `/tmp` stands in for a missing home directory, which is worse but
/// still works.
pub open spec fn home_dir(home: Option<Seq<char>>) -> Seq<char> {
    joined(
        match home {
            Some(dir) => dir,
            None => "/tmp"@,
        },
        ".mamba"@,
    )
}

/// Where things are kept that belong to no project, `home` being the user's home directory.
pub fn mamba_home(home: Option<&str>) -> (r: String)
    ensures
        r@ == home_dir(maybe(home)),
{
    match home {
        Some(dir) => join(dir, ".mamba"),
        None => join("/tmp", ".mamba"),
    }
}

/// An ASCII letter or digit.
pub open spec fn is_alphanumeric(c: char) -> bool {
    'a' <= c <= 'z' || 'A' <= c <= 'Z' || '0' <= c <= '9'
}

/// The characters a project's name may hold.
pub open spec fn is_name_char(c: char) -> bool {
    is_alphanumeric(c) || c == '.' || c == '-' || c == '_'
}

/// The characters an ssh destination may hold.
pub open spec fn is_host_char(c: char) -> bool {
    is_name_char(c) || c == '@'
}

pub(crate) fn name_char(c: char) -> (r: bool)
    ensures
        r == is_name_char(c),
{
    ('a' <= c && c <= 'z') || ('A' <= c && c <= 'Z') || ('0' <= c && c <= '9') || c == '.' || c
        == '-' || c == '_'
}

/// Text that is a plain ssh destination: some characters, and none that a shell could
/// reinterpret.
pub open spec fn plain_host(text: Seq<char>) -> bool {
    text.len() > 0 && forall|i: int| 0 <= i < text.len() ==> is_host_char(#[trigger] text[i])
}

/// Whether a text is a plain ssh destination.
pub(crate) fn is_plain_host(text: &str) -> (r: bool)
    ensures
        r == plain_host(text@),
{
    let chars = characters(text);
    let mut i: usize = 0;
    while i < chars.len()
        invariant
            i <= chars@.len(),
            chars@ == text@,
            forall|j: int| 0 <= j < i ==> is_host_char(#[trigger] chars@[j]),
        decreases chars@.len() - i,
    {
        let c = chars[i];
        if !(name_char(c) || c == '@') {
            assert(!is_host_char(text@[i as int]));
            return false;
        }
        i += 1;
    }
    chars.len() > 0
}

/// An ssh destination: a bare hostname, a `user@host` pair, or an alias from `~/.ssh/config`.
/// The value is pasted onto an ssh and rsync command line, so the constructor refuses anything
/// a shell could reinterpret; that check happens once here rather than at every use.
#[derive(Debug, PartialEq, Eq)]
pub struct Host(String);

impl View for Host {
    type V = Seq<char>;

    closed spec fn view(&self) -> Seq<char> {
        self.0@
    }
}

impl Clone for Host {
    fn clone(&self) -> (r: Self)
        ensures
            r@ == self@,
    {
        proof {
            use_type_invariant(self);
        }
        Host(self.0.clone())
    }
}

impl Host {
    #[verifier::type_invariant]
    spec fn is_plain(self) -> bool {
        plain_host(self.0@)
    }

    pub fn new(raw: &str) -> (r: Result<Host, InputError>)
        ensures
            match r {
                Ok(host) => plain_host(raw@) && host@ == raw@,
                Err(e) => !plain_host(raw@) && e@ == ErrorView::BadHost(raw@),
            },
    {
        if !is_plain_host(raw) {
            return Err(InputError::BadHost(copy_text(raw)));
        }
        Ok(Host(copy_text(raw)))
    }

    pub fn as_str(&self) -> (r: &str)
        ensures
            r@ == self@,
            plain_host(r@),
    {
        proof {
            use_type_invariant(self);
        }
        self.0.as_str()
    }
}

/// Text that can name a directory and nothing else: some characters, none of them special to a
/// path or a shell, and not one of the two names every directory has already.
pub open spec fn plain_name(text: Seq<char>) -> bool {
    &&& text.len() > 0
    &&& text != seq!['.']
    &&& text != seq!['.', '.']
    &&& forall|i: int| 0 <= i < text.len() ==> is_name_char(#[trigger] text[i])
}

/// One character of a project's name: itself where it may stand there, an underscore where
/// not.
pub open spec fn clean_char(c: char) -> char {
    if is_name_char(c) {
        c
    } else {
        '_'
    }
}

/// `raw` with every character replaced that may not stand in a project's name.
pub open spec fn cleaned(raw: Seq<char>) -> Seq<char> {
    raw.map_values(|c: char| clean_char(c))
}

/// The project name made from a text.
pub open spec fn project_name_of(raw: Seq<char>) -> Seq<char> {
    let clean = cleaned(raw);
    if clean.len() == 0 || clean == seq!['.'] || clean == seq!['.', '.'] {
        "project"@
    } else {
        clean
    }
}

/// Names a project on the far side: it identifies a tenant in a request and becomes a
/// directory on another machine. The only constructor replaces anything that is not a plain
/// name, so no caller has to remember to check.
///
/// Derived from the project directory rather than configured: it says who you are, and a
/// developer building on their own machine does not get to pick.
#[derive(Debug, PartialEq, Eq)]
pub struct ProjectId(String);

impl View for ProjectId {
    type V = Seq<char>;

    closed spec fn view(&self) -> Seq<char> {
        self.0@
    }
}

impl Clone for ProjectId {
    fn clone(&self) -> (r: Self)
        ensures
            r@ == self@,
    {
        proof {
            use_type_invariant(self);
        }
        ProjectId(self.0.clone())
    }
}

impl ProjectId {
    #[verifier::type_invariant]
    spec fn is_plain(self) -> bool {
        plain_name(self.0@)
    }

    pub fn new(raw: &str) -> (r: ProjectId)
        ensures
            r@ == project_name_of(raw@),
            plain_name(r@),
    {
        let chars = characters(raw);
        let mut clean = String::new();
        let mut i: usize = 0;
        while i < chars.len()
            invariant
                i <= chars@.len(),
                chars@ == raw@,
                clean@ == cleaned(raw@).take(i as int),
            decreases chars@.len() - i,
        {
            let c = chars[i];
            if name_char(c) {
                clean.push(c);
            } else {
                clean.push('_');
            }
            i += 1;
        }
        proof {
            law_project_name_is_plain(raw@);
            reveal_strlit("");
            reveal_strlit(".");
            reveal_strlit("..");
            assert(""@ =~= Seq::<char>::empty());
            assert("."@ =~= seq!['.']);
            assert(".."@ =~= seq!['.', '.']);
            assert(clean@ =~= cleaned(raw@));
            assert(clean@.len() == 0 ==> clean@ =~= Seq::<char>::empty());
        }
        if same_text(clean.as_str(), "") || same_text(clean.as_str(), ".") || same_text(
            clean.as_str(),
            "..",
        ) {
            ProjectId(copy_text("project"))
        } else {
            ProjectId(clean)
        }
    }

    /// A project is named after the directory holding its config file.
    pub fn from_root(root: &ProjectRoot) -> (r: ProjectId)
        ensures
            r@ == project_name_of(root_name(root@)),
            plain_name(r@),
    {
        let name = name_or(root.as_path(), "project");
        ProjectId::new(name.as_str())
    }

    pub fn as_str(&self) -> (r: &str)
        ensures
            r@ == self@,
            plain_name(r@),
    {
        proof {
            use_type_invariant(self);
        }
        self.0.as_str()
    }
}

/// The name of a project's directory, or `project` where its path ends in none.
pub open spec fn root_name(root: Seq<char>) -> Seq<char> {
    match file_name(root) {
        Some(name) => name,
        None => "project"@,
    }
}

/// Whatever a project's name is made from, the name is plain: nothing in it means anything to
/// a path or a shell.
pub proof fn law_project_name_is_plain(raw: Seq<char>)
    ensures
        plain_name(project_name_of(raw)),
{
    let clean = cleaned(raw);
    reveal_strlit("project");
    let p = "project"@;
    assert(p[0] == 'p' && p[1] == 'r' && p[2] == 'o' && p[3] == 'j' && p[4] == 'e' && p[5] == 'c'
        && p[6] == 't' && p.len() == 7);
    assert(plain_name(p)) by {
        assert(p.len() != seq!['.'].len());
        assert(p.len() != seq!['.', '.'].len());
    }
    assert forall|i: int| 0 <= i < clean.len() implies is_name_char(#[trigger] clean[i]) by {
        assert(clean[i] == clean_char(raw[i]));
    }
}

/// A plain name is its own project name, so naming a project twice changes nothing.
pub proof fn law_plain_name_is_kept(name: Seq<char>)
    requires
        plain_name(name),
    ensures
        project_name_of(name) == name,
{
    assert forall|i: int| 0 <= i < name.len() implies cleaned(name)[i] == name[i] by {
        assert(is_name_char(name[i]));
    }
    assert(cleaned(name) =~= name);
}

/// A plain name, and a plain host, is one word to a shell.
pub proof fn law_plain_text_is_ordinary(text: Seq<char>)
    requires
        plain_name(text) || plain_host(text),
    ensures
        text.len() > 0,
        forall|i: int| 0 <= i < text.len() ==> is_ordinary(#[trigger] text[i]),
        crate::shell::shell_words(text) == Some(seq![text]),
{
    assert forall|i: int| 0 <= i < text.len() implies is_ordinary(#[trigger] text[i]) by {
        assert(is_host_char(text[i]));
    }
    crate::shell::law_ordinary_text_is_one_word(text);
}

/// The directory holding a project's `.mamba.toml`, and the root of everything that gets
/// uploaded.
#[derive(Debug, PartialEq, Eq)]
pub struct ProjectRoot(String);

impl View for ProjectRoot {
    type V = Seq<char>;

    closed spec fn view(&self) -> Seq<char> {
        self.0@
    }
}

impl Clone for ProjectRoot {
    fn clone(&self) -> (r: Self)
        ensures
            r@ == self@,
    {
        ProjectRoot(self.0.clone())
    }
}

impl ProjectRoot {
    pub fn new(path: String) -> (r: ProjectRoot)
        ensures
            r@ == path@,
    {
        ProjectRoot(path)
    }

    pub fn as_path(&self) -> (r: &str)
        ensures
            r@ == self@,
    {
        self.0.as_str()
    }
}

/// One of the optional behaviours.
#[derive(Debug, Clone, Copy, PartialEq, Eq, Structural)]
pub enum Switch {
    /// Fetch the built binary back.
    Pull,
    /// Fetch its debug symbols too.
    Symbols,
}

pub const PULL: Switch = Switch::Pull;

pub const SYMBOLS: Switch = Switch::Symbols;

/// The bit a switch occupies in a [`Settings`] set, which is also the bit it travels to the
/// daemon as.
pub open spec fn bit_of(switch: Switch) -> u8 {
    match switch {
        Switch::Pull => 1,
        Switch::Symbols => 2,
    }
}

/// How a switch is written on a command line.
pub open spec fn flag_of(switch: Switch) -> Seq<char> {
    match switch {
        Switch::Pull => "--mamba-pull"@,
        Switch::Symbols => "--mamba-pull-symbols"@,
    }
}

/// How a switch is written in `.mamba.toml`.
pub open spec fn key_of(switch: Switch) -> Seq<char> {
    match switch {
        Switch::Pull => "pull"@,
        Switch::Symbols => "pull-symbols"@,
    }
}

impl Switch {
    pub fn bit(self) -> (r: u8)
        ensures
            r == bit_of(self),
    {
        match self {
            Switch::Pull => 1,
            Switch::Symbols => 2,
        }
    }
}

/// How one switch is written in each place a person can write it.
pub struct Setting {
    pub switch: Switch,
    /// On a `cargo build` command line. Stripped before cargo ever sees it.
    pub flag: &'static str,
    /// In `.mamba.toml`, as a boolean.
    pub key: &'static str,
    /// How the usage text explains it.
    pub help: &'static str,
}

/// Every switch there is, and the only place any of them is named.
pub fn all_settings() -> (r: Vec<Setting>)
    ensures
        r@.len() == 2,
        r@[0].switch == Switch::Pull,
        r@[1].switch == Switch::Symbols,
        forall|i: int|
            0 <= i < r@.len() ==> (#[trigger] r@[i]).flag@ == flag_of(r@[i].switch) && r@[i].key@
                == key_of(r@[i].switch),
        r@[0].help@ == "fetch the built binary back"@,
        r@[1].help@ == "also fetch debug symbols for it"@,
{
    let mut rows: Vec<Setting> = Vec::new();
    rows.push(
        Setting {
            switch: PULL,
            flag: "--mamba-pull",
            key: "pull",
            help: "fetch the built binary back",
        },
    );
    rows.push(
        Setting {
            switch: SYMBOLS,
            flag: "--mamba-pull-symbols",
            key: "pull-symbols",
            help: "also fetch debug symbols for it",
        },
    );
    rows
}

/// The set that raw bits stand for: bits that name no switch are dropped, and symbols bring
/// the binary they describe with them.
pub open spec fn settled(bits: u8) -> u8 {
    if bits & 2 != 0 {
        3
    } else {
        bits & 1
    }
}

/// Bits that are a set of switches.
pub open spec fn is_settled(bits: u8) -> bool {
    settled(bits) == bits
}

/// Whether a switch is on in a set.
pub open spec fn is_on(bits: u8, switch: Switch) -> bool {
    bits & bit_of(switch) != 0
}

/// The raw bits of a choice of switches.
pub open spec fn bits_for(pull: bool, symbols: bool) -> u8 {
    if symbols {
        if pull {
            3
        } else {
            2
        }
    } else if pull {
        1
    } else {
        0
    }
}

/// The switches turned on for one build, whichever source asked for them.
#[derive(Debug, Clone, Copy, PartialEq, Eq)]
pub struct Settings(u8);

impl View for Settings {
    type V = u8;

    closed spec fn view(&self) -> u8 {
        self.0
    }
}

impl Default for Settings {
    /// Every switch off.
    fn default() -> (r: Settings)
        ensures
            r@ == 0,
    {
        assert(0u8 & 2u8 == 0 && 0u8 & 1u8 == 0) by (bit_vector);
        Settings::from_raw(0)
    }
}

impl Settings {
    #[verifier::type_invariant]
    spec fn is_a_set(self) -> bool {
        is_settled(self.0)
    }

    /// Builds a set from raw bits, dropping any that name no switch and applying the one rule
    /// that holds between switches: symbols are useless without the binary they describe,
    /// because the stripped binary carries a link to them and debuggers follow it. Every set
    /// is made here, so that rule holds however a switch arrived: a flag, a config key, or a
    /// request read off the socket.
    fn from_raw(bits: u8) -> (r: Settings)
        ensures
            r@ == settled(bits),
    {
        let known: u8 = PULL.bit() | SYMBOLS.bit();
        let kept: u8 = bits & known;
        assert(known == 3) by {
            assert(1u8 | 2u8 == 3u8) by (bit_vector);
        }
        assert((bits & 3u8) & 2u8 == bits & 2u8) by (bit_vector);
        assert(bits & 2u8 != 0 ==> (bits & 3u8) | 1u8 == 3u8) by (bit_vector);
        assert(bits & 2u8 == 0 ==> bits & 3u8 == bits & 1u8) by (bit_vector);
        assert(3u8 & 2u8 != 0 && (bits & 1u8) & 2u8 == 0 && (bits & 1u8) & 1u8 == bits & 1u8)
            by (bit_vector);
        Settings(
            if kept & SYMBOLS.bit() != 0 {
                kept | PULL.bit()
            } else {
                kept
            },
        )
    }

    /// The switches named on a command line.
    pub fn from_flags(args: &[String]) -> (r: Settings)
        ensures
            r@ == flag_bits(texts(args@)),
    {
        let rows = all_settings();
        let mut bits: u8 = 0;
        if has_text(args, rows[0].flag) {
            bits = bits | rows[0].switch.bit();
        }
        if has_text(args, rows[1].flag) {
            bits = bits | rows[1].switch.bit();
        }
        assert(0u8 | 1u8 == 1u8 && 0u8 | 2u8 == 2u8 && 1u8 | 2u8 == 3u8) by (bit_vector);
        Settings::from_raw(bits)
    }

    /// The switches turned on in a config file, given the entries under their keys. An entry
    /// of the wrong type is an error rather than a silent false: whoever wrote it meant
    /// something by it.
    pub fn from_entries(pull: &Option<Entry>, symbols: &Option<Entry>) -> (r: Result<
        Settings,
        InputError,
    >)
        ensures
            match r {
                Ok(settings) => entry_bits(entry_view(*pull), entry_view(*symbols)) == Ok::<
                    u8,
                    ErrorView,
                >(settings@),
                Err(e) => entry_bits(entry_view(*pull), entry_view(*symbols)) == Err::<
                    u8,
                    ErrorView,
                >(e@),
            },
    {
        let rows = all_settings();
        let mut bits: u8 = 0;
        match switch_entry(rows[0].key, pull) {
            Ok(on) => {
                if on {
                    bits = bits | rows[0].switch.bit();
                }
            },
            Err(e) => {
                return Err(e);
            },
        }
        match switch_entry(rows[1].key, symbols) {
            Ok(on) => {
                if on {
                    bits = bits | rows[1].switch.bit();
                }
            },
            Err(e) => {
                return Err(e);
            },
        }
        assert(0u8 | 1u8 == 1u8 && 0u8 | 2u8 == 2u8 && 1u8 | 2u8 == 3u8) by (bit_vector);
        Ok(Settings::from_raw(bits))
    }

    pub fn has(self, switch: Switch) -> (r: bool)
        ensures
            r == is_on(self@, switch),
    {
        self.0 & switch.bit() != 0
    }

    /// The single byte a set travels to the daemon as.
    pub fn bits(self) -> (r: u8)
        ensures
            r == self@,
            is_settled(r),
    {
        proof {
            use_type_invariant(&self);
        }
        self.0
    }

    pub fn from_bits(bits: u8) -> (r: Settings)
        ensures
            r@ == settled(bits),
    {
        Settings::from_raw(bits)
    }
}

/// Merging two sources of switches is a union: anything asked for anywhere is on. This is how
/// the command line beats the config file without either side knowing about the other.
impl core::ops::BitOr for Settings {
    type Output = Settings;

    fn bitor(self, other: Settings) -> (r: Settings)
        ensures
            r@ == settled(self@ | other@),
    {
        Settings::from_raw(self.0 | other.0)
    }
}

impl vstd::std_specs::ops::BitOrSpecImpl for Settings {
    open spec fn obeys_bitor_spec() -> bool {
        true
    }

    open spec fn bitor_req(self, other: Settings) -> bool {
        true
    }

    closed spec fn bitor_spec(self, other: Settings) -> Settings {
        Settings(settled(self.0 | other.0))
    }
}

/// The switches a command line asks for.
pub open spec fn flag_bits(args: Seq<Seq<char>>) -> u8 {
    settled(
        bits_for(args.contains(flag_of(Switch::Pull)), args.contains(flag_of(Switch::Symbols))),
    )
}

/// What the entry under a switch's key says: off where it is missing, and an error where it is
/// not a boolean.
pub open spec fn switch_at(key: Seq<char>, entry: Option<EntryView>) -> Result<bool, ErrorView> {
    match entry {
        None => Ok(false),
        Some(e) => match e.value {
            HeldView::Flag(on) => Ok(on),
            _ => Err(ErrorView::BadSetting(key, e.rendered)),
        },
    }
}

/// The switches that the entries of a config file ask for. The first entry that is wrong is
/// the one complained about.
pub open spec fn entry_bits(pull: Option<EntryView>, symbols: Option<EntryView>) -> Result<
    u8,
    ErrorView,
> {
    match switch_at(key_of(Switch::Pull), pull) {
        Err(e) => Err(e),
        Ok(p) => match switch_at(key_of(Switch::Symbols), symbols) {
            Err(e) => Err(e),
            Ok(s) => Ok(settled(bits_for(p, s))),
        },
    }
}

/// Reads the entry under a switch's key.
fn switch_entry(key: &'static str, entry: &Option<Entry>) -> (r: Result<bool, InputError>)
    ensures
        match r {
            Ok(on) => switch_at(key@, entry_view(*entry)) == Ok::<bool, ErrorView>(on),
            Err(e) => switch_at(key@, entry_view(*entry)) == Err::<bool, ErrorView>(e@),
        },
{
    match entry {
        None => Ok(false),
        Some(e) => match e.value {
            Held::Flag(on) => Ok(on),
            _ => Err(InputError::BadSetting(key, e.rendered.clone())),
        },
    }
}

/// Asking for symbols asks for the binary they belong to, however the set was made.
pub proof fn law_symbols_bring_the_binary(bits: u8)
    requires
        is_settled(bits),
    ensures
        is_on(bits, Switch::Symbols) ==> is_on(bits, Switch::Pull),
{
    assert(bits & 2u8 != 0 && bits == 3u8 ==> bits & 1u8 != 0) by (bit_vector);
}

/// Settling bits gives a set, and a set survives being sent as a byte and read back.
pub proof fn law_settings_survive_the_wire(bits: u8)
    ensures
        is_settled(settled(bits)),
        is_settled(bits) ==> settled(bits) == bits,
{
    assert(3u8 & 2u8 != 0 && (bits & 1u8) & 2u8 == 0 && (bits & 1u8) & 1u8 == bits & 1u8)
        by (bit_vector);
}

/// Bits that name no switch are dropped.
pub proof fn law_unknown_bits_are_dropped(bits: u8)
    ensures
        settled(bits) == settled(bits & 3),
        settled(bits) <= 3,
{
    assert((bits & 3u8) & 2u8 == bits & 2u8 && (bits & 3u8) & 1u8 == bits & 1u8 && bits & 1u8
        <= 1u8) by (bit_vector);
}

/// A switch is on in the merger of two sets exactly where one of the two turns it on.
pub proof fn law_merging_is_a_union(a: u8, b: u8, switch: Switch)
    requires
        is_settled(a),
        is_settled(b),
    ensures
        is_on(settled(a | b), switch) == (is_on(a, switch) || is_on(b, switch)),
{
    law_symbols_bring_the_binary(a);
    law_symbols_bring_the_binary(b);
    assert((a | b) & 2u8 != 0 <==> a & 2u8 != 0 || b & 2u8 != 0) by (bit_vector);
    assert((a | b) & 1u8 != 0 <==> a & 1u8 != 0 || b & 1u8 != 0) by (bit_vector);
    assert(3u8 & 1u8 != 0 && 3u8 & 2u8 != 0) by (bit_vector);
    assert(((a | b) & 1u8) & 2u8 == 0 && ((a | b) & 1u8) & 1u8 == (a | b) & 1u8) by (bit_vector);
}

/// Every switch owns exactly one bit, and shares neither its bit, its flag, nor its key with
/// another.
pub proof fn law_switches_do_not_collide(a: Switch, b: Switch)
    requires
        a != b,
    ensures
        bit_of(a) & bit_of(b) == 0,
        bit_of(a) == 1 || bit_of(a) == 2,
        flag_of(a) != flag_of(b),
        key_of(a) != key_of(b),
{
    assert(1u8 & 2u8 == 0 && 2u8 & 1u8 == 0) by (bit_vector);
    reveal_strlit("--mamba-pull");
    reveal_strlit("--mamba-pull-symbols");
    reveal_strlit("pull");
    reveal_strlit("pull-symbols");
    assert("--mamba-pull"@.len() != "--mamba-pull-symbols"@.len());
    assert("pull"@.len() != "pull-symbols"@.len());
}

/// Every way the inputs can be wrong.
#[derive(Debug)]
pub enum InputError {
    /// The config file at this path could not be read, and why.
    Unreadable(String, String),
    /// The config file at this path is not TOML, and why.
    Syntax(String, String),
    MissingHost,
    BadHost(String),
    /// A switch's key was there but was not a boolean.
    BadSetting(&'static str, String),
}

/// An [`InputError`] as contracts see it.
#[verifier::ext_equal]
pub enum ErrorView {
    Unreadable(Seq<char>, Seq<char>),
    Syntax(Seq<char>, Seq<char>),
    MissingHost,
    BadHost(Seq<char>),
    BadSetting(Seq<char>, Seq<char>),
}

impl View for InputError {
    type V = ErrorView;

    open spec fn view(&self) -> ErrorView {
        match self {
            InputError::Unreadable(path, why) => ErrorView::Unreadable(path@, why@),
            InputError::Syntax(path, why) => ErrorView::Syntax(path@, why@),
            InputError::MissingHost => ErrorView::MissingHost,
            InputError::BadHost(host) => ErrorView::BadHost(host@),
            InputError::BadSetting(key, value) => ErrorView::BadSetting(key@, value@),
        }
    }
}

/// What is told of an error.
pub open spec fn error_text(e: ErrorView) -> Seq<char> {
    match e {
        ErrorView::Unreadable(path, why) => "cannot read "@ + path + ": "@ + why,
        ErrorView::Syntax(path, why) => path + " is not valid TOML: "@ + why,
        ErrorView::MissingHost =>
            ".mamba.toml needs a `host` key, for example: host = \"gpu-box\""@,
        ErrorView::BadHost(host) => "host "@ + debug_form(host)
            + " is not a plain ssh destination (letters, digits, . - _ @ only)"@,
        ErrorView::BadSetting(key, value) => key + " must be true or false, got "@ + value,
    }
}

impl InputError {
    /// What to tell whoever made the mistake.
    pub fn message(&self) -> (r: String)
        ensures
            r@ == error_text(self@),
    {
        match self {
            InputError::Unreadable(path, why) => glue4(
                "cannot read ",
                path.as_str(),
                ": ",
                why.as_str(),
            ),
            InputError::Syntax(path, why) => glue3(
                path.as_str(),
                " is not valid TOML: ",
                why.as_str(),
            ),
            InputError::MissingHost => copy_text(
                ".mamba.toml needs a `host` key, for example: host = \"gpu-box\"",
            ),
            InputError::BadHost(host) => {
                let shown = debug_text(host.as_str());
                glue3(
                    "host ",
                    shown.as_str(),
                    " is not a plain ssh destination (letters, digits, . - _ @ only)",
                )
            },
            InputError::BadSetting(key, value) => glue3(
                key,
                " must be true or false, got ",
                value.as_str(),
            ),
        }
    }
}

/// Everything one remote build needs, resolved from both input sources.
#[derive(Debug, PartialEq, Eq)]
pub struct Invocation {
    pub root: ProjectRoot,
    pub host: Host,
    pub project_id: ProjectId,
    pub settings: Settings,
    /// Cargo's own flags, with the `build` subcommand and the library's own flags removed.
    pub flags: Vec<String>,
}

/// An [`Invocation`] as contracts see it.
#[verifier::ext_equal]
pub struct InvocationView {
    pub root: Seq<char>,
    pub host: Seq<char>,
    pub project_id: Seq<char>,
    pub settings: u8,
    pub flags: Seq<Seq<char>>,
}

impl View for Invocation {
    type V = InvocationView;

    open spec fn view(&self) -> InvocationView {
        InvocationView {
            root: self.root@,
            host: self.host@,
            project_id: self.project_id@,
            settings: self.settings@,
            flags: texts(self.flags@),
        }
    }
}

impl Clone for Invocation {
    fn clone(&self) -> (r: Self)
        ensures
            r@ == self@,
    {
        Invocation {
            root: self.root.clone(),
            host: self.host.clone(),
            project_id: self.project_id.clone(),
            settings: self.settings,
            flags: copy_texts(self.flags.as_slice()),
        }
    }
}

impl InvocationView {
    /// What every invocation satisfies: its host and its name are plain, and its switches are
    /// a set.
    pub open spec fn valid(self) -> bool {
        &&& plain_host(self.host)
        &&& plain_name(self.project_id)
        &&& is_settled(self.settings)
    }

    /// The command line that runs the same build locally.
    pub open spec fn local_line(self) -> Seq<Seq<char>> {
        seq!["build"@] + self.flags
    }
}

impl Invocation {
    /// The command line that runs this same build locally instead, used when the remote
    /// cannot be reached.
    pub fn local_argv(&self) -> (r: Vec<String>)
        ensures
            texts(r@) == self@.local_line(),
    {
        let mut line: Vec<String> = Vec::new();
        line.push(copy_text("build"));
        let mut rest = copy_texts(self.flags.as_slice());
        let ghost first = texts(line@);
        let ghost flags = texts(rest@);
        line.append(&mut rest);
        assert(texts(line@) =~= first + flags);
        assert(first =~= seq!["build"@]);
        line
    }

    /// Folds the entries of a config file together with what the command line already asked
    /// for, `host`, `pull` and `symbols` being what the file has under the keys of those
    /// settings.
    pub fn from_entries(
        root: ProjectRoot,
        host: &Option<Entry>,
        pull: &Option<Entry>,
        symbols: &Option<Entry>,
        from_flags: Settings,
        flags: Vec<String>,
    ) -> (r: Result<Invocation, InputError>)
        ensures
            resolution(r) == resolved(
                root@,
                entry_view(*host),
                entry_view(*pull),
                entry_view(*symbols),
                from_flags@,
                texts(flags@),
            ),
    {
        let host = match host {
            Some(e) => match &e.value {
                Held::Text(name) => match Host::new(name.as_str()) {
                    Ok(host) => host,
                    Err(e) => {
                        return Err(e);
                    },
                },
                _ => {
                    return Err(InputError::MissingHost);
                },
            },
            None => {
                return Err(InputError::MissingHost);
            },
        };
        let project_id = ProjectId::from_root(&root);
        let from_file = match Settings::from_entries(pull, symbols) {
            Ok(settings) => settings,
            Err(e) => {
                return Err(e);
            },
        };
        Ok(Invocation { project_id, host, settings: from_flags | from_file, root, flags })
    }
}

/// What an attempt to resolve the inputs gave.
pub open spec fn resolution(r: Result<Invocation, InputError>) -> Result<
    InvocationView,
    ErrorView,
> {
    match r {
        Ok(invocation) => Ok(invocation@),
        Err(e) => Err(e@),
    }
}

/// The host that the entry under `host` names.
pub open spec fn host_at(entry: Option<EntryView>) -> Result<Seq<char>, ErrorView> {
    match entry {
        Some(e) => match e.value {
            HeldView::Text(name) => if plain_host(name) {
                Ok(name)
            } else {
                Err(ErrorView::BadHost(name))
            },
            _ => Err(ErrorView::MissingHost),
        },
        None => Err(ErrorView::MissingHost),
    }
}

/// The invocation that a config file's entries and a command line amount to. A host that is
/// wrong is complained about before a switch that is.
pub open spec fn resolved(
    root: Seq<char>,
    host: Option<EntryView>,
    pull: Option<EntryView>,
    symbols: Option<EntryView>,
    from_flags: u8,
    flags: Seq<Seq<char>>,
) -> Result<InvocationView, ErrorView> {
    match host_at(host) {
        Err(e) => Err(e),
        Ok(name) => match entry_bits(pull, symbols) {
            Err(e) => Err(e),
            Ok(bits) => Ok(
                InvocationView {
                    root,
                    host: name,
                    project_id: project_name_of(root_name(root)),
                    settings: settled(from_flags | bits),
                    flags,
                },
            ),
        },
    }
}

/// The invocation that a config file's text and a command line amount to, `read` being what
/// reading the file in `root` gave.
pub open spec fn loaded(
    root: Seq<char>,
    read: Result<Seq<char>, Seq<char>>,
    from_flags: u8,
    flags: Seq<Seq<char>>,
) -> Result<InvocationView, ErrorView> {
    let path = joined(root, CONFIG_FILE@);
    match read {
        Err(why) => Err(ErrorView::Unreadable(path, why)),
        Ok(text) => match parsed_document(text) {
            Err(why) => Err(ErrorView::Syntax(path, why)),
            Ok(nodes) => resolved(
                root,
                entry_at(nodes, "host"@),
                entry_at(nodes, key_of(Switch::Pull)),
                entry_at(nodes, key_of(Switch::Symbols)),
                from_flags,
                flags,
            ),
        },
    }
}

/// Takes what reading the config file sitting in `root` gave and folds it together with what
/// the command line already asked for.
pub fn load(
    root: ProjectRoot,
    read: &Result<String, String>,
    from_flags: Settings,
    flags: Vec<String>,
) -> (r: Result<Invocation, InputError>)
    ensures
        resolution(r) == loaded(root@, outcome(*read), from_flags@, texts(flags@)),
{
    let path = join(root.as_path(), CONFIG_FILE);
    let text = match read {
        Ok(text) => text,
        Err(why) => {
            return Err(InputError::Unreadable(path, why.clone()));
        },
    };
    let table = match parse_table(text.as_str()) {
        Ok(table) => table,
        Err(why) => {
            return Err(InputError::Syntax(path, why));
        },
    };
    let rows = all_settings();
    let host = entry(&table, "host");
    let pull = entry(&table, rows[0].key);
    let symbols = entry(&table, rows[1].key);
    Invocation::from_entries(root, &host, &pull, &symbols, from_flags, flags)
}

/// What one `cargo` command line means.
#[derive(Debug)]
pub enum Plan {
    /// Not this library's business. Hand these arguments to the real cargo.
    Local(Vec<String>),
    /// Build this somewhere else.
    Remote(Invocation),
    /// Someone asked for remote builds and got the settings wrong. Saying so beats quietly
    /// building locally, which looks like it worked.
    Broken(InputError),
}

/// A [`Plan`] as contracts see it.
#[verifier::ext_equal]
pub enum PlanView {
    Local(Seq<Seq<char>>),
    Remote(InvocationView),
    Broken(ErrorView),
}

impl View for Plan {
    type V = PlanView;

    open spec fn view(&self) -> PlanView {
        match self {
            Plan::Local(args) => PlanView::Local(texts(args@)),
            Plan::Remote(invocation) => PlanView::Remote(invocation@),
            Plan::Broken(e) => PlanView::Broken(e@),
        }
    }
}

/// Whether an argument is one of the library's own flags.
pub open spec fn is_own_flag(arg: Seq<char>) -> bool {
    arg == flag_of(Switch::Pull) || arg == flag_of(Switch::Symbols)
}

/// A command line without the library's own flags.
pub open spec fn stripped(args: Seq<Seq<char>>) -> Seq<Seq<char>> {
    args.filter(|arg: Seq<char>| !is_own_flag(arg))
}

/// Takes the library's own flags off a command line.
pub fn strip_flags(args: &[String]) -> (r: Vec<String>)
    ensures
        texts(r@) == stripped(texts(args@)),
{
    let rows = all_settings();
    let mut kept: Vec<String> = Vec::new();
    let mut i: usize = 0;
    let ghost all = texts(args@);
    let ghost keep = |arg: Seq<char>| !is_own_flag(arg);
    proof {
        reveal(Seq::filter);
        assert(all.take(0) =~= Seq::<Seq<char>>::empty());
        assert(texts(kept@) =~= Seq::<Seq<char>>::empty());
    }
    while i < args.len()
        invariant
            i <= args@.len(),
            all == texts(args@),
            keep == (|arg: Seq<char>| !is_own_flag(arg)),
            texts(kept@) == all.take(i as int).filter(keep),
            rows@.len() == 2,
            rows@[0].flag@ == flag_of(Switch::Pull),
            rows@[1].flag@ == flag_of(Switch::Symbols),
        decreases args@.len() - i,
    {
        let arg = args[i].as_str();
        let ghost before = texts(kept@);
        proof {
            reveal(Seq::filter);
            let now = all.take(i + 1);
            assert(now.drop_last() =~= all.take(i as int));
            assert(now.last() == arg@);
        }
        if !same_text(arg, rows[0].flag) && !same_text(arg, rows[1].flag) {
            kept.push(copy_text(arg));
            assert(texts(kept@) =~= before.push(arg@));
        }
        i += 1;
    }
    assert(all.take(i as int) =~= all);
    kept
}

/// Whether the first argument is `build`. Only that goes remote.
pub open spec fn is_build(cargo: Seq<Seq<char>>) -> bool {
    cargo.len() > 0 && cargo[0] == "build"@
}

/// Whether a command line is one for which a project has to be looked for at all.
pub fn needs_project(args: &[String]) -> (r: bool)
    ensures
        r == is_build(stripped(texts(args@))),
{
    let cargo = strip_flags(args);
    cargo.len() > 0 && same_text(cargo[0].as_str(), "build")
}

/// What was found where config files were looked for, as contracts see it.
pub open spec fn findings(files: Seq<Option<Result<String, String>>>) -> Seq<
    Option<Result<Seq<char>, Seq<char>>>,
> {
    Seq::new(
        files.len(),
        |i: int|
            match files[i] {
                Some(read) => Some(outcome(read)),
                None => None,
            },
    )
}

/// The first place, from `from` up to `to`, where there is a file.
pub open spec fn first_file<T>(files: Seq<Option<T>>, from: int, to: int) -> Option<int>
    decreases to - from,
{
    if from >= to {
        None
    } else if files[from] is Some {
        Some(from)
    } else {
        first_file(files, from + 1, to)
    }
}

/// The directory that settles where a project is: the nearest one, looking upwards, that
/// holds a config file.
pub open spec fn nearest<T>(dirs: Seq<Seq<char>>, files: Seq<Option<T>>) -> Option<int> {
    first_file(
        files,
        0,
        if dirs.len() < files.len() {
            dirs.len() as int
        } else {
            files.len() as int
        },
    )
}

/// What is decided of a command line.
pub open spec fn planned(
    cwd: Seq<char>,
    args: Seq<Seq<char>>,
    files: Seq<Option<Result<Seq<char>, Seq<char>>>>,
) -> PlanView {
    let cargo = stripped(args);
    if !is_build(cargo) {
        PlanView::Local(cargo)
    } else {
        match nearest(ancestors_of(cwd), files) {
            None => PlanView::Local(cargo),
            Some(i) => match loaded(
                ancestors_of(cwd)[i],
                files[i]->Some_0,
                flag_bits(args),
                cargo.skip(1),
            ) {
                Ok(invocation) => PlanView::Remote(invocation),
                Err(e) => PlanView::Broken(e),
            },
        }
    }
}

/// The first place where there is a file, `dirs` places at most being looked at.
pub(crate) fn find_nearest(dirs: usize, files: &[Option<Result<String, String>>]) -> (r: Option<
    usize,
>)
    ensures
        match r {
            Some(i) => i < dirs && i < files@.len() && first_file(
                findings(files@),
                0,
                if dirs < files@.len() {
                    dirs as int
                } else {
                    files@.len() as int
                },
            ) == Some(i as int) && files@[i as int] is Some,
            None => first_file(
                findings(files@),
                0,
                if dirs < files@.len() {
                    dirs as int
                } else {
                    files@.len() as int
                },
            ) is None,
        },
{
    let limit: usize = if dirs < files.len() {
        dirs
    } else {
        files.len()
    };
    let mut i: usize = 0;
    while i < limit
        invariant
            i <= limit,
            limit == (if dirs < files@.len() {
                dirs as int
            } else {
                files@.len() as int
            }),
            first_file(findings(files@), 0, limit as int) == first_file(
                findings(files@),
                i as int,
                limit as int,
            ),
        decreases limit - i,
    {
        assert(findings(files@)[i as int] is Some <==> files@[i as int] is Some);
        if files[i].is_some() {
            return Some(i);
        }
        i += 1;
    }
    None
}

/// Decides what to do with one `cargo` command line, `args` being that line with the program
/// name already removed.
///
/// The library's own flags are stripped here, once, so they can never reach a real cargo,
/// local or remote. The project is then looked for by walking up from `cwd` the way cargo
/// looks for `Cargo.toml`: `files` says of each directory of [`crate::paths::ancestors`] in
/// turn what reading its config file gave, `None` standing for a directory without one, and
/// may stop at the first that has one. A directory with no config file anywhere above it is
/// an ordinary Rust project and cargo runs untouched.
pub fn plan(cwd: &str, args: &[String], files: &[Option<Result<String, String>>]) -> (r: Plan)
    ensures
        r@ == planned(cwd@, texts(args@), findings(files@)),
{
    let from_flags = Settings::from_flags(args);
    let cargo = strip_flags(args);
    if cargo.len() == 0 || !same_text(cargo[0].as_str(), "build") {
        return Plan::Local(cargo);
    }
    let dirs = ancestors(cwd);
    match find_nearest(dirs.len(), files) {
        None => Plan::Local(cargo),
        Some(i) => match &files[i] {
            None => Plan::Local(cargo),
            Some(read) => {
                let root = ProjectRoot::new(dirs[i].clone());
                let mut flags: Vec<String> = Vec::new();
                let mut j: usize = 1;
                while j < cargo.len()
                    invariant
                        1 <= j <= cargo@.len(),
                        texts(flags@) == texts(cargo@).subrange(1, j as int),
                    decreases cargo@.len() - j,
                {
                    let ghost before = texts(flags@);
                    flags.push(cargo[j].clone());
                    assert(texts(flags@) =~= before.push(cargo@[j as int]@));
                    j += 1;
                }
                assert(texts(flags@) =~= texts(cargo@).skip(1));
                assert(root@ == ancestors_of(cwd@)[i as int]) by {
                    assert(texts(dirs@)[i as int] == dirs@[i as int]@);
                }
                match load(root, read, from_flags, flags) {
                    Ok(invocation) => Plan::Remote(invocation),
                    Err(e) => Plan::Broken(e),
                }
            },
        },
    }
}

/// A stripped command line holds none of the library's own flags, a line that holds none is
/// left alone, and stripping goes argument by argument, so what is kept keeps its order.
pub proof fn law_stripping(args: Seq<Seq<char>>, more: Seq<Seq<char>>)
    ensures
        forall|i: int| 0 <= i < stripped(args).len() ==> !is_own_flag(#[trigger] stripped(args)[i]),
        (forall|i: int| 0 <= i < args.len() ==> !is_own_flag(#[trigger] args[i])) ==> stripped(args)
            == args,
        stripped(args + more) == stripped(args) + stripped(more),
{
    let keep = |arg: Seq<char>| !is_own_flag(arg);
    Seq::filter_distributes_over_add(args, more, keep);
    assert forall|i: int| 0 <= i < stripped(args).len() implies !is_own_flag(
        #[trigger] stripped(args)[i],
    ) by {
        args.lemma_filter_pred(keep, i);
    }
    if forall|i: int| 0 <= i < args.len() ==> !is_own_flag(#[trigger] args[i]) {
        lemma_nothing_to_strip(args);
    }
}

proof fn lemma_nothing_to_strip(args: Seq<Seq<char>>)
    requires
        forall|i: int| 0 <= i < args.len() ==> !is_own_flag(#[trigger] args[i]),
    ensures
        stripped(args) == args,
    decreases args.len(),
{
    reveal(Seq::filter);
    if args.len() > 0 {
        lemma_nothing_to_strip(args.drop_last());
        assert(args =~= args.drop_last().push(args.last()));
    }
}

/// No flag of the library's own reaches a real cargo, local or remote. The line a plan hands
/// on is the one that was typed without those flags, and so is the line that would run the
/// remote build locally.
pub proof fn law_own_flags_never_reach_cargo(
    cwd: Seq<char>,
    args: Seq<Seq<char>>,
    files: Seq<Option<Result<Seq<char>, Seq<char>>>>,
)
    ensures
        match planned(cwd, args, files) {
            PlanView::Local(line) => line == stripped(args),
            PlanView::Remote(invocation) => invocation.local_line() == stripped(args) && forall|
                i: int,
            |
                0 <= i < invocation.flags.len() ==> !is_own_flag(#[trigger] invocation.flags[i]),
            PlanView::Broken(_) => true,
        },
{
    let cargo = stripped(args);
    law_stripping(args, args);
    if let PlanView::Remote(invocation) = planned(cwd, args, files) {
        assert(invocation.flags == cargo.skip(1));
        assert(seq!["build"@] + cargo.skip(1) =~= cargo);
        assert forall|i: int| 0 <= i < invocation.flags.len() implies !is_own_flag(
            #[trigger] invocation.flags[i],
        ) by {
            assert(invocation.flags[i] == cargo[i + 1]);
        }
    }
}

proof fn lemma_first_file<T>(files: Seq<Option<T>>, from: int, to: int)
    ensures
        match first_file(files, from, to) {
            Some(i) => from <= i < to && files[i] is Some && forall|j: int|
                from <= j < i ==> #[trigger] files[j] is None,
            None => forall|j: int| from <= j < to ==> #[trigger] files[j] is None,
        },
    decreases to - from,
{
    if from < to && files[from] is None {
        lemma_first_file(files, from + 1, to);
    }
}

/// Only `build` goes remote, whatever config files there are.
pub proof fn law_only_build_goes_remote(
    cwd: Seq<char>,
    args: Seq<Seq<char>>,
    files: Seq<Option<Result<Seq<char>, Seq<char>>>>,
)
    requires
        !is_build(stripped(args)),
    ensures
        planned(cwd, args, files) == PlanView::Local(stripped(args)),
{
}

/// Where no directory on the way up holds a config file, cargo runs untouched.
pub proof fn law_without_a_config_cargo_runs(
    cwd: Seq<char>,
    args: Seq<Seq<char>>,
    files: Seq<Option<Result<Seq<char>, Seq<char>>>>,
)
    requires
        forall|i: int|
            0 <= i < files.len() && i < ancestors_of(cwd).len() ==> #[trigger] files[i] is None,
    ensures
        planned(cwd, args, files) == PlanView::Local(stripped(args)),
{
    let dirs = ancestors_of(cwd);
    lemma_first_file(
        files,
        0,
        if dirs.len() < files.len() {
            dirs.len() as int
        } else {
            files.len() as int
        },
    );
}

/// A config file that was found is never passed over: `build` then either goes remote or is
/// refused with what is wrong, and the nearest file is the one that counts.
pub proof fn law_nearest_config_decides(
    cwd: Seq<char>,
    args: Seq<Seq<char>>,
    files: Seq<Option<Result<Seq<char>, Seq<char>>>>,
    at: int,
)
    requires
        is_build(stripped(args)),
        0 <= at < files.len(),
        at < ancestors_of(cwd).len(),
        files[at] is Some,
        forall|j: int| 0 <= j < at ==> #[trigger] files[j] is None,
    ensures
        match loaded(
            ancestors_of(cwd)[at],
            files[at]->Some_0,
            flag_bits(args),
            stripped(args).skip(1),
        ) {
            Ok(invocation) => planned(cwd, args, files) == PlanView::Remote(invocation),
            Err(e) => planned(cwd, args, files) == PlanView::Broken(e),
        },
{
    let dirs = ancestors_of(cwd);
    lemma_first_file(
        files,
        0,
        if dirs.len() < files.len() {
            dirs.len() as int
        } else {
            files.len() as int
        },
    );
}

/// A switch is on in what was resolved exactly where the command line or the config file turns
/// it on: the two sources add up, so what was just typed wins over a file that left it off.
pub proof fn law_sources_add_up(
    root: Seq<char>,
    host: Option<EntryView>,
    pull: Option<EntryView>,
    symbols: Option<EntryView>,
    args: Seq<Seq<char>>,
    flags: Seq<Seq<char>>,
    switch: Switch,
)
    requires
        resolved(root, host, pull, symbols, flag_bits(args), flags) is Ok,
    ensures
        is_on(resolved(root, host, pull, symbols, flag_bits(args), flags)->Ok_0.settings, switch)
            == (is_on(flag_bits(args), switch) || is_on(
            entry_bits(pull, symbols)->Ok_0,
            switch,
        )),
        args.contains(flag_of(switch)) ==> is_on(flag_bits(args), switch),
{
    let typed = flag_bits(args);
    let written = entry_bits(pull, symbols)->Ok_0;
    law_settings_survive_the_wire(
        bits_for(args.contains(flag_of(Switch::Pull)), args.contains(flag_of(Switch::Symbols))),
    );
    law_settings_survive_the_wire(
        bits_for(
            switch_at(key_of(Switch::Pull), pull)->Ok_0,
            switch_at(key_of(Switch::Symbols), symbols)->Ok_0,
        ),
    );
    law_merging_is_a_union(typed, written, switch);
    assert(1u8 & 1u8 != 0 && 1u8 & 2u8 == 0 && 2u8 & 2u8 != 0 && 3u8 & 1u8 != 0 && 3u8 & 2u8 != 0)
        by (bit_vector);
}

/// Whatever is resolved is valid: the host and the name are plain and the switches are a set.
pub proof fn law_resolved_is_valid(
    root: Seq<char>,
    read: Result<Seq<char>, Seq<char>>,
    from_flags: u8,
    flags: Seq<Seq<char>>,
)
    ensures
        loaded(root, read, from_flags, flags) matches Ok(invocation) ==> invocation.valid()
            && invocation.root == root && invocation.flags == flags,
{
    law_project_name_is_plain(root_name(root));
    if let Ok(invocation) = loaded(root, read, from_flags, flags) {
        let nodes = parsed_document(read->Ok_0)->Ok_0;
        let bits = entry_bits(
            entry_at(nodes, key_of(Switch::Pull)),
            entry_at(nodes, key_of(Switch::Symbols)),
        )->Ok_0;
        law_settings_survive_the_wire(from_flags | bits);
    }
}

/// How each switch is spelled: its bit, its flag and its key.
pub proof fn law_switches_are_spelled(bits: u8)
    ensures
        is_on(bits, Switch::Pull) <==> bits & 1u8 != 0,
        is_on(bits, Switch::Symbols) <==> bits & 2u8 != 0,
        bit_of(Switch::Pull) == 1,
        bit_of(Switch::Symbols) == 2,
        flag_of(Switch::Pull) == "--mamba-pull"@,
        flag_of(Switch::Symbols) == "--mamba-pull-symbols"@,
        key_of(Switch::Pull) == "pull"@,
        key_of(Switch::Symbols) == "pull-symbols"@,
{
}

/// In the set that raw bits stand for, the symbols are on exactly where their bit is set, the
/// binary exactly where its own bit or that of the symbols is, and nothing else is on.
pub proof fn law_settled_sets(bits: u8)
    ensures
        settled(bits) & 2u8 != 0 <==> bits & 2u8 != 0,
        settled(bits) & 1u8 != 0 <==> bits & 1u8 != 0 || bits & 2u8 != 0,
        settled(bits) <= 3,
        is_settled(bits) <==> bits == 0 || bits == 1 || bits == 3,
{
    assert(3u8 & 1u8 != 0 && 3u8 & 2u8 != 0 && (bits & 1u8) & 2u8 == 0 && (bits & 1u8) & 1u8 == bits
        & 1u8 && bits & 1u8 <= 1u8) by (bit_vector);
    assert(0u8 & 2u8 == 0 && 0u8 & 1u8 == 0 && 1u8 & 2u8 == 0 && 1u8 & 1u8 == 1) by (bit_vector);
    assert(bits & 2u8 == 0 && bits & 1u8 == bits ==> bits == 0 || bits == 1) by (bit_vector);
}

proof fn lemma_chosen_bits(pull: bool, symbols: bool)
    ensures
        settled(bits_for(pull, symbols)) & 2u8 != 0 <==> symbols,
        settled(bits_for(pull, symbols)) & 1u8 != 0 <==> pull || symbols,
        settled(bits_for(pull, symbols)) <= 3,
{
    law_settled_sets(bits_for(pull, symbols));
    assert(0u8 & 2u8 == 0 && 0u8 & 1u8 == 0 && 1u8 & 2u8 == 0 && 1u8 & 1u8 == 1 && 2u8 & 2u8 == 2
        && 2u8 & 1u8 == 0 && 3u8 & 2u8 == 2 && 3u8 & 1u8 == 1) by (bit_vector);
}

/// A config file whose two switches are missing or booleans turns on the symbols exactly where
/// the entry under `pull-symbols` is true, and the binary exactly where that one or the entry
/// under `pull` is. No other bit is ever set.
pub proof fn law_what_a_config_turns_on(pull: Option<EntryView>, symbols: Option<EntryView>)
    requires
        pull matches Some(e) ==> e.value is Flag,
        symbols matches Some(e) ==> e.value is Flag,
    ensures
        entry_bits(pull, symbols) is Ok,
        is_on(entry_bits(pull, symbols)->Ok_0, Switch::Symbols) <==> (symbols matches Some(e)
            && e.value == HeldView::Flag(true)),
        is_on(entry_bits(pull, symbols)->Ok_0, Switch::Pull) <==> (pull matches Some(e) && e.value
            == HeldView::Flag(true)) || (symbols matches Some(e) && e.value == HeldView::Flag(
            true,
        )),
        entry_bits(pull, symbols)->Ok_0 & 2u8 != 0 <==> (symbols matches Some(e) && e.value
            == HeldView::Flag(true)),
        entry_bits(pull, symbols)->Ok_0 & 1u8 != 0 <==> (pull matches Some(e) && e.value
            == HeldView::Flag(true)) || (symbols matches Some(e) && e.value == HeldView::Flag(
            true,
        )),
        entry_bits(pull, symbols)->Ok_0 <= 3,
{
    lemma_chosen_bits(
        pull matches Some(e) && e.value == HeldView::Flag(true),
        symbols matches Some(e) && e.value == HeldView::Flag(true),
    );
}

/// An entry under a switch's key that is no boolean is complained about under that key and as it
/// was written, the binary's ahead of the symbols'.
pub proof fn law_switches_must_be_booleans(pull: Option<EntryView>, symbols: Option<EntryView>)
    ensures
        pull matches Some(e) ==> !(e.value is Flag) ==> entry_bits(pull, symbols) == Err::<
            u8,
            ErrorView,
        >(ErrorView::BadSetting("pull"@, e.rendered)),
        (pull matches Some(e) ==> e.value is Flag) ==> (symbols matches Some(e) ==> !(
        e.value is Flag) ==> entry_bits(pull, symbols) == Err::<u8, ErrorView>(
            ErrorView::BadSetting("pull-symbols"@, e.rendered),
        )),
{
}

/// A command line turns on the symbols exactly where it holds `--mamba-pull-symbols`, and the
/// binary exactly where it holds that flag or `--mamba-pull`, wherever on the line they stand.
pub proof fn law_what_a_command_line_turns_on(args: Seq<Seq<char>>)
    ensures
        is_on(flag_bits(args), Switch::Symbols) <==> args.contains("--mamba-pull-symbols"@),
        is_on(flag_bits(args), Switch::Pull) <==> args.contains("--mamba-pull"@) || args.contains(
            "--mamba-pull-symbols"@,
        ),
        flag_bits(args) & 2u8 != 0 <==> args.contains("--mamba-pull-symbols"@),
        flag_bits(args) & 1u8 != 0 <==> args.contains("--mamba-pull"@) || args.contains(
            "--mamba-pull-symbols"@,
        ),
        flag_bits(args) <= 3,
{
    lemma_chosen_bits(args.contains("--mamba-pull"@), args.contains("--mamba-pull-symbols"@));
}

/// What two sources turn on together: the symbols exactly where one of the two sets has them, the
/// binary exactly where one has it or the symbols.
pub proof fn law_two_sources_together(a: u8, b: u8)
    ensures
        settled(a | b) & 2u8 != 0 <==> a & 2u8 != 0 || b & 2u8 != 0,
        settled(a | b) & 1u8 != 0 <==> a & 1u8 != 0 || b & 1u8 != 0 || a & 2u8 != 0 || b & 2u8 != 0,
        settled(a | b) <= 3,
{
    law_settled_sets(a | b);
    assert((a | b) & 2u8 != 0 <==> a & 2u8 != 0 || b & 2u8 != 0) by (bit_vector);
    assert((a | b) & 1u8 != 0 <==> a & 1u8 != 0 || b & 1u8 != 0) by (bit_vector);
}

/// A host is plain where it has some characters and all of them are letters, digits, dots,
/// dashes, underscores or at signs; a name where they are all that but at signs, and it is
/// neither of the two names that every directory holds.
pub proof fn law_plain_characters(text: Seq<char>)
    ensures
        plain_host(text) <==> text.len() > 0 && forall|i: int|
            0 <= i < text.len() ==> {
                let c = #[trigger] text[i];
                'a' <= c <= 'z' || 'A' <= c <= 'Z' || '0' <= c <= '9' || c == '.' || c == '-' || c
                    == '_' || c == '@'
            },
        plain_name(text) <==> text.len() > 0 && text != seq!['.'] && text != seq!['.', '.']
            && forall|i: int|
            0 <= i < text.len() ==> {
                let c = #[trigger] text[i];
                'a' <= c <= 'z' || 'A' <= c <= 'Z' || '0' <= c <= '9' || c == '.' || c == '-' || c
                    == '_'
            },
{
}

/// A project's name is made character by character, each that may not stand in a name giving an
/// underscore and every other one staying as it is; `project` stands in where there is nothing to
/// make a name from, or only one of the two names every directory holds.
pub proof fn law_names_are_made_character_by_character(raw: Seq<char>)
    ensures
        raw == Seq::<char>::empty() || raw == seq!['.'] || raw == seq!['.', '.'] ==> project_name_of(
            raw,
        ) == "project"@,
        raw != Seq::<char>::empty() && raw != seq!['.'] && raw != seq!['.', '.'] ==> {
            &&& project_name_of(raw).len() == raw.len()
            &&& forall|i: int|
                #![trigger project_name_of(raw)[i]]
                0 <= i < raw.len() ==> {
                    let c = raw[i];
                    let plain = 'a' <= c <= 'z' || 'A' <= c <= 'Z' || '0' <= c <= '9' || c == '.'
                        || c == '-' || c == '_';
                    project_name_of(raw)[i] == (if plain {
                        c
                    } else {
                        '_'
                    })
                }
        },
{
    let clean = cleaned(raw);
    assert(clean.len() == raw.len());
    assert forall|i: int| 0 <= i < raw.len() implies #[trigger] clean[i] == clean_char(raw[i]) by {}
    if raw.len() == 0 {
        assert(raw =~= Seq::<char>::empty());
    }
    if raw == seq!['.'] {
        assert(clean =~= seq!['.']);
    }
    if raw == seq!['.', '.'] {
        assert(clean =~= seq!['.', '.']);
    }
    if clean == seq!['.'] {
        assert(clean[0] == '.');
        assert(raw =~= seq!['.']);
    }
    if clean == seq!['.', '.'] {
        assert(clean[0] == '.' && clean[1] == '.');
        assert(raw =~= seq!['.', '.']);
    }
}

/// A project is named after its directory, and keeps the directory's own name where that is
/// plain. What belongs to no project is kept in `.mamba` in the home directory, or in `/tmp`.
pub proof fn law_where_names_and_homes_come_from(root: Seq<char>, home: Seq<char>)
    ensures
        file_name(root) is None ==> root_name(root) == "project"@,
        file_name(root) matches Some(name) ==> root_name(root) == name,
        file_name(root) matches Some(name) ==> plain_name(name) ==> project_name_of(root_name(root))
            == name,
        home_dir(Some(home)) == joined(home, ".mamba"@),
        home_dir(None) == joined("/tmp"@, ".mamba"@),
{
    if let Some(name) = file_name(root) {
        if plain_name(name) {
            law_plain_name_is_kept(name);
        }
    }
}

/// What is resolved from the entries of a config file and the switches of a command line, and
/// when. The host has to be a plain text and is checked first, then the two switches; the rest
/// comes from the directory and the line alone.
pub proof fn law_resolving(
    root: Seq<char>,
    host: Option<EntryView>,
    pull: Option<EntryView>,
    symbols: Option<EntryView>,
    typed: u8,
    flags: Seq<Seq<char>>,
)
    ensures
        !(host matches Some(e) && e.value is Text) ==> resolved(
            root,
            host,
            pull,
            symbols,
            typed,
            flags,
        ) == Err::<InvocationView, ErrorView>(ErrorView::MissingHost),
        host matches Some(e) ==> (e.value matches HeldView::Text(name) ==> !plain_host(name)
            ==> resolved(root, host, pull, symbols, typed, flags) == Err::<
            InvocationView,
            ErrorView,
        >(ErrorView::BadHost(name))),
        host matches Some(e) ==> (e.value matches HeldView::Text(name) ==> plain_host(name) ==> (
        match entry_bits(pull, symbols) {
            Err(e) => resolved(root, host, pull, symbols, typed, flags) == Err::<
                InvocationView,
                ErrorView,
            >(e),
            Ok(written) => resolved(root, host, pull, symbols, typed, flags) matches Ok(made) && {
                &&& made.root == root
                &&& made.host == name
                &&& made.project_id == project_name_of(root_name(root))
                &&& made.flags == flags
                &&& made.settings <= 3
                &&& (made.settings & 2u8 != 0 <==> typed & 2u8 != 0 || written & 2u8 != 0)
                &&& (made.settings & 1u8 != 0 <==> typed & 1u8 != 0 || typed & 2u8 != 0 || written
                    & 1u8 != 0 || written & 2u8 != 0)
            },
        })),
{
    if let Ok(written) = entry_bits(pull, symbols) {
        law_two_sources_together(typed, written);
    }
}

/// A config file that cannot be read or is not TOML is complained about under its own path; one
/// that is, counts by what it has under `host`, `pull` and `pull-symbols` and nothing else.
pub proof fn law_loading(
    root: Seq<char>,
    text: Seq<char>,
    why: Seq<char>,
    typed: u8,
    flags: Seq<Seq<char>>,
)
    ensures
        loaded(root, Err(why), typed, flags) == Err::<InvocationView, ErrorView>(
            ErrorView::Unreadable(joined(root, ".mamba.toml"@), why),
        ),
        parsed_document(text) matches Err(reason) ==> loaded(root, Ok(text), typed, flags) == Err::<
            InvocationView,
            ErrorView,
        >(ErrorView::Syntax(joined(root, ".mamba.toml"@), reason)),
        parsed_document(text) matches Ok(nodes) ==> loaded(root, Ok(text), typed, flags)
            == resolved(
            root,
            entry_at(nodes, "host"@),
            entry_at(nodes, "pull"@),
            entry_at(nodes, "pull-symbols"@),
            typed,
            flags,
        ),
{
}

/// Stripping a line goes argument by argument: exactly `--mamba-pull` and
/// `--mamba-pull-symbols` are dropped, and every other argument is kept where it stands.
pub proof fn law_stripping_goes_argument_by_argument(args: Seq<Seq<char>>, arg: Seq<char>)
    ensures
        stripped(Seq::<Seq<char>>::empty()) == Seq::<Seq<char>>::empty(),
        stripped(args.push(arg)) == (if arg == "--mamba-pull"@ || arg == "--mamba-pull-symbols"@ {
            stripped(args)
        } else {
            stripped(args).push(arg)
        }),
{
    reveal(Seq::filter);
    let keep = |a: Seq<char>| !is_own_flag(a);
    assert(args.push(arg).drop_last() =~= args);
    assert(args.push(arg).last() == arg);
    assert(Seq::<Seq<char>>::empty().filter(keep) =~= Seq::<Seq<char>>::empty());
}

/// A line whose first argument, the library's own flags aside, is not `build` is cargo's own
/// business, and it is handed on as it was typed but for those flags.
pub proof fn law_every_other_command_is_local(
    cwd: Seq<char>,
    args: Seq<Seq<char>>,
    files: Seq<Option<Result<Seq<char>, Seq<char>>>>,
)
    ensures
        stripped(args).len() == 0 ==> planned(cwd, args, files) == PlanView::Local(
            Seq::<Seq<char>>::empty(),
        ),
        stripped(args).len() > 0 && stripped(args)[0] != "build"@ ==> planned(cwd, args, files)
            == PlanView::Local(stripped(args)),
{
    if stripped(args).len() == 0 {
        assert(stripped(args) =~= Seq::<Seq<char>>::empty());
    }
}

/// A `build` below a directory with a config file goes remote, from the nearest such directory,
/// to the host its file names, with what was typed behind `build` as its flags. The symbols are
/// on exactly where the line or the file asks for them, and the binary exactly where one of the
/// two asks for it or for the symbols.
pub proof fn law_a_build_goes_where_its_config_says(
    cwd: Seq<char>,
    args: Seq<Seq<char>>,
    files: Seq<Option<Result<Seq<char>, Seq<char>>>>,
    at: int,
    nodes: Map<Seq<char>, Node>,
    host: Seq<char>,
)
    requires
        stripped(args).len() > 0,
        stripped(args)[0] == "build"@,
        0 <= at < files.len(),
        at < ancestors_of(cwd).len(),
        files[at] matches Some(Ok(text)) && parsed_document(text) == Ok::<
            Map<Seq<char>, Node>,
            Seq<char>,
        >(nodes),
        forall|j: int| 0 <= j < at ==> #[trigger] files[j] is None,
        nodes.contains_key("host"@),
        nodes["host"@].shape == Shape::Text(host),
        plain_host(host),
        nodes.contains_key("pull"@) ==> nodes["pull"@].shape is Flag,
        nodes.contains_key("pull-symbols"@) ==> nodes["pull-symbols"@].shape is Flag,
    ensures
        planned(cwd, args, files) matches PlanView::Remote(made) && {
            let typed_pull = args.contains("--mamba-pull"@);
            let typed_symbols = args.contains("--mamba-pull-symbols"@);
            let kept_pull = nodes.contains_key("pull"@) && nodes["pull"@].shape == Shape::Flag(
                true,
            );
            let kept_symbols = nodes.contains_key("pull-symbols"@) && nodes["pull-symbols"@].shape
                == Shape::Flag(true);
            &&& made.root == ancestors_of(cwd)[at]
            &&& made.host == host
            &&& made.project_id == project_name_of(root_name(ancestors_of(cwd)[at]))
            &&& seq!["build"@] + made.flags == stripped(args)
            &&& (is_on(made.settings, Switch::Symbols) <==> typed_symbols || kept_symbols)
            &&& (is_on(made.settings, Switch::Pull) <==> typed_pull || typed_symbols || kept_pull
                || kept_symbols)
            &&& made.settings <= 3
        },
{
    let pull = entry_at(nodes, "pull"@);
    let symbols = entry_at(nodes, "pull-symbols"@);
    let root = ancestors_of(cwd)[at];
    let flags = stripped(args).skip(1);
    law_nearest_config_decides(cwd, args, files, at);
    law_what_a_config_turns_on(pull, symbols);
    law_what_a_command_line_turns_on(args);
    law_resolving(root, entry_at(nodes, "host"@), pull, symbols, flag_bits(args), flags);
    assert(seq!["build"@] + flags =~= stripped(args));
}

/// What each mistake is answered with.
pub proof fn law_mistakes_are_named(a: Seq<char>, b: Seq<char>)
    ensures
        error_text(ErrorView::Unreadable(a, b)) == "cannot read "@ + a + ": "@ + b,
        error_text(ErrorView::Syntax(a, b)) == a + " is not valid TOML: "@ + b,
        error_text(ErrorView::MissingHost)
            == ".mamba.toml needs a `host` key, for example: host = \"gpu-box\""@,
        error_text(ErrorView::BadHost(a)) == "host "@ + debug_form(a)
            + " is not a plain ssh destination (letters, digits, . - _ @ only)"@,
        error_text(ErrorView::BadSetting(a, b)) == a + " must be true or false, got "@ + b,
{
}

/// The nearest place with a file is one that has a file while no place before it has, and there
/// is one wherever any directory's place has a file.
pub proof fn law_the_nearest_file<T>(dirs: Seq<Seq<char>>, files: Seq<Option<T>>)
    ensures
        match nearest(dirs, files) {
            Some(i) => 0 <= i < dirs.len() && i < files.len() && files[i] is Some && forall|j: int|
                0 <= j < i ==> #[trigger] files[j] is None,
            None => forall|j: int|
                0 <= j < dirs.len() && j < files.len() ==> #[trigger] files[j] is None,
        },
{
    lemma_first_file(
        files,
        0,
        if dirs.len() < files.len() {
            dirs.len() as int
        } else {
            files.len() as int
        },
    );
}

/// What was found is seen as it was: a place without a file as that, one with a file as what
/// reading it gave; and what was resolved, planned or refused as what it holds.
pub proof fn law_findings_are_seen_as_they_are(
    files: Seq<Option<Result<String, String>>>,
    i: int,
    made: Result<Invocation, InputError>,
)
    ensures
        findings(files).len() == files.len(),
        0 <= i < files.len() ==> (match files[i] {
            None => findings(files)[i] is None,
            Some(Ok(text)) => findings(files)[i] == Some(Ok::<Seq<char>, Seq<char>>(text@)),
            Some(Err(why)) => findings(files)[i] == Some(Err::<Seq<char>, Seq<char>>(why@)),
        }),
        made matches Ok(invocation) ==> (resolution(made) matches Ok(seen) && seen.root
            == invocation.root@ && seen.host == invocation.host@ && seen.project_id
            == invocation.project_id@ && seen.settings == invocation.settings@ && seen.flags
            == texts(invocation.flags@)),
        made matches Err(e) ==> resolution(made) == Err::<InvocationView, ErrorView>(e@),
{
}

} // verus!
