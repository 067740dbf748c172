//! The `cargo` that stands in front of the real one.
//!
//! Installed as a symlink named `cargo`, it takes over `cargo build` in projects that ask for
//! it and gets out of the way everywhere else. One remote build over plain ssh is a [`Job`]: it
//! says what is to be done next, somebody does it and hands back how it went, and the job
//! answers with the lines to print.

use crate::artifact::{profile_name, profile_of, split_command};
use crate::config::{config_error_text, discovered, Config, ConfigView};
use crate::input::{
    all_settings, findings, flag_bits, flag_of, is_build, is_on, is_own_flag, needs_project,
    root_name, strip_flags, stripped, Settings, Switch, PULL, SYMBOLS,
};
use crate::layout::{binary_name, binary_name_in, manifest_path_of, split_text};
use crate::paths::{join, joined, name_or};
use crate::remote::{
    command_line, remote_command, rsync_args, upload_line, BuildOutcome, OutcomeView,
};
use crate::shell::all_quoted;
use crate::ssh::quote_all;
use crate::text::{
    characters, copy_text, decimal, decimal_form, digit_char, glue2, glue3, glue4, glue5, maybe,
    outcome, same_text, small_letters, text_between, texts, to_small_letters, trim, trimmed,
};
use vstd::prelude::*;

verus! {

/// Whether a program was started under the name `cargo`. `first` is the first word of its
/// command line.
pub open spec fn started_as_cargo(first: Option<Seq<char>>) -> bool {
    match first {
        Some(path) => crate::paths::file_name(path) == Some("cargo"@),
        None => false,
    }
}

/// Whether this program was started under the name `cargo`.
pub fn is_cargo(first: Option<&str>) -> (r: bool)
    ensures
        r == started_as_cargo(maybe(first)),
{
    proof {
        reveal_strlit("");
        reveal_strlit("cargo");
        assert(""@.len() != "cargo"@.len());
    }
    match first {
        Some(path) => same_text(name_or(path, "").as_str(), "cargo"),
        None => false,
    }
}

/// The words that explain one switch in the usage text.
pub open spec fn usage_row(flag: Seq<char>, gap: Seq<char>, help: Seq<char>) -> Seq<char> {
    "    cargo build "@ + flag + gap + help + "\n"@
}

/// The usage text before the switches.
pub const USAGE_HEAD: &'static str =
    "mamba builds your Rust project on another machine.\n\nInstall the shim, once:\n    ln -s \"$(command -v mamba)\" ~/.local/bin/cargo\nand make sure ~/.local/bin comes before ~/.cargo/bin on your PATH.\n\nThen, in any project you want built remotely, create .mamba.toml:\n    host = \"gpu-box\"            # any ssh destination or ~/.ssh/config alias\n    # remote_dir = \".mamba/proj\"  # optional, relative to the remote home directory\n\nFrom then on `cargo build` in that project compiles on gpu-box.\n";

/// The usage text behind the switches.
pub const USAGE_TAIL: &'static str = "Every other cargo command runs locally as usual.";

/// Explains how to install the shim, shown when the program is run under its own name.
pub fn usage() -> (r: String)
    ensures
        r@ == USAGE_HEAD@ + usage_row(
            flag_of(Switch::Pull),
            "           "@,
            "fetch the built binary back"@,
        ) + usage_row(
            flag_of(Switch::Symbols),
            "   "@,
            "also fetch debug symbols for it"@,
        ) + USAGE_TAIL@,
{
    let rows = all_settings();
    let pull = glue5("    cargo build ", rows[0].flag, "           ", rows[0].help, "\n");
    let symbols = glue5("    cargo build ", rows[1].flag, "   ", rows[1].help, "\n");
    glue4(USAGE_HEAD, pull.as_str(), symbols.as_str(), USAGE_TAIL)
}

/// So many spaces.
pub open spec fn spaces(n: nat) -> Seq<char> {
    Seq::new(n, |i: int| ' ')
}

/// A text moved to the right end of so many columns, or as it is where it does not fit.
pub open spec fn right_aligned(text: Seq<char>, columns: nat) -> Seq<char> {
    if text.len() < columns {
        spaces((columns - text.len()) as nat) + text
    } else {
        text
    }
}

fn align_right(text: &str, columns: usize) -> (r: String)
    ensures
        r@ == right_aligned(text@, columns as nat),
{
    let chars = characters(text);
    if chars.len() >= columns {
        return copy_text(text);
    }
    let mut out = String::new();
    let gap: usize = columns - chars.len();
    let mut i: usize = 0;
    while i < gap
        invariant
            i <= gap,
            out@ == spaces(i as nat),
        decreases gap - i,
    {
        out.push(' ');
        assert(out@ =~= spaces((i + 1) as nat));
        i += 1;
    }
    glue2(out.as_str(), text)
}

/// A status line in cargo's own convention.
pub open spec fn status_text(verb: Seq<char>, message: Seq<char>, terminal: bool) -> Seq<char> {
    if terminal {
        "\x1b[1m\x1b[92m"@ + right_aligned(verb, 12) + "\x1b[0m "@ + message
    } else {
        right_aligned(verb, 12) + " "@ + message
    }
}

/// Words a status line in cargo's own convention (a bold green verb right-aligned to 12 columns,
/// then the message), so that syncing and downloading read as part of the same build log as
/// cargo's own lines. Colour is skipped when the line does not go to a terminal, the same call
/// real cargo makes for its own output.
pub fn status(verb: &str, message: &str, terminal: bool) -> (r: String)
    ensures
        r@ == status_text(verb@, message@, terminal),
{
    let aligned = align_right(verb, 12);
    if terminal {
        glue4("\x1b[1m\x1b[92m", aligned.as_str(), "\x1b[0m ", message)
    } else {
        glue3(aligned.as_str(), " ", message)
    }
}

/// The project directory's name, used only to label status lines.
pub fn project_name(config: &Config) -> (r: String)
    ensures
        r@ == root_name(config@.root),
{
    name_or(config.root.as_path(), "project")
}

/// The power of two that numbers of the size of `n` are kept in multiples of when 53 binary
/// digits are kept of them.
pub open spec fn quantum(n: nat) -> nat
    decreases n,
{
    if n < 9007199254740992 {
        1
    } else {
        2 * quantum(n / 2)
    }
}

/// `n / d` to the nearest whole number, and to the even one of two that are as near.
pub open spec fn half_even(n: nat, d: nat) -> nat {
    if 2 * (n % d) < d {
        n / d
    } else if 2 * (n % d) > d {
        n / d + 1
    } else if (n / d) % 2 == 0 {
        n / d
    } else {
        n / d + 1
    }
}

/// The nearest number that 53 binary digits can write.
pub open spec fn fifty_three_digits(n: nat) -> nat {
    half_even(n, quantum(n)) * quantum(n)
}

/// The number of bytes in the largest unit that a size fills, among bytes, kilobytes, megabytes
/// and gigabytes.
pub open spec fn unit_size(n: nat) -> nat {
    if n < 1024 {
        1
    } else if n < 1048576 {
        1024
    } else if n < 1073741824 {
        1048576
    } else {
        1073741824
    }
}

/// How that unit is written.
pub open spec fn unit_name(n: nat) -> Seq<char> {
    if n < 1024 {
        " B"@
    } else if n < 1048576 {
        " KB"@
    } else if n < 1073741824 {
        " MB"@
    } else {
        " GB"@
    }
}

/// A byte count the way a human reads it: whole bytes, or hundredths of a larger unit.
pub open spec fn size_text(bytes: nat) -> Seq<char> {
    let size = fifty_three_digits(bytes);
    if size < 1024 {
        decimal_form(bytes) + " B"@
    } else {
        let hundredths = half_even(100 * size, unit_size(size));
        decimal_form(hundredths / 100) + seq![
            '.',
            digit_char((hundredths / 10) % 10),
            digit_char(hundredths % 10),
        ] + unit_name(size)
    }
}

fn round_half_even(n: u128, d: u64) -> (r: u128)
    requires
        d > 0,
        n < 0x1_0000_0000_0000_0000_0000_0000_0000,
    ensures
        r == half_even(n as nat, d as nat),
{
    let whole: u128 = n / (d as u128);
    let rest: u128 = n % (d as u128);
    let twice: u128 = 2 * rest;
    if twice < d as u128 {
        whole
    } else if twice > d as u128 {
        whole + 1
    } else if whole % 2 == 0 {
        whole
    } else {
        whole + 1
    }
}

fn keep_fifty_three_digits(n: u64) -> (r: u128)
    ensures
        r == fifty_three_digits(n as nat),
        r <= 0x2_0000_0000_0000_0000,
{
    let mut left: u64 = n;
    let mut q: u64 = 1;
    while left >= 9007199254740992
        invariant
            q >= 1,
            quantum(n as nat) == q * quantum(left as nat),
            q * left <= n,
            q <= 4096,
        decreases left,
    {
        let ghost before = left as int;
        let ghost step = q as int;
        assert(step <= 2048) by (nonlinear_arith)
            requires
                step * before <= 0xffff_ffff_ffff_ffff,
                before >= 9007199254740992,
                step >= 1,
        ;
        assert((2 * step) * (before / 2) <= step * before) by (nonlinear_arith)
            requires
                before >= 0,
                step >= 1,
        ;
        assert(step * (2 * quantum((before / 2) as nat)) == (2 * step) * quantum(
            (before / 2) as nat,
        )) by (nonlinear_arith);
        left = left / 2;
        q = q * 2;
    }
    assert(quantum(n as nat) == q) by (nonlinear_arith)
        requires
            quantum(n as nat) == q * 1,
    ;
    let whole = round_half_even(n as u128, q);
    let ghost w = whole as int;
    let ghost d = q as int;
    assert((n as int / d) * d <= n as int) by (nonlinear_arith)
        requires
            d >= 1,
    ;
    assert(w * d <= (n as int / d) * d + d) by (nonlinear_arith)
        requires
            w <= n as int / d + 1,
            d >= 1,
    ;
    assert(0 <= w * d) by (nonlinear_arith)
        requires
            w >= 0,
            d >= 1,
    ;
    whole * (q as u128)
}

/// Renders a byte count the way a human reads it, e.g. `4.16 MB`.
pub fn human_size(bytes: u64) -> (r: String)
    ensures
        r@ == size_text(bytes as nat),
{
    let size = keep_fifty_three_digits(bytes);
    if size < 1024 {
        return glue2(decimal(bytes).as_str(), " B");
    }
    let unit: u64 = if size < 1048576 {
        1024
    } else if size < 1073741824 {
        1048576
    } else {
        1073741824
    };
    let name = if size < 1048576 {
        " KB"
    } else if size < 1073741824 {
        " MB"
    } else {
        " GB"
    };
    let hundredths: u128 = round_half_even(100 * size, unit);
    assert(hundredths <= 0x2_0000_0000_0000_0000) by {
        let n = 100 * size as int;
        assert(hundredths <= n / unit as int + 1);
        assert(n / unit as int <= n / 1024) by (nonlinear_arith)
            requires
                unit >= 1024,
                n >= 0,
        ;
    }
    let whole: u128 = hundredths / 100;
    assert(whole <= u64::MAX);
    let tenth: u8 = ((hundredths / 10) % 10) as u8;
    let last: u8 = (hundredths % 10) as u8;
    let mut digits = decimal(whole as u64);
    let ghost front = digits@;
    digits.push('.');
    digits.push((48 + tenth) as char);
    digits.push((48 + last) as char);
    assert(digits@ =~= front + seq![
        '.',
        digit_char(((hundredths / 10) % 10) as nat),
        digit_char((hundredths % 10) as nat),
    ]);
    glue2(digits.as_str(), name)
}

/// Up to nine quadrillion bytes nothing is lost: what is rendered is the size itself, to the
/// nearest hundredth.
pub proof fn law_small_sizes_are_exact(bytes: nat)
    requires
        bytes < 9007199254740992,
    ensures
        fifty_three_digits(bytes) == bytes,
{
    assert(quantum(bytes) == 1);
    assert(bytes % 1 == 0 && bytes / 1 == bytes) by (nonlinear_arith);
    assert(half_even(bytes, 1) * 1 == half_even(bytes, 1)) by (nonlinear_arith);
}

/// The directories that a search path lists: what stands between the colons.
pub open spec fn listed(path_var: Seq<char>) -> Seq<Seq<char>>
    decreases path_var.len(),
{
    if path_var.len() == 0 {
        seq![Seq::empty()]
    } else {
        let front = listed(path_var.drop_last());
        if path_var.last() == ':' {
            front.push(Seq::empty())
        } else {
            front.update(front.len() - 1, front.last().push(path_var.last()))
        }
    }
}

/// Every place on a search path where a `cargo` could be.
pub open spec fn cargo_places(path_var: Seq<char>) -> Seq<Seq<char>> {
    listed(path_var).map_values(|dir: Seq<char>| joined(dir, "cargo"@))
}

/// Lists every place on a search path where a `cargo` could be, in order.
pub fn cargo_candidates(path_var: &str) -> (r: Vec<String>)
    ensures
        texts(r@) == cargo_places(path_var@),
{
    let chars = characters(path_var);
    let mut done: Vec<String> = Vec::new();
    let mut start: usize = 0;
    let mut i: usize = 0;
    let ghost dir = |d: Seq<char>| joined(d, "cargo"@);
    assert(chars@.subrange(0, 0) =~= Seq::<char>::empty());
    assert(texts(done@) =~= Seq::<Seq<char>>::empty());
    assert(listed(chars@.take(0)) =~= seq![chars@.subrange(0, 0)]);
    assert(listed(chars@.take(0)).drop_last().map_values(dir) =~= Seq::<Seq<char>>::empty());
    while i < chars.len()
        invariant
            start <= i <= chars@.len(),
            dir == (|d: Seq<char>| joined(d, "cargo"@)),
            listed(chars@.take(i as int)).len() > 0,
            listed(chars@.take(i as int)).last() == chars@.subrange(start as int, i as int),
            texts(done@) == listed(chars@.take(i as int)).drop_last().map_values(dir),
        decreases chars@.len() - i,
    {
        let ghost before = listed(chars@.take(i as int));
        let ghost shown = texts(done@);
        assert(chars@.take(i + 1).drop_last() =~= chars@.take(i as int));
        assert(chars@.take(i + 1).last() == chars@[i as int]);
        if chars[i] == ':' {
            let text = text_between(chars.as_slice(), start, i);
            done.push(join(text.as_str(), "cargo"));
            proof {
                let now = listed(chars@.take(i + 1));
                assert(now.drop_last() =~= before);
                assert(before =~= before.drop_last().push(before.last()));
                assert(texts(done@) =~= shown.push(joined(before.last(), "cargo"@)));
                assert(before.map_values(dir) =~= before.drop_last().map_values(dir).push(
                    dir(before.last()),
                ));
                assert(chars@.subrange(i + 1, i + 1) =~= Seq::<char>::empty());
            }
            start = i + 1;
        } else {
            proof {
                let now = listed(chars@.take(i + 1));
                assert(now.drop_last() =~= before.drop_last());
                assert(chars@.subrange(start as int, i + 1) =~= chars@.subrange(
                    start as int,
                    i as int,
                ).push(chars@[i as int]));
            }
        }
        i += 1;
    }
    assert(chars@.take(i as int) =~= path_var@);
    let ghost all = listed(path_var@);
    let ghost shown = texts(done@);
    let text = text_between(chars.as_slice(), start, i);
    done.push(join(text.as_str(), "cargo"));
    assert(texts(done@) =~= shown.push(joined(all.last(), "cargo"@)));
    assert(all.map_values(dir) =~= all.drop_last().map_values(dir).push(dir(all.last())));
    assert(texts(done@) =~= cargo_places(path_var@));
    done
}

/// What was found where a `cargo` could be.
#[derive(Debug)]
pub enum Candidate {
    /// No file.
    Missing,
    /// A file whose canonical path cannot be told.
    Unresolved,
    /// A file with this canonical path.
    File(String),
}

/// A [`Candidate`] as contracts see it: the canonical path, where there is a file that has one.
pub open spec fn resolved_path(candidate: Candidate) -> Option<Seq<char>> {
    match candidate {
        Candidate::File(path) => Some(path@),
        _ => None,
    }
}

/// The candidates of a list, as contracts see them.
pub open spec fn resolved_paths(found: Seq<Candidate>) -> Seq<Option<Seq<char>>> {
    Seq::new(found.len(), |i: int| resolved_path(found[i]))
}

/// Whether a candidate is a cargo other than this program.
pub open spec fn is_real(candidate: Option<Seq<char>>, me: Seq<char>) -> bool {
    candidate matches Some(path) && path != me
}

/// The first real cargo, from `from` on.
pub open spec fn first_real(
    places: Seq<Seq<char>>,
    found: Seq<Option<Seq<char>>>,
    me: Seq<char>,
    from: int,
) -> Option<Seq<char>>
    decreases places.len() - from,
{
    if from >= places.len() || from >= found.len() {
        None
    } else if is_real(found[from], me) {
        Some(places[from])
    } else {
        first_real(places, found, me, from + 1)
    }
}

/// Finds a `cargo` on the search path that is not this program.
///
/// The shim is a symlink named `cargo` placed ahead of the real one, so searching the path the
/// ordinary way finds the shim and calls it forever. Comparing canonical paths, which resolves
/// the symlink, makes that loop impossible rather than merely unlikely, and works no matter
/// where cargo is installed.
///
/// `found` says of each of [`cargo_candidates`] in turn what is there, and `me` is the canonical
/// path of this program.
pub fn find_real_cargo(path_var: &str, me: &str, found: &[Candidate]) -> (r: Option<String>)
    ensures
        match r {
            Some(path) => first_real(cargo_places(path_var@), resolved_paths(found@), me@, 0)
                == Some(path@),
            None => first_real(cargo_places(path_var@), resolved_paths(found@), me@, 0) is None,
        },
{
    let places = cargo_candidates(path_var);
    let ghost all = texts(places@);
    let mut i: usize = 0;
    while i < places.len() && i < found.len()
        invariant
            i <= places@.len(),
            i <= found@.len(),
            all == texts(places@),
            all == cargo_places(path_var@),
            first_real(all, resolved_paths(found@), me@, 0) == first_real(
                all,
                resolved_paths(found@),
                me@,
                i as int,
            ),
        decreases places@.len() - i,
    {
        assert(resolved_paths(found@)[i as int] == resolved_path(found@[i as int]));
        assert(all[i as int] == places@[i as int]@);
        if let Candidate::File(path) = &found[i] {
            if !same_text(path.as_str(), me) {
                return Some(places[i].clone());
            }
        }
        i += 1;
    }
    None
}

/// The cargo that is found is never this program, so the shim cannot call itself.
pub proof fn law_the_shim_never_finds_itself(
    places: Seq<Seq<char>>,
    found: Seq<Option<Seq<char>>>,
    me: Seq<char>,
    from: int,
)
    requires
        0 <= from,
    ensures
        match first_real(places, found, me, from) {
            Some(place) => exists|i: int|
                from <= i < places.len() && i < found.len() && places[i] == place && is_real(
                    #[trigger] found[i],
                    me,
                ) && forall|j: int| from <= j < i ==> !is_real(#[trigger] found[j], me),
            None => forall|i: int|
                from <= i < places.len() && i < found.len() ==> !is_real(#[trigger] found[i], me),
        },
    decreases places.len() - from,
{
    if from < places.len() && from < found.len() && !is_real(found[from], me) {
        law_the_shim_never_finds_itself(places, found, me, from + 1);
        if let Some(place) = first_real(places, found, me, from + 1) {
            let i = choose|i: int|
                from + 1 <= i < places.len() && i < found.len() && places[i] == place && is_real(
                    #[trigger] found[i],
                    me,
                ) && forall|j: int| from + 1 <= j < i ==> !is_real(#[trigger] found[j], me);
            assert(is_real(found[i], me));
        }
    } else if from < places.len() && from < found.len() {
        assert(is_real(found[from], me));
    }
}

/// Whether an answer to the `[Y/n]` prompt is a yes: anything other than an explicit no.
pub open spec fn means_yes(answer: Seq<char>) -> bool {
    let word = small_letters(trimmed(answer));
    word != "n"@ && word != "no"@
}

/// Reads the answer to the `[Y/n]` fallback prompt. Anything other than an explicit no is a yes,
/// including an empty line.
pub fn answer_means_yes(input: &str) -> (r: bool)
    ensures
        r == means_yes(input@),
{
    let word = to_small_letters(trim(input).as_str());
    !(same_text(word.as_str(), "n") || same_text(word.as_str(), "no"))
}

/// What is told of a machine that cannot be reached.
pub fn unreachable_notice(host: &str, why: &str) -> (r: String)
    ensures
        r@ == "mamba: "@ + host@ + " unreachable ("@ + why@ + ")"@,
{
    glue5("mamba: ", host, " unreachable (", why, ")")
}

/// What is told where there is nobody to ask.
pub const NOBODY_TO_ASK: &'static str = "mamba: no terminal to ask on, building locally";

/// What is asked where there is somebody.
pub const PROMPT: &'static str = "mamba: build locally instead? [Y/n] ";

/// Tells the user that the remote is down, and whether to ask about a local build: gives the
/// lines to print, and whether [`PROMPT`] is to be put behind them.
///
/// When there is no terminal to ask on (inside `make`, a build script, or an editor's background
/// check) the build goes local without asking, because failing there would break tooling that
/// has nothing to do with remote builds.
pub fn offer_local_build(host: &str, why: &str, terminal: bool) -> (r: (Vec<String>, bool))
    ensures
        texts(r.0@) == seq!["mamba: "@ + host@ + " unreachable ("@ + why@ + ")"@] + (if terminal {
            Seq::empty()
        } else {
            seq![NOBODY_TO_ASK@]
        }),
        r.1 == terminal,
{
    let mut lines: Vec<String> = Vec::new();
    lines.push(unreachable_notice(host, why));
    if !terminal {
        lines.push(copy_text(NOBODY_TO_ASK));
    }
    assert(texts(lines@) =~= seq!["mamba: "@ + host@ + " unreachable ("@ + why@ + ")"@] + (
    if terminal {
        Seq::empty()
    } else {
        seq![NOBODY_TO_ASK@]
    }));
    (lines, terminal)
}

/// Whether to build locally after the remote could not be reached. `asked` is the answer that
/// was given, `None` where nobody was asked or no answer came, which counts as a yes.
pub fn build_locally(asked: Option<&str>) -> (r: bool)
    ensures
        r == (match maybe(asked) {
            Some(answer) => means_yes(answer),
            None => true,
        }),
{
    match asked {
        Some(answer) => answer_means_yes(answer),
        None => true,
    }
}

/// The exit code where there is no cargo but the shim.
pub const NO_CARGO: u8 = 127;

/// What is told where there is no cargo but the shim.
pub const NO_CARGO_NOTICE: &'static str = "mamba: no cargo found on PATH besides this shim";

/// The exit code where cargo cannot be started.
pub const CANNOT_START: u8 = 126;

/// What is told where cargo cannot be started.
pub fn cannot_start_notice(why: &str) -> (r: String)
    ensures
        r@ == "mamba: could not start cargo: "@ + why@,
{
    glue2("mamba: could not start cargo: ", why)
}

/// The exit status that stands for a build's exit code.
pub open spec fn clamped(code: i32) -> u8 {
    if code < 0 {
        0
    } else if code > 255 {
        255
    } else {
        code as u8
    }
}

/// The exit status that stands for a build's exit code: the nearest that a process can have.
pub fn exit_status(code: i32) -> (r: u8)
    ensures
        r == clamped(code),
{
    if code < 0 {
        0
    } else if code > 255 {
        255
    } else {
        code as u8
    }
}

/// A line to print.
#[derive(Debug)]
pub enum Line {
    /// A status line: a verb and a message.
    Status(String, String),
    /// A line as it is.
    Note(String),
}

/// A [`Line`] as contracts see it.
#[verifier::ext_equal]
pub enum LineView {
    Status(Seq<char>, Seq<char>),
    Note(Seq<char>),
}

impl View for Line {
    type V = LineView;

    open spec fn view(&self) -> LineView {
        match self {
            Line::Status(verb, message) => LineView::Status(verb@, message@),
            Line::Note(text) => LineView::Note(text@),
        }
    }
}

/// The lines of a list, as contracts see them.
pub open spec fn line_views(lines: Seq<Line>) -> Seq<LineView> {
    Seq::new(lines.len(), |i: int| lines[i]@)
}

/// A line as it is printed.
pub open spec fn printed(line: LineView, terminal: bool) -> Seq<char> {
    match line {
        LineView::Status(verb, message) => status_text(verb, message, terminal),
        LineView::Note(text) => text,
    }
}

impl Line {
    /// Words the line, for a terminal or not.
    pub fn render(&self, terminal: bool) -> (r: String)
        ensures
            r@ == printed(self@, terminal),
    {
        match self {
            Line::Status(verb, message) => status(verb.as_str(), message.as_str(), terminal),
            Line::Note(text) => text.clone(),
        }
    }
}

/// Something to be done for a remote build.
#[derive(Debug)]
pub enum Task {
    /// Push the project: run rsync with these arguments.
    Sync(Vec<String>),
    /// Build: run the command that [`Job::command`] gives over ssh.
    Build,
    /// Pull the binary back.
    Pull,
    /// Fetch the debug symbols.
    PullSymbols,
    /// Fetch the proc-macro libraries.
    SyncMacros,
    /// Offer a local build instead, for this reason.
    Offer(String),
    /// End with this exit status.
    Exit(u8),
}

/// A [`Task`] as contracts see it.
#[verifier::ext_equal]
pub enum TaskView {
    Sync(Seq<Seq<char>>),
    Build,
    Pull,
    PullSymbols,
    SyncMacros,
    Offer(Seq<char>),
    Exit(u8),
}

impl View for Task {
    type V = TaskView;

    open spec fn view(&self) -> TaskView {
        match self {
            Task::Sync(args) => TaskView::Sync(texts(args@)),
            Task::Build => TaskView::Build,
            Task::Pull => TaskView::Pull,
            Task::PullSymbols => TaskView::PullSymbols,
            Task::SyncMacros => TaskView::SyncMacros,
            Task::Offer(why) => TaskView::Offer(why@),
            Task::Exit(status) => TaskView::Exit(*status),
        }
    }
}

/// Where something landed, and how many bytes it has.
#[derive(Debug)]
pub struct Landed {
    pub path: String,
    pub size: u64,
}

/// How something that was to be done went.
#[derive(Debug)]
pub enum Report {
    /// How the push went.
    Synced(Result<(), String>),
    /// How the build went.
    Built(BuildOutcome),
    /// Where the binary landed, and how many seconds that took, to the hundredth.
    Pulled(Result<Landed, String>, String),
    /// Where the symbols landed.
    Symbols(Result<Landed, String>),
    /// How many proc-macro libraries there are.
    Macros(Result<usize, String>),
}

/// A [`Report`] as contracts see it.
#[verifier::ext_equal]
pub enum ReportView {
    Synced(Result<(), Seq<char>>),
    Built(OutcomeView),
    Pulled(Result<(Seq<char>, u64), Seq<char>>, Seq<char>),
    Symbols(Result<(Seq<char>, u64), Seq<char>>),
    Macros(Result<usize, Seq<char>>),
}

/// Where something landed, as contracts see it.
pub open spec fn landed_view(r: Result<Landed, String>) -> Result<(Seq<char>, u64), Seq<char>> {
    match r {
        Ok(landed) => Ok((landed.path@, landed.size)),
        Err(why) => Err(why@),
    }
}

impl View for Report {
    type V = ReportView;

    open spec fn view(&self) -> ReportView {
        match self {
            Report::Synced(r) => ReportView::Synced(
                match r {
                    Ok(_) => Ok(()),
                    Err(why) => Err(why@),
                },
            ),
            Report::Built(outcome) => ReportView::Built(outcome@),
            Report::Pulled(r, seconds) => ReportView::Pulled(landed_view(*r), seconds@),
            Report::Symbols(r) => ReportView::Symbols(landed_view(*r)),
            Report::Macros(r) => ReportView::Macros(
                match r {
                    Ok(n) => Ok(*n),
                    Err(why) => Err(why@),
                },
            ),
        }
    }
}

/// How far a remote build has come.
enum Progress {
    Syncing,
    Building,
    Pulling,
    PullingSymbols,
    SyncingMacros,
    Offering(String),
    Over(u8),
}

/// How far a remote build has come, as contracts see it.
#[verifier::ext_equal]
pub enum ProgressView {
    Syncing,
    Building,
    Pulling,
    PullingSymbols,
    SyncingMacros,
    Offering(Seq<char>),
    Over(u8),
}

spec fn progress_view(progress: Progress) -> ProgressView {
    match progress {
        Progress::Syncing => ProgressView::Syncing,
        Progress::Building => ProgressView::Building,
        Progress::Pulling => ProgressView::Pulling,
        Progress::PullingSymbols => ProgressView::PullingSymbols,
        Progress::SyncingMacros => ProgressView::SyncingMacros,
        Progress::Offering(why) => ProgressView::Offering(why@),
        Progress::Over(status) => ProgressView::Over(status),
    }
}

/// One remote build over plain ssh.
pub struct Job {
    config: Config,
    flags: Vec<String>,
    typed: Settings,
    progress: Progress,
}

/// A [`Job`] as contracts see it.
#[verifier::ext_equal]
pub struct JobView {
    pub config: ConfigView,
    /// Cargo's own flags, without the `build` subcommand.
    pub flags: Seq<Seq<char>>,
    /// The switches that were asked for on the command line.
    pub typed: u8,
    pub progress: ProgressView,
}

impl View for Job {
    type V = JobView;

    closed spec fn view(&self) -> JobView {
        JobView {
            config: self.config@,
            flags: texts(self.flags@),
            typed: self.typed@,
            progress: progress_view(self.progress),
        }
    }
}

impl JobView {
    /// A job that nothing has been done for yet.
    pub open spec fn start(config: ConfigView, args: Seq<Seq<char>>) -> JobView {
        JobView {
            config,
            flags: stripped(args).skip(1),
            typed: flag_bits(args),
            progress: ProgressView::Syncing,
        }
    }

    pub open spec fn at(self, progress: ProgressView) -> JobView {
        JobView { progress, ..self }
    }

    /// Whether the binary is wanted.
    pub open spec fn wants_binary(self) -> bool {
        is_on(self.typed, Switch::Pull) || self.config.pull
    }

    /// Whether the symbols are wanted, where the binary is.
    pub open spec fn wants_symbols(self) -> bool {
        is_on(self.typed, Switch::Symbols) || self.config.symbols
    }

    /// What is to be done next.
    pub open spec fn due(self) -> TaskView {
        match self.progress {
            ProgressView::Syncing => TaskView::Sync(
                upload_line(self.config.root, self.config.host, self.config.remote_dir),
            ),
            ProgressView::Building => TaskView::Build,
            ProgressView::Pulling => TaskView::Pull,
            ProgressView::PullingSymbols => TaskView::PullSymbols,
            ProgressView::SyncingMacros => TaskView::SyncMacros,
            ProgressView::Offering(why) => TaskView::Offer(why),
            ProgressView::Over(status) => TaskView::Exit(status),
        }
    }

    /// Whether a report says how what is due next went.
    pub open spec fn expects(self, report: ReportView) -> bool {
        match self.progress {
            ProgressView::Syncing => report is Synced,
            ProgressView::Building => report is Built,
            ProgressView::Pulling => report is Pulled,
            ProgressView::PullingSymbols => report is Symbols,
            ProgressView::SyncingMacros => report is Macros,
            _ => false,
        }
    }

    /// The command that builds the project over there. `read` is what reading the local manifest
    /// gave: where it names no binary, the step that splits debug info off is left out, because
    /// a missing optimisation must never fail a build.
    pub open spec fn command(self, read: Result<Seq<char>, Seq<char>>) -> Seq<char> {
        command_line(
            self.config.remote_dir,
            all_quoted(self.flags),
            match binary_name_in(manifest_path_of(self.config.root), read) {
                Ok(name) => split_text(profile_name(self.flags), name),
                Err(_) => ""@,
            },
        )
    }

    /// Where a report leads, and the lines it makes.
    pub open spec fn after(self, report: ReportView) -> (JobView, Seq<LineView>) {
        match (self.progress, report) {
            (ProgressView::Syncing, ReportView::Synced(Ok(_))) => (
                self.at(ProgressView::Building),
                Seq::empty(),
            ),
            (ProgressView::Syncing, ReportView::Synced(Err(why))) => (
                self.at(ProgressView::Offering(why)),
                Seq::empty(),
            ),
            (ProgressView::Building, ReportView::Built(OutcomeView::Finished(code))) => if code
                == 0 && self.wants_binary() {
                (
                    self.at(ProgressView::Pulling),
                    seq![
                        LineView::Status(
                            "Downloading"@,
                            root_name(self.config.root) + " from "@ + self.config.host,
                        ),
                    ],
                )
            } else {
                (self.at(ProgressView::Over(clamped(code))), Seq::empty())
            },
            (ProgressView::Building, ReportView::Built(OutcomeView::Unreachable(why))) => (
                self.at(ProgressView::Offering(why)),
                Seq::empty(),
            ),
            (ProgressView::Pulling, ReportView::Pulled(pulled, seconds)) => (
                self.at(
                    if self.wants_symbols() {
                        ProgressView::PullingSymbols
                    } else {
                        ProgressView::SyncingMacros
                    },
                ),
                seq![
                    match pulled {
                        Ok((path, size)) => LineView::Status(
                            "Downloaded"@,
                            path + " ("@ + size_text(size as nat) + ") in "@ + (seconds + "s"@),
                        ),
                        Err(why) => LineView::Note("mamba: pull failed: "@ + why),
                    },
                ],
            ),
            (ProgressView::PullingSymbols, ReportView::Symbols(fetched)) => (
                self.at(ProgressView::SyncingMacros),
                seq![
                    match fetched {
                        Ok((path, size)) => LineView::Status(
                            "Symbols"@,
                            path + " ("@ + size_text(size as nat) + ")"@,
                        ),
                        Err(why) => LineView::Note("mamba: symbols unavailable: "@ + why),
                    },
                ],
            ),
            (ProgressView::SyncingMacros, ReportView::Macros(count)) => (
                self.at(ProgressView::Over(0)),
                match count {
                    Ok(n) => if n == 0 {
                        Seq::empty()
                    } else {
                        seq![
                            LineView::Status(
                                "Macros"@,
                                decimal_form(n as nat) + " proc-macro libraries"@,
                            ),
                        ]
                    },
                    Err(why) => seq![LineView::Note("mamba: proc-macro sync failed: "@ + why)],
                },
            ),
            _ => (self, Seq::empty()),
        }
    }
}

fn no_lines() -> (r: Vec<Line>)
    ensures
        line_views(r@) == Seq::<LineView>::empty(),
{
    let lines: Vec<Line> = Vec::new();
    assert(line_views(lines@) =~= Seq::<LineView>::empty());
    lines
}

fn one_line(line: Line) -> (r: Vec<Line>)
    ensures
        line_views(r@) == seq![line@],
{
    let mut lines: Vec<Line> = Vec::new();
    lines.push(line);
    assert(line_views(lines@) =~= seq![line@]);
    lines
}

impl Job {
    /// A remote build of a project, for a command line that is a `build`; `args` is that line
    /// with the program name already removed. Also gives the line that announces it.
    pub fn new(config: Config, args: &[String]) -> (r: (Job, Line))
        requires
            is_build(stripped(texts(args@))),
        ensures
            r.0@ == JobView::start(config@, texts(args@)),
            r.1@ == LineView::Status("Syncing"@, root_name(config@.root) + " to "@ + config@.host),
    {
        let typed = Settings::from_flags(args);
        let mut flags = strip_flags(args);
        let ghost all = texts(flags@);
        let _ = flags.remove(0);
        assert(texts(flags@) =~= all.skip(1));
        let name = project_name(&config);
        let line = Line::Status(
            copy_text("Syncing"),
            glue3(name.as_str(), " to ", config.host.as_str()),
        );
        (Job { config, flags, typed, progress: Progress::Syncing }, line)
    }

    /// The settings of the project.
    pub fn config(&self) -> (r: &Config)
        ensures
            r@ == self@.config,
    {
        &self.config
    }

    /// Cargo's own flags.
    pub fn flags(&self) -> (r: &[String])
        ensures
            texts(r@) == self@.flags,
    {
        self.flags.as_slice()
    }

    /// What is to be done next.
    pub fn task(&self) -> (r: Task)
        ensures
            r@ == self@.due(),
    {
        match &self.progress {
            Progress::Syncing => Task::Sync(
                rsync_args(
                    self.config.root.as_path(),
                    self.config.host.as_str(),
                    &self.config.remote_dir,
                ),
            ),
            Progress::Building => Task::Build,
            Progress::Pulling => Task::Pull,
            Progress::PullingSymbols => Task::PullSymbols,
            Progress::SyncingMacros => Task::SyncMacros,
            Progress::Offering(why) => Task::Offer(why.clone()),
            Progress::Over(status) => Task::Exit(*status),
        }
    }

    /// The command that ssh runs. `read` is what reading the local manifest gave.
    ///
    /// Splitting runs on the host, using the CPU that is already paid for.
    pub fn command(&self, read: &Result<String, String>) -> (r: String)
        ensures
            r@ == self@.command(outcome(*read)),
    {
        let flags = quote_all(self.flags.as_slice());
        let post_build = match binary_name(self.config.root.as_path(), read) {
            Ok(name) => split_command(profile_of(self.flags.as_slice()), name.as_str()),
            Err(_) => copy_text(""),
        };
        remote_command(&self.config.remote_dir, flags.as_slice(), post_build.as_str())
    }

    /// Takes in how what was due went, and gives the lines to print. The pull steps never change
    /// the build's own exit code.
    pub fn step(&mut self, report: Report) -> (r: Vec<Line>)
        requires
            old(self)@.expects(report@),
        ensures
            final(self)@ == old(self)@.after(report@).0,
            line_views(r@) == old(self)@.after(report@).1,
    {
        let mut progress = Progress::Over(0);
        core::mem::swap(&mut progress, &mut self.progress);
        match (progress, report) {
            (Progress::Syncing, Report::Synced(Ok(_))) => {
                self.progress = Progress::Building;
                no_lines()
            },
            (Progress::Syncing, Report::Synced(Err(why))) => {
                self.progress = Progress::Offering(why);
                no_lines()
            },
            (Progress::Building, Report::Built(BuildOutcome::Finished(code))) => {
                if code == 0 && (self.typed.has(PULL) || self.config.pull) {
                    self.progress = Progress::Pulling;
                    let name = project_name(&self.config);
                    one_line(
                        Line::Status(
                            copy_text("Downloading"),
                            glue3(name.as_str(), " from ", self.config.host.as_str()),
                        ),
                    )
                } else {
                    self.progress = Progress::Over(exit_status(code));
                    no_lines()
                }
            },
            (Progress::Building, Report::Built(BuildOutcome::Unreachable(why))) => {
                self.progress = Progress::Offering(why);
                no_lines()
            },
            (Progress::Pulling, Report::Pulled(pulled, seconds)) => {
                if self.typed.has(SYMBOLS) || self.config.symbols {
                    self.progress = Progress::PullingSymbols;
                } else {
                    self.progress = Progress::SyncingMacros;
                }
                one_line(
                    match pulled {
                        Ok(landed) => Line::Status(
                            copy_text("Downloaded"),
                            glue5(
                                landed.path.as_str(),
                                " (",
                                human_size(landed.size).as_str(),
                                ") in ",
                                glue2(seconds.as_str(), "s").as_str(),
                            ),
                        ),
                        Err(why) => Line::Note(glue2("mamba: pull failed: ", why.as_str())),
                    },
                )
            },
            (Progress::PullingSymbols, Report::Symbols(fetched)) => {
                self.progress = Progress::SyncingMacros;
                one_line(
                    match fetched {
                        Ok(landed) => Line::Status(
                            copy_text("Symbols"),
                            glue4(
                                landed.path.as_str(),
                                " (",
                                human_size(landed.size).as_str(),
                                ")",
                            ),
                        ),
                        Err(why) => Line::Note(
                            glue2("mamba: symbols unavailable: ", why.as_str()),
                        ),
                    },
                )
            },
            (Progress::SyncingMacros, Report::Macros(count)) => {
                self.progress = Progress::Over(0);
                match count {
                    Ok(n) => {
                        if n == 0 {
                            no_lines()
                        } else {
                            one_line(
                                Line::Status(
                                    copy_text("Macros"),
                                    glue2(decimal(n as u64).as_str(), " proc-macro libraries"),
                                ),
                            )
                        }
                    },
                    Err(why) => one_line(
                        Line::Note(glue2("mamba: proc-macro sync failed: ", why.as_str())),
                    ),
                }
            },
            _ => no_lines(),
        }
    }
}

/// Where reports, one after the other, lead.
pub open spec fn job_after(job: JobView, reports: Seq<ReportView>) -> JobView
    decreases reports.len(),
{
    if reports.len() == 0 {
        job
    } else {
        job_after(job.after(reports[0]).0, reports.drop_first())
    }
}

/// Reports each of which says how what was due went.
pub open spec fn proper_reports(job: JobView, reports: Seq<ReportView>) -> bool
    decreases reports.len(),
{
    reports.len() == 0 || (job.expects(reports[0]) && proper_reports(
        job.after(reports[0]).0,
        reports.drop_first(),
    ))
}

/// How the build went, as far as that has been reported.
pub open spec fn build_reported(
    so_far: Option<OutcomeView>,
    reports: Seq<ReportView>,
) -> Option<OutcomeView>
    decreases reports.len(),
{
    if reports.len() == 0 {
        so_far
    } else {
        build_reported(
            match reports[0] {
                ReportView::Built(outcome) => Some(outcome),
                _ => so_far,
            },
            reports.drop_first(),
        )
    }
}

/// What a stage of a job says of how the build went: artifacts are fetched only after a build
/// that succeeded and only where the binary is wanted; a job that is over ended with the build's
/// own exit code; and a local build is offered only where the build never ran.
pub open spec fn consistent(job: JobView, built: Option<OutcomeView>) -> bool {
    match job.progress {
        ProgressView::Syncing => built is None,
        ProgressView::Building => built is None,
        ProgressView::Pulling | ProgressView::PullingSymbols | ProgressView::SyncingMacros =>
            built == Some(OutcomeView::Finished(0)) && job.wants_binary(),
        ProgressView::Offering(why) => built is None || built == Some(OutcomeView::Unreachable(why)),
        ProgressView::Over(status) => built matches Some(OutcomeView::Finished(code)) && status
            == clamped(code),
    }
}

/// From the announcement on, whatever is reported, in every stage: nothing is fetched unless the
/// build succeeded and the binary is wanted, nothing that happens to an artifact changes the exit
/// code, and a build that ran, failed or not, is never offered to be run locally.
pub proof fn law_job_follows_the_build(
    job: JobView,
    built: Option<OutcomeView>,
    reports: Seq<ReportView>,
)
    requires
        consistent(job, built),
        proper_reports(job, reports),
    ensures
        consistent(job_after(job, reports), build_reported(built, reports)),
    decreases reports.len(),
{
    if reports.len() > 0 {
        let next = job.after(reports[0]).0;
        let now = match reports[0] {
            ReportView::Built(outcome) => Some(outcome),
            _ => built,
        };
        assert(consistent(next, now));
        law_job_follows_the_build(next, now, reports.drop_first());
    }
}

/// A job that has just been announced is where the law above starts.
pub proof fn law_job_starts_consistent(config: ConfigView, args: Seq<Seq<char>>)
    ensures
        consistent(JobView::start(config, args), None),
{
}

/// What a `cargo` command line comes to.
pub enum Start {
    /// Hand these arguments to the real cargo.
    RunCargo(Vec<String>),
    /// Say this, and end with a failure.
    Refuse(String),
    /// Print this line, and take this build through its steps.
    Build(Job, Line),
}

/// A [`Start`] as contracts see it.
#[verifier::ext_equal]
pub enum StartView {
    RunCargo(Seq<Seq<char>>),
    Refuse(Seq<char>),
    Build(JobView, LineView),
}

impl View for Start {
    type V = StartView;

    open spec fn view(&self) -> StartView {
        match self {
            Start::RunCargo(args) => StartView::RunCargo(texts(args@)),
            Start::Refuse(why) => StartView::Refuse(why@),
            Start::Build(job, line) => StartView::Build(job@, line@),
        }
    }
}

/// What a command line, typed in a directory that may be unknown, comes to. Only `build` goes
/// remote, and only where a config file is found; a config file that is wrong is reported.
pub open spec fn begun(
    args: Seq<Seq<char>>,
    cwd: Option<Seq<char>>,
    files: Seq<Option<Result<Seq<char>, Seq<char>>>>,
) -> StartView {
    let cargo = stripped(args);
    match cwd {
        Some(dir) if is_build(cargo) => match discovered(dir, files) {
            None => StartView::RunCargo(cargo),
            Some(Err(e)) => StartView::Refuse("mamba: "@ + config_error_text(e)),
            Some(Ok(config)) => StartView::Build(
                JobView::start(config, args),
                LineView::Status("Syncing"@, root_name(config.root) + " to "@ + config.host),
            ),
        },
        _ => StartView::RunCargo(cargo),
    }
}

/// Decides what a `cargo` command line comes to, `args` being that line with the program name
/// already removed and `files` what was found where config files were looked for (see
/// [`Config::discover`]).
pub fn begin(
    args: &[String],
    cwd: Option<&str>,
    files: &[Option<Result<String, String>>],
) -> (r: Start)
    ensures
        r@ == begun(texts(args@), maybe(cwd), findings(files@)),
{
    let cargo = strip_flags(args);
    if !needs_project(args) {
        return Start::RunCargo(cargo);
    }
    let dir = match cwd {
        Some(dir) => dir,
        None => {
            return Start::RunCargo(cargo);
        },
    };
    match Config::discover(dir, files) {
        None => Start::RunCargo(cargo),
        Some(Err(e)) => Start::Refuse(glue2("mamba: ", e.message().as_str())),
        Some(Ok(config)) => {
            let (job, line) = Job::new(config, args);
            Start::Build(job, line)
        },
    }
}

/// Whatever a command line comes to, none of the library's own flags reaches a cargo, local or
/// remote, and the rest of the line is kept as it was typed.
pub proof fn law_start_strips_own_flags(
    args: Seq<Seq<char>>,
    cwd: Option<Seq<char>>,
    files: Seq<Option<Result<Seq<char>, Seq<char>>>>,
)
    ensures
        match begun(args, cwd, files) {
            StartView::RunCargo(line) => line == stripped(args),
            StartView::Refuse(_) => true,
            StartView::Build(job, _) => seq!["build"@] + job.flags == stripped(args) && forall|
                i: int,
            |
                0 <= i < job.flags.len() ==> !is_own_flag(#[trigger] job.flags[i]),
        },
{
    let cargo = stripped(args);
    crate::input::law_stripping(args, args);
    if let StartView::Build(job, line) = begun(args, cwd, files) {
        assert(seq!["build"@] + cargo.skip(1) =~= cargo);
        assert forall|i: int| 0 <= i < job.flags.len() implies !is_own_flag(
            #[trigger] job.flags[i],
        ) by {
            assert(job.flags[i] == cargo[i + 1]);
        }
    }
}

/// A remote build starts only for `build`, and only where a config file that is right was found.
pub proof fn law_only_configured_builds_start(
    args: Seq<Seq<char>>,
    cwd: Option<Seq<char>>,
    files: Seq<Option<Result<Seq<char>, Seq<char>>>>,
)
    ensures
        begun(args, cwd, files) is Build <==> is_build(stripped(args)) && (cwd matches Some(dir)
            && (discovered(dir, files) matches Some(found) && found is Ok)),
        begun(args, cwd, files) is Refuse <==> is_build(stripped(args)) && (cwd matches Some(dir)
            && (discovered(dir, files) matches Some(found) && found is Err)),
{
}

proof fn lemma_last_report(job: JobView, reports: Seq<ReportView>, report: ReportView)
    ensures
        job_after(job, reports.push(report)) == job_after(job, reports).after(report).0,
        proper_reports(job, reports.push(report)) <==> proper_reports(job, reports) && job_after(
            job,
            reports,
        ).expects(report),
    decreases reports.len(),
{
    let all = reports.push(report);
    reveal_with_fuel(job_after, 2);
    reveal_with_fuel(proper_reports, 2);
    if reports.len() == 0 {
        assert(all[0] == report);
        assert(all.drop_first() =~= Seq::<ReportView>::empty());
    } else {
        assert(all[0] == reports[0]);
        assert(all.drop_first() =~= reports.drop_first().push(report));
        lemma_last_report(job.after(reports[0]).0, reports.drop_first(), report);
    }
}

/// A job goes report by report: one more, which has to be one that is expected by then, leads on
/// from where the others led.
pub proof fn law_jobs_go_report_by_report(
    job: JobView,
    reports: Seq<ReportView>,
    report: ReportView,
)
    ensures
        job_after(job, Seq::empty()) == job,
        proper_reports(job, Seq::empty()),
        job_after(job, reports.push(report)) == job_after(job, reports).after(report).0,
        proper_reports(job, reports.push(report)) <==> proper_reports(job, reports) && job_after(
            job,
            reports,
        ).expects(report),
{
    lemma_last_report(job, reports, report);
}

/// What is expected is how the thing that is due went, and nothing is expected of a job that is
/// over or that offers a local build.
pub proof fn law_only_what_is_due_is_reported(job: JobView, report: ReportView)
    ensures
        job.expects(report) <==> match job.due() {
            TaskView::Sync(_) => report is Synced,
            TaskView::Build => report is Built,
            TaskView::Pull => report is Pulled,
            TaskView::PullSymbols => report is Symbols,
            TaskView::SyncMacros => report is Macros,
            TaskView::Offer(_) => false,
            TaskView::Exit(_) => false,
        },
{
}

proof fn lemma_job_keeps(config: ConfigView, args: Seq<Seq<char>>, reports: Seq<ReportView>)
    requires
        proper_reports(JobView::start(config, args), reports),
    ensures
        job_after(JobView::start(config, args), reports).config == config,
        job_after(JobView::start(config, args), reports).flags == stripped(args).skip(1),
        job_after(JobView::start(config, args), reports).typed == flag_bits(args),
    decreases reports.len(),
{
    let start = JobView::start(config, args);
    if reports.len() > 0 {
        let before = reports.drop_last();
        assert(before.push(reports.last()) =~= reports);
        lemma_last_report(start, before, reports.last());
        lemma_job_keeps(config, args, before);
    }
}

/// In every job, what is done next follows from what was just reported. After a build that
/// finished with zero the binary is pulled exactly where the command line holds `--mamba-pull` or
/// `--mamba-pull-symbols` or the config asks for it, and else the job ends at once; after the
/// binary, whatever became of it, the symbols are pulled exactly where the line holds
/// `--mamba-pull-symbols` or the config asks for them, and the libraries follow either way. A
/// build that finished with anything else ends the job with the nearest status to its code; one
/// that never ran is offered to be run locally, for the reason that was given.
pub proof fn law_what_a_job_does_follows_the_line_and_the_config(
    config: ConfigView,
    args: Seq<Seq<char>>,
    reports: Seq<ReportView>,
    report: ReportView,
)
    requires
        proper_reports(JobView::start(config, args), reports.push(report)),
    ensures
        JobView::start(config, args).due() == TaskView::Sync(
            upload_line(config.root, config.host, config.remote_dir),
        ),
        ({
            let now = job_after(JobView::start(config, args), reports.push(report)).due();
            let binary = args.contains("--mamba-pull"@) || args.contains("--mamba-pull-symbols"@)
                || config.pull;
            let symbols = args.contains("--mamba-pull-symbols"@) || config.symbols;
            match report {
                ReportView::Synced(Ok(_)) => now == TaskView::Build,
                ReportView::Synced(Err(why)) => now == TaskView::Offer(why),
                ReportView::Built(OutcomeView::Unreachable(why)) => now == TaskView::Offer(why),
                ReportView::Built(OutcomeView::Finished(code)) => {
                    &&& now == TaskView::Pull <==> code == 0 && binary
                    &&& code == 0 && !binary ==> now == TaskView::Exit(0)
                    &&& code < 0 ==> now == TaskView::Exit(0)
                    &&& code > 255 ==> now == TaskView::Exit(255)
                    &&& 0 < code <= 255 ==> (now matches TaskView::Exit(status) && status == code)
                },
                ReportView::Pulled(_, _) => {
                    &&& now == TaskView::PullSymbols <==> symbols
                    &&& now == TaskView::SyncMacros <==> !symbols
                },
                ReportView::Symbols(_) => now == TaskView::SyncMacros,
                ReportView::Macros(_) => now == TaskView::Exit(0),
            }
        }),
{
    let start = JobView::start(config, args);
    lemma_last_report(start, reports, report);
    lemma_job_keeps(config, args, reports);
    crate::input::law_what_a_command_line_turns_on(args);
}

/// The other way round: in every job a task is due only right after the report that calls for it,
/// and the binary and the symbols only where the line or the config asks for them.
pub proof fn law_nothing_is_pulled_unasked(
    config: ConfigView,
    args: Seq<Seq<char>>,
    reports: Seq<ReportView>,
)
    requires
        proper_reports(JobView::start(config, args), reports),
    ensures
        match job_after(JobView::start(config, args), reports).due() {
            TaskView::Sync(line) => reports.len() == 0 && line == upload_line(
                config.root,
                config.host,
                config.remote_dir,
            ),
            TaskView::Build => reports.len() > 0 && (reports.last() matches ReportView::Synced(
                Ok(_),
            )),
            TaskView::Pull => reports.len() > 0 && reports.last() == ReportView::Built(
                OutcomeView::Finished(0),
            ) && (args.contains("--mamba-pull"@) || args.contains("--mamba-pull-symbols"@)
                || config.pull),
            TaskView::PullSymbols => reports.len() > 0 && reports.last() is Pulled && (
            args.contains("--mamba-pull-symbols"@) || config.symbols),
            TaskView::SyncMacros => reports.len() > 0 && (reports.last() is Pulled
                || reports.last() is Symbols),
            TaskView::Offer(why) => reports.len() > 0 && (reports.last() == ReportView::Synced(
                Err(why),
            ) || reports.last() == ReportView::Built(OutcomeView::Unreachable(why))),
            TaskView::Exit(_) => reports.len() > 0 && (reports.last() is Built
                || reports.last() is Macros),
        },
{
    let start = JobView::start(config, args);
    crate::input::law_what_a_command_line_turns_on(args);
    lemma_job_keeps(config, args, reports);
    if reports.len() > 0 {
        let before = reports.drop_last();
        assert(before.push(reports.last()) =~= reports);
        lemma_last_report(start, before, reports.last());
        lemma_job_keeps(config, args, before);
    }
}

/// What is printed for each thing that is reported, in every job.
pub proof fn law_what_a_job_prints(
    config: ConfigView,
    args: Seq<Seq<char>>,
    reports: Seq<ReportView>,
    report: ReportView,
)
    requires
        proper_reports(JobView::start(config, args), reports.push(report)),
    ensures
        ({
            let lines = job_after(JobView::start(config, args), reports).after(report).1;
            let binary = args.contains("--mamba-pull"@) || args.contains("--mamba-pull-symbols"@)
                || config.pull;
            match report {
                ReportView::Synced(_) => lines.len() == 0,
                ReportView::Built(OutcomeView::Finished(code)) => if code == 0 && binary {
                    lines == seq![
                        LineView::Status(
                            "Downloading"@,
                            root_name(config.root) + " from "@ + config.host,
                        ),
                    ]
                } else {
                    lines.len() == 0
                },
                ReportView::Built(_) => lines.len() == 0,
                ReportView::Pulled(Ok((path, size)), seconds) => lines == seq![
                    LineView::Status(
                        "Downloaded"@,
                        path + " ("@ + size_text(size as nat) + ") in "@ + seconds + "s"@,
                    ),
                ],
                ReportView::Pulled(Err(why), _) => lines == seq![
                    LineView::Note("mamba: pull failed: "@ + why),
                ],
                ReportView::Symbols(Ok((path, size))) => lines == seq![
                    LineView::Status("Symbols"@, path + " ("@ + size_text(size as nat) + ")"@),
                ],
                ReportView::Symbols(Err(why)) => lines == seq![
                    LineView::Note("mamba: symbols unavailable: "@ + why),
                ],
                ReportView::Macros(Ok(n)) => if n == 0 {
                    lines.len() == 0
                } else {
                    lines == seq![
                        LineView::Status(
                            "Macros"@,
                            decimal_form(n as nat) + " proc-macro libraries"@,
                        ),
                    ]
                },
                ReportView::Macros(Err(why)) => lines == seq![
                    LineView::Note("mamba: proc-macro sync failed: "@ + why),
                ],
            }
        }),
{
    let start = JobView::start(config, args);
    lemma_last_report(start, reports, report);
    lemma_job_keeps(config, args, reports);
    crate::input::law_what_a_command_line_turns_on(args);
    if let ReportView::Pulled(Ok((path, size)), seconds) = report {
        let front = path + " ("@ + size_text(size as nat) + ") in "@;
        assert(front + (seconds + "s"@) =~= front + seconds + "s"@);
    }
}

/// In every job the command that builds over there is the one for the directory the config names,
/// with the flags that were typed behind `build`, each quoted; debug info is split off the binary
/// that the project's own manifest names, and nothing follows the build where it names none.
pub proof fn law_a_job_builds_what_was_typed(
    config: ConfigView,
    args: Seq<Seq<char>>,
    reports: Seq<ReportView>,
    read: Result<Seq<char>, Seq<char>>,
)
    requires
        proper_reports(JobView::start(config, args), reports),
        stripped(args).len() > 0,
        stripped(args)[0] == "build"@,
    ensures
        ({
            let job = job_after(JobView::start(config, args), reports);
            &&& seq!["build"@] + job.flags == stripped(args)
            &&& binary_name_in(joined(config.root, "Cargo.toml"@), read) matches Ok(name)
                ==> job.command(read) == command_line(
                config.remote_dir,
                all_quoted(job.flags),
                split_text(profile_name(job.flags), name),
            )
            &&& binary_name_in(joined(config.root, "Cargo.toml"@), read) is Err ==> job.command(
                read,
            ) == command_line(config.remote_dir, all_quoted(job.flags), Seq::empty())
        }),
{
    lemma_job_keeps(config, args, reports);
    reveal_strlit("");
    assert(""@ =~= Seq::<char>::empty());
    assert(seq!["build"@] + stripped(args).skip(1) =~= stripped(args));
}

/// The status that stands for a code is the code itself where a process can have it, and else
/// the nearest one that it can have.
pub proof fn law_statuses_are_the_nearest(code: i32)
    ensures
        0 <= code <= 255 ==> clamped(code) == code,
        code < 0 ==> clamped(code) == 0,
        code > 255 ==> clamped(code) == 255,
{
}

proof fn lemma_nearest(n: nat, d: nat, h: nat)
    requires
        d > 0,
        -(d as int) <= 2 * (h * d - n) <= d,
        2 * (h * d - n) == d || 2 * (h * d - n) == -(d as int) ==> h % 2 == 0,
    ensures
        half_even(n, d) == h,
{
    let q = (n / d) as int;
    let r = (n % d) as int;
    let k = h as int;
    let m = d as int;
    assert(n == q * m + r && 0 <= r < m) by (nonlinear_arith)
        requires
            q == n / d,
            r == n % d,
            m == d,
            d > 0,
    ;
    assert(h * d - n == (k - q) * m - r) by (nonlinear_arith)
        requires
            n == q * m + r,
            k == h,
            m == d,
    ;
    assert(k - q <= 1) by (nonlinear_arith)
        requires
            2 * ((k - q) * m - r) <= m,
            0 <= r < m,
            m > 0,
    ;
    assert(k - q >= 0) by (nonlinear_arith)
        requires
            -m <= 2 * ((k - q) * m - r),
            0 <= r < m,
            m > 0,
    ;
    if k == q {
        assert((k - q) * m == 0) by (nonlinear_arith)
            requires
                k == q,
        ;
    } else {
        assert((k - q) * m == m) by (nonlinear_arith)
            requires
                k == q + 1,
        ;
    }
}

/// Rounding gives the nearest whole number, and of two that are as near the even one: whatever is
/// that near, and even where it is halfway, is what rounding gives.
pub proof fn law_rounding_is_to_the_nearest(n: nat, d: nat, h: nat)
    requires
        d > 0,
        -(d as int) <= 2 * (h * d - n) <= d,
        2 * (h * d - n) == d || 2 * (h * d - n) == -(d as int) ==> h % 2 == 0,
    ensures
        half_even(n, d) == h,
{
    lemma_nearest(n, d, h);
}

/// How coarsely a number is kept: every number below the fifty-third power of two as it is, and
/// twice as coarsely for twice the number from there on.
pub proof fn law_large_numbers_are_kept_coarsely(n: nat)
    ensures
        n < 9007199254740992 ==> quantum(n) == 1,
        n >= 4503599627370496 ==> quantum(2 * n) == 2 * quantum(n) && quantum(2 * n + 1) == 2
            * quantum(n),
{
    assert((2 * n) / 2 == n && (2 * n + 1) / 2 == n);
}

/// How a byte count is written: below a kilobyte in whole bytes, and from there on in hundredths
/// of the largest unit it fills, to the nearest one. `hundredths` is any number that is as near
/// to the size as rounding allows, even where two are as near.
pub proof fn law_sizes_are_written_to_the_hundredth(bytes: nat, hundredths: nat)
    ensures
        ({
            let size = fifty_three_digits(bytes);
            let unit: nat = if size < 1048576 {
                1024
            } else if size < 1073741824 {
                1048576
            } else {
                1073741824
            };
            let name = if size < 1048576 {
                " KB"@
            } else if size < 1073741824 {
                " MB"@
            } else {
                " GB"@
            };
            let off = 2 * (hundredths * unit - 100 * size);
            &&& size < 1024 ==> size_text(bytes) == decimal_form(bytes) + " B"@
            &&& size >= 1024 && -(unit as int) <= off <= unit && (off == unit || off == -(
            unit as int) ==> hundredths % 2 == 0) ==> size_text(bytes) == decimal_form(
                hundredths / 100,
            ) + seq![
                '.',
                (48 + (hundredths / 10) % 10) as char,
                (48 + hundredths % 10) as char,
            ] + name
        }),
{
    let size = fifty_three_digits(bytes);
    let unit: nat = if size < 1048576 {
        1024
    } else if size < 1073741824 {
        1048576
    } else {
        1073741824
    };
    let off = 2 * (hundredths * unit - 100 * size);
    if size >= 1024 && -(unit as int) <= off <= unit && (off == unit || off == -(unit as int)
        ==> hundredths % 2 == 0) {
        lemma_nearest(100 * size, unit, hundredths);
    }
}

proof fn lemma_listing_one(dir: Seq<char>)
    requires
        !dir.contains(':'),
    ensures
        listed(dir) == seq![dir],
    decreases dir.len(),
{
    if dir.len() == 0 {
        assert(dir =~= Seq::<char>::empty());
    } else {
        let front = dir.drop_last();
        assert(!front.contains(':')) by {
            if front.contains(':') {
                let i = choose|i: int| 0 <= i < front.len() && front[i] == ':';
                assert(dir[i] == ':');
            }
        }
        lemma_listing_one(front);
        assert(dir.last() != ':') by {
            assert(dir[dir.len() - 1] == dir.last());
        }
        assert(front.push(dir.last()) =~= dir);
        assert(listed(dir) =~= seq![dir]);
    }
}

proof fn lemma_listing_two(a: Seq<char>, b: Seq<char>)
    ensures
        listed(a.push(':') + b) == listed(a) + listed(b),
        listed(b).len() > 0,
    decreases b.len(),
{
    let all = a.push(':') + b;
    if b.len() == 0 {
        assert(all =~= a.push(':'));
        assert(a.push(':').drop_last() =~= a);
        assert(listed(a.push(':')) =~= listed(a).push(Seq::empty()));
        assert(listed(a) + listed(b) =~= listed(a).push(Seq::empty()));
    } else {
        let front = b.drop_last();
        lemma_listing_two(a, front);
        assert(all.drop_last() =~= a.push(':') + front);
        assert(all.last() == b.last());
        let whole = listed(a) + listed(front);
        if b.last() == ':' {
            assert(whole.push(Seq::empty()) =~= listed(a) + listed(front).push(Seq::empty()));
        } else {
            assert(whole.last() == listed(front).last());
            assert(whole.update(whole.len() - 1, whole.last().push(b.last())) =~= listed(a)
                + listed(front).update(
                listed(front).len() - 1,
                listed(front).last().push(b.last()),
            ));
        }
    }
}

/// A search path without a colon lists one directory, in which a `cargo` is looked for; one with
/// a colon lists what its two sides list, the left side first.
pub proof fn law_a_search_path_is_read_from_left_to_right(a: Seq<char>, b: Seq<char>)
    ensures
        !a.contains(':') ==> listed(a) == seq![a],
        !a.contains(':') ==> cargo_places(a) == seq![joined(a, "cargo"@)],
        listed(a.push(':') + b) == listed(a) + listed(b),
        cargo_places(a.push(':') + b) == cargo_places(a) + cargo_places(b),
{
    lemma_listing_two(a, b);
    assert(cargo_places(a.push(':') + b) =~= cargo_places(a) + cargo_places(b));
    if !a.contains(':') {
        lemma_listing_one(a);
        assert(cargo_places(a) =~= seq![joined(a, "cargo"@)]);
    }
}

proof fn lemma_first_real_at(
    places: Seq<Seq<char>>,
    found: Seq<Option<Seq<char>>>,
    me: Seq<char>,
    from: int,
    at: int,
)
    requires
        0 <= from <= at < places.len(),
        at < found.len(),
        found[at] matches Some(path) && path != me,
        forall|j: int| from <= j < at ==> #[trigger] found[j] is None || found[j] == Some(me),
    ensures
        first_real(places, found, me, from) == Some(places[at]),
    decreases at - from,
{
    if from < at {
        assert(found[from] is None || found[from] == Some(me));
        lemma_first_real_at(places, found, me, from + 1, at);
    }
}

/// The real cargo is at the first place where there is a file that is not this program, and there
/// is none where every place is empty or holds this program.
pub proof fn law_the_first_other_cargo_is_the_real_one(
    places: Seq<Seq<char>>,
    found: Seq<Option<Seq<char>>>,
    me: Seq<char>,
    at: int,
)
    ensures
        0 <= at < places.len() && at < found.len() && (found[at] matches Some(path) && path != me)
            && (forall|j: int| 0 <= j < at ==> #[trigger] found[j] is None || found[j] == Some(me))
            ==> first_real(places, found, me, 0) == Some(places[at]),
        (forall|j: int|
            0 <= j < found.len() && j < places.len() ==> #[trigger] found[j] is None || found[j]
                == Some(me)) ==> first_real(places, found, me, 0) is None,
{
    if 0 <= at < places.len() && at < found.len() && (found[at] matches Some(path) && path != me)
        && (forall|j: int| 0 <= j < at ==> #[trigger] found[j] is None || found[j] == Some(me)) {
        lemma_first_real_at(places, found, me, 0, at);
    }
    if forall|j: int|
        0 <= j < found.len() && j < places.len() ==> #[trigger] found[j] is None || found[j] == Some(
            me,
        ) {
        law_the_shim_never_finds_itself(places, found, me, 0);
    }
}

/// Only an `n` and a `no` mean no, in small letters or capital ones, whatever white space is
/// around them; everything else means yes, an empty line included.
pub proof fn law_only_a_no_means_no(answer: Seq<char>)
    ensures
        ({
            let word = trimmed(answer);
            &&& word.len() == 0 ==> means_yes(answer)
            &&& word.len() == 1 ==> (means_yes(answer) <==> word[0] != 'n' && word[0] != 'N')
            &&& word.len() == 2 ==> (means_yes(answer) <==> !((word[0] == 'n' || word[0] == 'N') && (
            word[1] == 'o' || word[1] == 'O')))
            &&& word.len() > 2 ==> means_yes(answer)
        }),
{
    let word = trimmed(answer);
    let small = small_letters(word);
    crate::text::law_small_letters(word);
    reveal_strlit("n");
    reveal_strlit("no");
    assert("n"@.len() == 1 && "n"@[0] == 'n');
    assert("no"@.len() == 2 && "no"@[0] == 'n' && "no"@[1] == 'o');
    if word.len() == 1 {
        if word[0] == 'n' || word[0] == 'N' {
            assert(small[0] == 'n');
            assert(small =~= "n"@);
        } else {
            assert(small[0] != 'n');
        }
    }
    if word.len() == 2 {
        if (word[0] == 'n' || word[0] == 'N') && (word[1] == 'o' || word[1] == 'O') {
            assert(small[0] == 'n' && small[1] == 'o');
            assert(small =~= "no"@);
        } else {
            assert(small[0] != 'n' || small[1] != 'o');
        }
    }
}

/// A status line has its verb at the right end of twelve columns, or in full where it is longer,
/// then a space and the message; on a terminal the verb is bold and green.
pub proof fn law_status_lines(verb: Seq<char>, message: Seq<char>)
    ensures
        ({
            let plain = status_text(verb, message, false);
            let lead = plain.len() - verb.len() - 1 - message.len();
            &&& lead == (if verb.len() < 12 {
                12 - verb.len()
            } else {
                0
            })
            &&& plain == plain.take(lead) + verb + seq![' '] + message
            &&& forall|i: int| 0 <= i < lead ==> #[trigger] plain[i] == ' '
            &&& status_text(verb, message, true) == "\x1b[1m\x1b[92m"@ + plain.take(lead) + verb
                + "\x1b[0m "@ + message
        }),
        printed(LineView::Status(verb, message), true) == status_text(verb, message, true),
        printed(LineView::Status(verb, message), false) == status_text(verb, message, false),
        printed(LineView::Note(message), true) == message,
        printed(LineView::Note(message), false) == message,
{
    reveal_strlit(" ");
    let plain = status_text(verb, message, false);
    let gap: nat = if verb.len() < 12 {
        (12 - verb.len()) as nat
    } else {
        0
    };
    assert(" "@ =~= seq![' ']);
    assert(right_aligned(verb, 12) =~= spaces(gap) + verb);
    assert(plain.take(gap as int) =~= spaces(gap));
    assert(plain =~= spaces(gap) + verb + seq![' '] + message);
    let bold = "\x1b[1m\x1b[92m"@;
    assert(bold + (spaces(gap) + verb) =~= bold + spaces(gap) + verb);
}

/// What a command line comes to: cargo's own business unless it is a `build` typed in a known
/// directory with a config file on the way up, a refusal where that file is wrong, and else the
/// build it configures, announced with the project's name and the host.
pub proof fn law_how_a_command_line_begins(
    args: Seq<Seq<char>>,
    cwd: Option<Seq<char>>,
    files: Seq<Option<Result<Seq<char>, Seq<char>>>>,
)
    ensures
        stripped(args).len() == 0 || stripped(args)[0] != "build"@ || cwd is None ==> begun(
            args,
            cwd,
            files,
        ) == StartView::RunCargo(stripped(args)),
        stripped(args).len() > 0 && stripped(args)[0] == "build"@ ==> (cwd matches Some(dir) ==> (
        match discovered(dir, files) {
            None => begun(args, cwd, files) == StartView::RunCargo(stripped(args)),
            Some(Err(e)) => begun(args, cwd, files) == StartView::Refuse(
                "mamba: "@ + config_error_text(e),
            ),
            Some(Ok(config)) => begun(args, cwd, files) == StartView::Build(
                JobView::start(config, args),
                LineView::Status("Syncing"@, root_name(config.root) + " to "@ + config.host),
            ),
        })),
        started_as_cargo(None) == false,
        cwd matches Some(path) ==> (started_as_cargo(cwd) <==> crate::paths::file_name(path) == Some(
            "cargo"@,
        )),
{
}

/// Only a file whose canonical path can be told is seen as one; and what was reported is seen as
/// it was.
pub proof fn law_reports_are_seen_as_they_are(
    found: Seq<Candidate>,
    i: int,
    report: Report,
)
    ensures
        resolved_paths(found).len() == found.len(),
        0 <= i < found.len() ==> (match found[i] {
            Candidate::Missing => resolved_paths(found)[i] is None,
            Candidate::Unresolved => resolved_paths(found)[i] is None,
            Candidate::File(path) => resolved_paths(found)[i] == Some(path@),
        }),
        match report {
            Report::Synced(Ok(_)) => report@ matches ReportView::Synced(Ok(_)),
            Report::Synced(Err(why)) => report@ == ReportView::Synced(Err(why@)),
            Report::Built(BuildOutcome::Finished(code)) => report@ == ReportView::Built(
                OutcomeView::Finished(code),
            ),
            Report::Built(BuildOutcome::Unreachable(why)) => report@ == ReportView::Built(
                OutcomeView::Unreachable(why@),
            ),
            Report::Pulled(Ok(landed), seconds) => report@ == ReportView::Pulled(
                Ok((landed.path@, landed.size)),
                seconds@,
            ),
            Report::Pulled(Err(why), seconds) => report@ == ReportView::Pulled(
                Err(why@),
                seconds@,
            ),
            Report::Symbols(Ok(landed)) => report@ == ReportView::Symbols(
                Ok((landed.path@, landed.size)),
            ),
            Report::Symbols(Err(why)) => report@ == ReportView::Symbols(Err(why@)),
            Report::Macros(Ok(n)) => report@ == ReportView::Macros(Ok(n)),
            Report::Macros(Err(why)) => report@ == ReportView::Macros(Err(why@)),
        },
{
}

/// A task that is due is seen as it is.
pub proof fn law_tasks_are_seen_as_they_are(task: Task)
    ensures
        match task {
            Task::Sync(args) => task@ == TaskView::Sync(texts(args@)),
            Task::Build => task@ == TaskView::Build,
            Task::Pull => task@ == TaskView::Pull,
            Task::PullSymbols => task@ == TaskView::PullSymbols,
            Task::SyncMacros => task@ == TaskView::SyncMacros,
            Task::Offer(why) => task@ == TaskView::Offer(why@),
            Task::Exit(status) => task@ == TaskView::Exit(status),
        },
{
}

/// The statuses that say that cargo was not found, or could not be started, are those a shell
/// ends with for a command that it does not find or cannot run. A build's own status is either of
/// them exactly where the build ended with that code.
pub proof fn law_statuses_of_a_shell(code: i32)
    ensures
        NO_CARGO == 127,
        CANNOT_START == 126,
        0 <= code <= 255 ==> (clamped(code) == NO_CARGO <==> code == 127),
        0 <= code <= 255 ==> (clamped(code) == CANNOT_START <==> code == 126),
{
}

} // verus!
