//! The wire format between the `cargo` shim and the daemon.
//!
//! Length-prefixed frames. The shim runs on every cargo invocation on the machine, so the
//! format stays free of serialization crates: the few dozen lines here are cheaper than the
//! dependency.
//!
//! An [`Invocation`] travels one way; this module only carries it, [`crate::input`] decides
//! what is in it. Frames travel back until a [`Frame::Exit`], which always ends the
//! conversation.
//!
//! Readers work on the bytes that have arrived so far. [`WireError::Truncated`] says that more
//! are needed, and more never change what was already read.

use crate::input::{
    error_text, home_dir, mamba_home, plain_host, project_name_of, settled, ErrorView, Host,
    InputError, Invocation, InvocationView, ProjectId, ProjectRoot, Settings,
};
use crate::paths::{join, joined};
use crate::text::{copy_text, decimal, decimal_form, glue2, maybe, text_from_utf8, texts, utf8_complaint};
use vstd::prelude::*;
use vstd::slice::{slice_subrange, slice_to_vec};
use vstd::utf8::{decode_utf8, encode_utf8, valid_utf8};

verus! {

/// One message from the daemon back to the shim.
#[derive(Debug, Clone, PartialEq, Eq)]
pub enum Frame {
    Stdout(Vec<u8>),
    Stderr(Vec<u8>),
    /// A cargo-style status line: a verb and a message.
    Status(String, String),
    /// The build never ran. The shim offers a local build when it sees this.
    Failed(String),
    /// The build's own exit code. Always the last frame.
    Exit(i32),
}

/// A [`Frame`] as contracts see it.
#[verifier::ext_equal]
pub enum FrameView {
    Stdout(Seq<u8>),
    Stderr(Seq<u8>),
    Status(Seq<char>, Seq<char>),
    Failed(Seq<char>),
    Exit(i32),
}

impl View for Frame {
    type V = FrameView;

    open spec fn view(&self) -> FrameView {
        match self {
            Frame::Stdout(bytes) => FrameView::Stdout(bytes@),
            Frame::Stderr(bytes) => FrameView::Stderr(bytes@),
            Frame::Status(verb, message) => FrameView::Status(verb@, message@),
            Frame::Failed(why) => FrameView::Failed(why@),
            Frame::Exit(code) => FrameView::Exit(*code),
        }
    }
}

/// Every way that bytes can fail to be a message.
#[derive(Debug, Clone, PartialEq, Eq)]
pub enum WireError {
    /// The bytes end before the message does.
    Truncated,
    /// A text is not UTF-8, and in what way.
    InvalidText(String),
    /// No frame has this tag.
    UnknownTag(u8),
    /// The host is not a plain ssh destination.
    BadHost(String),
}

/// A [`WireError`] as contracts see it.
#[verifier::ext_equal]
pub enum WireErrorView {
    Truncated,
    InvalidText(Seq<char>),
    UnknownTag(u8),
    BadHost(Seq<char>),
}

impl View for WireError {
    type V = WireErrorView;

    open spec fn view(&self) -> WireErrorView {
        match self {
            WireError::Truncated => WireErrorView::Truncated,
            WireError::InvalidText(why) => WireErrorView::InvalidText(why@),
            WireError::UnknownTag(tag) => WireErrorView::UnknownTag(*tag),
            WireError::BadHost(host) => WireErrorView::BadHost(host@),
        }
    }
}

/// What is told of an error.
pub open spec fn wire_error_text(e: WireErrorView) -> Seq<char> {
    match e {
        WireErrorView::Truncated => "failed to fill whole buffer"@,
        WireErrorView::InvalidText(why) => why,
        WireErrorView::UnknownTag(tag) => "unknown frame tag "@ + decimal_form(tag as nat),
        WireErrorView::BadHost(host) => error_text(ErrorView::BadHost(host)),
    }
}

impl WireError {
    /// What to tell of the error.
    pub fn message(&self) -> (r: String)
        ensures
            r@ == wire_error_text(self@),
    {
        match self {
            WireError::Truncated => copy_text("failed to fill whole buffer"),
            WireError::InvalidText(why) => why.clone(),
            WireError::UnknownTag(tag) => glue2("unknown frame tag ", decimal(*tag as u64).as_str()),
            WireError::BadHost(host) => InputError::BadHost(host.clone()).message(),
        }
    }
}

/// Where the daemon listens, `home` being the user's home directory.
pub fn socket_path(home: Option<&str>) -> (r: String)
    ensures
        r@ == joined(home_dir(maybe(home)), "daemon.sock"@),
{
    join(mamba_home(home).as_str(), "daemon.sock")
}

/// The four bytes of a number, the most significant first. Of a number that needs more than
/// four, the four least significant.
pub open spec fn be_bytes(n: nat) -> Seq<u8> {
    seq![
        ((n / 16777216) % 256) as u8,
        ((n / 65536) % 256) as u8,
        ((n / 256) % 256) as u8,
        (n % 256) as u8,
    ]
}

/// The number whose bytes a text of bytes begins with.
pub open spec fn be_value(bytes: Seq<u8>) -> nat {
    (bytes[0] as nat) * 16777216 + (bytes[1] as nat) * 65536 + (bytes[2] as nat) * 256 + (
    bytes[3] as nat)
}

/// A signed number as the unsigned one with the same four bytes.
pub open spec fn unsigned_of(n: i32) -> nat {
    if n < 0 {
        (n + 4294967296) as nat
    } else {
        n as nat
    }
}

/// The signed number with the four bytes of an unsigned one.
pub open spec fn signed_of(n: nat) -> i32 {
    if n >= 2147483648 {
        (n - 4294967296) as i32
    } else {
        n as i32
    }
}

/// Bytes behind their length.
pub open spec fn with_length(bytes: Seq<u8>) -> Seq<u8> {
    be_bytes(bytes.len()) + bytes
}

/// A text behind its length.
pub open spec fn text_bytes(text: Seq<char>) -> Seq<u8> {
    with_length(encode_utf8(text))
}

/// Texts one after the other, each behind its length.
pub open spec fn list_bytes(list: Seq<Seq<char>>) -> Seq<u8>
    decreases list.len(),
{
    if list.len() == 0 {
        Seq::empty()
    } else {
        text_bytes(list[0]) + list_bytes(list.drop_first())
    }
}

/// The bytes of a frame.
pub open spec fn frame_bytes(frame: FrameView) -> Seq<u8> {
    match frame {
        FrameView::Stdout(bytes) => seq![1u8] + with_length(bytes),
        FrameView::Stderr(bytes) => seq![2u8] + with_length(bytes),
        FrameView::Status(verb, message) => seq![3u8] + text_bytes(verb) + text_bytes(message),
        FrameView::Failed(why) => seq![4u8] + text_bytes(why),
        FrameView::Exit(code) => seq![5u8] + be_bytes(unsigned_of(code)),
    }
}

/// The bytes of an invocation.
pub open spec fn invocation_bytes(invocation: InvocationView) -> Seq<u8> {
    be_bytes(invocation.flags.len()) + list_bytes(invocation.flags) + text_bytes(invocation.root)
        + text_bytes(invocation.host) + text_bytes(invocation.project_id) + seq![
        invocation.settings,
    ]
}

/// The number that bytes begin with, and the bytes behind it.
pub open spec fn read_number(bytes: Seq<u8>) -> Result<(nat, Seq<u8>), WireErrorView> {
    if bytes.len() < 4 {
        Err(WireErrorView::Truncated)
    } else {
        Ok((be_value(bytes), bytes.skip(4)))
    }
}

/// The bytes behind the length that bytes begin with, as many as it says, and what follows.
pub open spec fn read_counted(bytes: Seq<u8>) -> Result<(Seq<u8>, Seq<u8>), WireErrorView> {
    match read_number(bytes) {
        Err(e) => Err(e),
        Ok((n, rest)) => if rest.len() < n {
            Err(WireErrorView::Truncated)
        } else {
            Ok((rest.take(n as int), rest.skip(n as int)))
        },
    }
}

/// The text behind the length that bytes begin with, and what follows.
pub open spec fn read_text(bytes: Seq<u8>) -> Result<(Seq<char>, Seq<u8>), WireErrorView> {
    match read_counted(bytes) {
        Err(e) => Err(e),
        Ok((held, rest)) => if valid_utf8(held) {
            Ok((decode_utf8(held), rest))
        } else {
            Err(WireErrorView::InvalidText(utf8_complaint(held)))
        },
    }
}

/// So many texts, one after the other, and what follows.
pub open spec fn read_list(bytes: Seq<u8>, count: nat) -> Result<
    (Seq<Seq<char>>, Seq<u8>),
    WireErrorView,
>
    decreases count,
{
    if count == 0 {
        Ok((Seq::empty(), bytes))
    } else {
        match read_text(bytes) {
            Err(e) => Err(e),
            Ok((first, rest)) => match read_list(rest, (count - 1) as nat) {
                Err(e) => Err(e),
                Ok((more, end)) => Ok((seq![first] + more, end)),
            },
        }
    }
}

/// The frame that bytes begin with, and what follows; `None` where there are no bytes.
pub open spec fn decoded_frame(bytes: Seq<u8>) -> Result<
    Option<(FrameView, Seq<u8>)>,
    WireErrorView,
> {
    if bytes.len() == 0 {
        Ok(None)
    } else {
        let tag = bytes[0];
        let body = bytes.skip(1);
        if tag == 1 {
            match read_counted(body) {
                Err(e) => Err(e),
                Ok((held, rest)) => Ok(Some((FrameView::Stdout(held), rest))),
            }
        } else if tag == 2 {
            match read_counted(body) {
                Err(e) => Err(e),
                Ok((held, rest)) => Ok(Some((FrameView::Stderr(held), rest))),
            }
        } else if tag == 3 {
            match read_text(body) {
                Err(e) => Err(e),
                Ok((verb, rest)) => match read_text(rest) {
                    Err(e) => Err(e),
                    Ok((message, end)) => Ok(Some((FrameView::Status(verb, message), end))),
                },
            }
        } else if tag == 4 {
            match read_text(body) {
                Err(e) => Err(e),
                Ok((why, rest)) => Ok(Some((FrameView::Failed(why), rest))),
            }
        } else if tag == 5 {
            match read_number(body) {
                Err(e) => Err(e),
                Ok((n, rest)) => Ok(Some((FrameView::Exit(signed_of(n)), rest))),
            }
        } else {
            Err(WireErrorView::UnknownTag(tag))
        }
    }
}

/// The rest of an invocation whose flags, root and host are known: its name and its switches,
/// each put through the check that guards it.
pub open spec fn decoded_behind_host(
    flags: Seq<Seq<char>>,
    root: Seq<char>,
    host: Seq<char>,
    bytes: Seq<u8>,
) -> Result<(InvocationView, Seq<u8>), WireErrorView> {
    match read_text(bytes) {
        Err(e) => Err(e),
        Ok((name, rest)) => if rest.len() == 0 {
            Err(WireErrorView::Truncated)
        } else {
            Ok(
                (
                    InvocationView {
                        root,
                        host,
                        project_id: project_name_of(name),
                        settings: settled(rest[0]),
                        flags,
                    },
                    rest.skip(1),
                ),
            )
        },
    }
}

/// The rest of an invocation whose flags are known. A host that is not plain is refused.
pub open spec fn decoded_behind_flags(flags: Seq<Seq<char>>, bytes: Seq<u8>) -> Result<
    (InvocationView, Seq<u8>),
    WireErrorView,
> {
    match read_text(bytes) {
        Err(e) => Err(e),
        Ok((root, behind_root)) => match read_text(behind_root) {
            Err(e) => Err(e),
            Ok((host, behind_host)) => if !plain_host(host) {
                Err(WireErrorView::BadHost(host))
            } else {
                decoded_behind_host(flags, root, host, behind_host)
            },
        },
    }
}

/// The invocation that bytes begin with, and what follows.
pub open spec fn decoded_invocation(bytes: Seq<u8>) -> Result<
    (InvocationView, Seq<u8>),
    WireErrorView,
> {
    match read_number(bytes) {
        Err(e) => Err(e),
        Ok((count, behind_count)) => match read_list(behind_count, count) {
            Err(e) => Err(e),
            Ok((flags, behind_flags)) => decoded_behind_flags(flags, behind_flags),
        },
    }
}

fn write_number(out: &mut Vec<u8>, n: u64)
    ensures
        final(out)@ == old(out)@ + be_bytes(n as nat),
{
    out.push(((n / 16777216) % 256) as u8);
    out.push(((n / 65536) % 256) as u8);
    out.push(((n / 256) % 256) as u8);
    out.push((n % 256) as u8);
    assert(out@ =~= old(out)@ + be_bytes(n as nat));
}

fn write_raw(out: &mut Vec<u8>, bytes: &[u8])
    ensures
        final(out)@ == old(out)@ + bytes@,
{
    let mut i: usize = 0;
    while i < bytes.len()
        invariant
            i <= bytes@.len(),
            out@ == old(out)@ + bytes@.take(i as int),
        decreases bytes@.len() - i,
    {
        out.push(bytes[i]);
        assert(out@ =~= old(out)@ + bytes@.take(i + 1));
        i += 1;
    }
    assert(bytes@.take(i as int) =~= bytes@);
}

fn write_bytes(out: &mut Vec<u8>, bytes: &[u8])
    ensures
        final(out)@ == old(out)@ + with_length(bytes@),
{
    write_number(out, bytes.len() as u64);
    write_raw(out, bytes);
    assert(out@ =~= old(out)@ + with_length(bytes@));
}

fn write_text(out: &mut Vec<u8>, text: &str)
    ensures
        final(out)@ == old(out)@ + text_bytes(text@),
{
    write_bytes(out, text.as_bytes());
}

/// Puts a frame behind what is already waiting to be sent.
pub fn write_frame(out: &mut Vec<u8>, frame: &Frame)
    ensures
        final(out)@ == old(out)@ + frame_bytes(frame@),
{
    match frame {
        Frame::Stdout(bytes) => {
            out.push(1);
            write_bytes(out, bytes.as_slice());
        },
        Frame::Stderr(bytes) => {
            out.push(2);
            write_bytes(out, bytes.as_slice());
        },
        Frame::Status(verb, message) => {
            out.push(3);
            write_text(out, verb.as_str());
            write_text(out, message.as_str());
        },
        Frame::Failed(why) => {
            out.push(4);
            write_text(out, why.as_str());
        },
        Frame::Exit(code) => {
            out.push(5);
            let n: u64 = if *code < 0 {
                (*code as i64 + 4294967296) as u64
            } else {
                *code as u64
            };
            write_number(out, n);
        },
    }
    assert(out@ =~= old(out)@ + frame_bytes(frame@));
}

/// Puts an invocation behind what is already waiting to be sent.
pub fn write_invocation(out: &mut Vec<u8>, invocation: &Invocation)
    ensures
        final(out)@ == old(out)@ + invocation_bytes(invocation@),
{
    let ghost flags = texts(invocation.flags@);
    let ghost start = old(out)@ + be_bytes(flags.len());
    write_number(out, invocation.flags.len() as u64);
    let mut i: usize = 0;
    assert(flags.skip(0) =~= flags);
    while i < invocation.flags.len()
        invariant
            i <= invocation.flags@.len(),
            flags == texts(invocation.flags@),
            out@ + list_bytes(flags.skip(i as int)) == start + list_bytes(flags),
        decreases invocation.flags@.len() - i,
    {
        let ghost before = out@;
        write_text(out, invocation.flags[i].as_str());
        proof {
            let left = flags.skip(i as int);
            assert(left.drop_first() =~= flags.skip(i + 1));
            assert(out@ + list_bytes(flags.skip(i + 1)) =~= before + list_bytes(left));
        }
        i += 1;
    }
    assert(out@ =~= start + list_bytes(flags)) by {
        assert(out@ + list_bytes(flags.skip(i as int)) =~= out@);
    }
    write_text(out, invocation.root.as_path());
    write_text(out, invocation.host.as_str());
    write_text(out, invocation.project_id.as_str());
    out.push(invocation.settings.bits());
    assert(out@ =~= old(out)@ + invocation_bytes(invocation@));
}

fn take_number<'a>(input: &'a [u8]) -> (r: Result<(u32, &'a [u8]), WireError>)
    ensures
        match r {
            Ok((n, rest)) => read_number(input@) == Ok::<(nat, Seq<u8>), WireErrorView>(
                (n as nat, rest@),
            ),
            Err(e) => read_number(input@) == Err::<(nat, Seq<u8>), WireErrorView>(e@),
        },
{
    if input.len() < 4 {
        return Err(WireError::Truncated);
    }
    let n: u32 = (input[0] as u32) * 16777216 + (input[1] as u32) * 65536 + (input[2] as u32) * 256
        + (input[3] as u32);
    Ok((n, slice_subrange(input, 4, input.len())))
}

fn take_bytes<'a>(input: &'a [u8]) -> (r: Result<(Vec<u8>, &'a [u8]), WireError>)
    ensures
        match r {
            Ok((held, rest)) => read_counted(input@) == Ok::<(Seq<u8>, Seq<u8>), WireErrorView>(
                (held@, rest@),
            ),
            Err(e) => read_counted(input@) == Err::<(Seq<u8>, Seq<u8>), WireErrorView>(e@),
        },
{
    match take_number(input) {
        Err(e) => Err(e),
        Ok((n, rest)) => {
            if rest.len() < n as usize {
                return Err(WireError::Truncated);
            }
            let held = slice_subrange(rest, 0, n as usize);
            let end = slice_subrange(rest, n as usize, rest.len());
            assert(held@ =~= rest@.take(n as int));
            assert(end@ =~= rest@.skip(n as int));
            Ok((slice_to_vec(held), end))
        },
    }
}

fn take_text<'a>(input: &'a [u8]) -> (r: Result<(String, &'a [u8]), WireError>)
    ensures
        match r {
            Ok((text, rest)) => read_text(input@) == Ok::<(Seq<char>, Seq<u8>), WireErrorView>(
                (text@, rest@),
            ),
            Err(e) => read_text(input@) == Err::<(Seq<char>, Seq<u8>), WireErrorView>(e@),
        },
{
    match take_bytes(input) {
        Err(e) => Err(e),
        Ok((held, rest)) => match text_from_utf8(held) {
            Ok(text) => Ok((text, rest)),
            Err(why) => Err(WireError::InvalidText(why)),
        },
    }
}

fn take_list<'a>(input: &'a [u8], count: u32) -> (r: Result<(Vec<String>, &'a [u8]), WireError>)
    ensures
        match r {
            Ok((list, rest)) => read_list(input@, count as nat) == Ok::<
                (Seq<Seq<char>>, Seq<u8>),
                WireErrorView,
            >((texts(list@), rest@)),
            Err(e) => read_list(input@, count as nat) == Err::<
                (Seq<Seq<char>>, Seq<u8>),
                WireErrorView,
            >(e@),
        },
{
    let mut list: Vec<String> = Vec::new();
    let mut rest = input;
    let mut left: u32 = count;
    assert forall|more: Seq<Seq<char>>| texts(list@) + more == more by {
        assert(texts(list@) + more =~= more);
    }
    while left > 0
        invariant
            left <= count,
            match read_list(rest@, left as nat) {
                Err(e) => read_list(input@, count as nat) == Err::<
                    (Seq<Seq<char>>, Seq<u8>),
                    WireErrorView,
                >(e),
                Ok((more, end)) => read_list(input@, count as nat) == Ok::<
                    (Seq<Seq<char>>, Seq<u8>),
                    WireErrorView,
                >((texts(list@) + more, end)),
            },
        decreases left,
    {
        let ghost before = texts(list@);
        match take_text(rest) {
            Err(e) => {
                return Err(e);
            },
            Ok((text, behind)) => {
                let ghost held = text@;
                list.push(text);
                rest = behind;
                left -= 1;
                proof {
                    assert(texts(list@) =~= before.push(held));
                    if let Ok((more, end)) = read_list(behind@, left as nat) {
                        assert(before + (seq![held] + more) =~= texts(list@) + more);
                    }
                }
            },
        }
    }
    assert(texts(list@) + Seq::<Seq<char>>::empty() =~= texts(list@));
    Ok((list, rest))
}

/// Reads one frame off the front of `input`, or `None` where there is nothing to read. Bytes
/// that are no frame stay where they are.
pub fn read_frame(input: &mut &[u8]) -> (r: Result<Option<Frame>, WireError>)
    ensures
        match decoded_frame(old(input)@) {
            Ok(Some((frame, rest))) => r matches Ok(Some(f)) && f@ == frame && final(input)@ == rest,
            Ok(None) => r matches Ok(None) && final(input)@ == old(input)@,
            Err(e) => r matches Err(error) && error@ == e && final(input)@ == old(input)@,
        },
{
    let bytes = *input;
    if bytes.len() == 0 {
        return Ok(None);
    }
    let tag = bytes[0];
    let body = slice_subrange(bytes, 1, bytes.len());
    assert(body@ =~= bytes@.skip(1));
    match tag {
        1 => match take_bytes(body) {
            Err(e) => Err(e),
            Ok((held, rest)) => {
                *input = rest;
                Ok(Some(Frame::Stdout(held)))
            },
        },
        2 => match take_bytes(body) {
            Err(e) => Err(e),
            Ok((held, rest)) => {
                *input = rest;
                Ok(Some(Frame::Stderr(held)))
            },
        },
        3 => match take_text(body) {
            Err(e) => Err(e),
            Ok((verb, behind)) => match take_text(behind) {
                Err(e) => Err(e),
                Ok((message, rest)) => {
                    *input = rest;
                    Ok(Some(Frame::Status(verb, message)))
                },
            },
        },
        4 => match take_text(body) {
            Err(e) => Err(e),
            Ok((why, rest)) => {
                *input = rest;
                Ok(Some(Frame::Failed(why)))
            },
        },
        5 => match take_number(body) {
            Err(e) => Err(e),
            Ok((n, rest)) => {
                *input = rest;
                let code: i32 = if n >= 2147483648 {
                    (n as i64 - 4294967296) as i32
                } else {
                    n as i32
                };
                Ok(Some(Frame::Exit(code)))
            },
        },
        other => Err(WireError::UnknownTag(other)),
    }
}

/// Reads one invocation off the front of `input`, putting every value through the type that
/// guards it. Bytes that are no invocation stay where they are.
///
/// The socket is one any process running as this user can open, and the host and project id it
/// carries go on to be pasted into ssh command lines. Rebuilding them through [`Host::new`]
/// and [`ProjectId::new`] rather than taking the strings as they arrive makes this the last
/// place that has to be checked, instead of every place they are used.
pub fn read_invocation(input: &mut &[u8]) -> (r: Result<Invocation, WireError>)
    ensures
        match decoded_invocation(old(input)@) {
            Ok((invocation, rest)) => r matches Ok(i) && i@ == invocation && final(input)@ == rest,
            Err(e) => r matches Err(error) && error@ == e && final(input)@ == old(input)@,
        },
{
    let bytes = *input;
    let (count, rest) = match take_number(bytes) {
        Err(e) => {
            return Err(e);
        },
        Ok(pair) => pair,
    };
    let (flags, rest) = match take_list(rest, count) {
        Err(e) => {
            return Err(e);
        },
        Ok(pair) => pair,
    };
    let (root, rest) = match take_text(rest) {
        Err(e) => {
            return Err(e);
        },
        Ok(pair) => pair,
    };
    let (name, rest) = match take_text(rest) {
        Err(e) => {
            return Err(e);
        },
        Ok(pair) => pair,
    };
    let host = match Host::new(name.as_str()) {
        Err(_) => {
            return Err(WireError::BadHost(name));
        },
        Ok(host) => host,
    };
    let (id, rest) = match take_text(rest) {
        Err(e) => {
            return Err(e);
        },
        Ok(pair) => pair,
    };
    if rest.len() == 0 {
        return Err(WireError::Truncated);
    }
    let bits = rest[0];
    let end = slice_subrange(rest, 1, rest.len());
    assert(end@ =~= rest@.skip(1));
    *input = end;
    Ok(
        Invocation {
            root: ProjectRoot::new(root),
            host,
            project_id: ProjectId::new(id.as_str()),
            settings: Settings::from_bits(bits),
            flags,
        },
    )
}

/// Bytes short enough for four bytes to hold their number.
pub open spec fn countable(bytes: Seq<u8>) -> bool {
    bytes.len() < 4294967296
}

/// A frame none of whose parts is too long for its length to be written down.
pub open spec fn sendable(frame: FrameView) -> bool {
    match frame {
        FrameView::Stdout(bytes) => countable(bytes),
        FrameView::Stderr(bytes) => countable(bytes),
        FrameView::Status(verb, message) => countable(encode_utf8(verb)) && countable(
            encode_utf8(message),
        ),
        FrameView::Failed(why) => countable(encode_utf8(why)),
        FrameView::Exit(_) => true,
    }
}

/// An invocation none of whose parts is too long for its length to be written down.
pub open spec fn sendable_invocation(invocation: InvocationView) -> bool {
    &&& invocation.flags.len() < 4294967296
    &&& forall|i: int|
        0 <= i < invocation.flags.len() ==> countable(encode_utf8(#[trigger] invocation.flags[i]))
    &&& countable(encode_utf8(invocation.root))
    &&& countable(encode_utf8(invocation.host))
    &&& countable(encode_utf8(invocation.project_id))
}

proof fn lemma_number_is_read_back(n: nat, rest: Seq<u8>)
    requires
        n < 4294967296,
    ensures
        read_number(be_bytes(n) + rest) == Ok::<(nat, Seq<u8>), WireErrorView>((n, rest)),
{
    let bytes = be_bytes(n) + rest;
    assert(bytes.skip(4) =~= rest);
    assert(bytes[0] == ((n / 16777216) % 256) as u8);
    assert(bytes[1] == ((n / 65536) % 256) as u8);
    assert(bytes[2] == ((n / 256) % 256) as u8);
    assert(bytes[3] == (n % 256) as u8);
    assert(be_value(bytes) == n);
}

proof fn lemma_counted_is_read_back(held: Seq<u8>, rest: Seq<u8>)
    requires
        countable(held),
    ensures
        read_counted(with_length(held) + rest) == Ok::<(Seq<u8>, Seq<u8>), WireErrorView>(
            (held, rest),
        ),
{
    lemma_number_is_read_back(held.len(), held + rest);
    assert(with_length(held) + rest =~= be_bytes(held.len()) + (held + rest));
    assert((held + rest).take(held.len() as int) =~= held);
    assert((held + rest).skip(held.len() as int) =~= rest);
}

proof fn lemma_text_is_read_back(text: Seq<char>, rest: Seq<u8>)
    requires
        countable(encode_utf8(text)),
    ensures
        read_text(text_bytes(text) + rest) == Ok::<(Seq<char>, Seq<u8>), WireErrorView>(
            (text, rest),
        ),
{
    lemma_counted_is_read_back(encode_utf8(text), rest);
    vstd::utf8::encode_utf8_valid_utf8(text);
    vstd::utf8::encode_utf8_decode_utf8(text);
}

#[verifier::rlimit(40)]
proof fn lemma_list_is_read_back(list: Seq<Seq<char>>, rest: Seq<u8>)
    requires
        forall|i: int| 0 <= i < list.len() ==> countable(encode_utf8(#[trigger] list[i])),
    ensures
        read_list(list_bytes(list) + rest, list.len()) == Ok::<
            (Seq<Seq<char>>, Seq<u8>),
            WireErrorView,
        >((list, rest)),
    decreases list.len(),
{
    if list.len() == 0 {
        assert(list_bytes(list) + rest =~= rest);
        assert(list =~= Seq::<Seq<char>>::empty());
    } else {
        let more = list.drop_first();
        assert forall|i: int| 0 <= i < more.len() implies countable(
            encode_utf8(#[trigger] more[i]),
        ) by {
            assert(more[i] == list[i + 1]);
        }
        assert(countable(encode_utf8(list[0])));
        lemma_list_is_read_back(more, rest);
        lemma_text_is_read_back(list[0], list_bytes(more) + rest);
        assert(list_bytes(list) + rest =~= text_bytes(list[0]) + (list_bytes(more) + rest));
        assert(seq![list[0]] + more =~= list);
    }
}

proof fn lemma_output_is_read_back(held: Seq<u8>, rest: Seq<u8>)
    requires
        countable(held),
    ensures
        decoded_frame(frame_bytes(FrameView::Stdout(held)) + rest) == Ok::<
            Option<(FrameView, Seq<u8>)>,
            WireErrorView,
        >(Some((FrameView::Stdout(held), rest))),
        decoded_frame(frame_bytes(FrameView::Stderr(held)) + rest) == Ok::<
            Option<(FrameView, Seq<u8>)>,
            WireErrorView,
        >(Some((FrameView::Stderr(held), rest))),
{
    lemma_counted_is_read_back(held, rest);
    let body = with_length(held) + rest;
    let stdout = seq![1u8] + with_length(held) + rest;
    let stderr = seq![2u8] + with_length(held) + rest;
    assert(stdout.skip(1) =~= body && stdout[0] == 1);
    assert(stderr.skip(1) =~= body && stderr[0] == 2);
}

#[verifier::rlimit(40)]
proof fn lemma_status_is_read_back(verb: Seq<char>, message: Seq<char>, rest: Seq<u8>)
    requires
        countable(encode_utf8(verb)),
        countable(encode_utf8(message)),
    ensures
        decoded_frame(frame_bytes(FrameView::Status(verb, message)) + rest) == Ok::<
            Option<(FrameView, Seq<u8>)>,
            WireErrorView,
        >(Some((FrameView::Status(verb, message), rest))),
{
    lemma_text_is_read_back(message, rest);
    lemma_text_is_read_back(verb, text_bytes(message) + rest);
    let bytes = seq![3u8] + text_bytes(verb) + text_bytes(message) + rest;
    assert(bytes.skip(1) =~= text_bytes(verb) + (text_bytes(message) + rest) && bytes[0] == 3);
}

proof fn lemma_failure_is_read_back(why: Seq<char>, rest: Seq<u8>)
    requires
        countable(encode_utf8(why)),
    ensures
        decoded_frame(frame_bytes(FrameView::Failed(why)) + rest) == Ok::<
            Option<(FrameView, Seq<u8>)>,
            WireErrorView,
        >(Some((FrameView::Failed(why), rest))),
{
    lemma_text_is_read_back(why, rest);
    let bytes = seq![4u8] + text_bytes(why) + rest;
    assert(bytes.skip(1) =~= text_bytes(why) + rest && bytes[0] == 4);
}

proof fn lemma_exit_is_read_back(code: i32, rest: Seq<u8>)
    ensures
        decoded_frame(frame_bytes(FrameView::Exit(code)) + rest) == Ok::<
            Option<(FrameView, Seq<u8>)>,
            WireErrorView,
        >(Some((FrameView::Exit(code), rest))),
{
    lemma_number_is_read_back(unsigned_of(code), rest);
    let bytes = seq![5u8] + be_bytes(unsigned_of(code)) + rest;
    assert(bytes.skip(1) =~= be_bytes(unsigned_of(code)) + rest && bytes[0] == 5);
}

/// A frame that was written is read back, and what was written behind it stays.
pub proof fn law_frame_is_read_back(frame: FrameView, rest: Seq<u8>)
    requires
        sendable(frame),
    ensures
        decoded_frame(frame_bytes(frame) + rest) == Ok::<
            Option<(FrameView, Seq<u8>)>,
            WireErrorView,
        >(Some((frame, rest))),
{
    match frame {
        FrameView::Stdout(held) => lemma_output_is_read_back(held, rest),
        FrameView::Stderr(held) => lemma_output_is_read_back(held, rest),
        FrameView::Status(verb, message) => lemma_status_is_read_back(verb, message, rest),
        FrameView::Failed(why) => lemma_failure_is_read_back(why, rest),
        FrameView::Exit(code) => lemma_exit_is_read_back(code, rest),
    }
}

proof fn lemma_behind_host_is_read_back(invocation: InvocationView, rest: Seq<u8>)
    requires
        invocation.valid(),
        sendable_invocation(invocation),
    ensures
        decoded_behind_host(
            invocation.flags,
            invocation.root,
            invocation.host,
            text_bytes(invocation.project_id) + (seq![invocation.settings] + rest),
        ) == Ok::<(InvocationView, Seq<u8>), WireErrorView>((invocation, rest)),
{
    let behind_name = seq![invocation.settings] + rest;
    lemma_text_is_read_back(invocation.project_id, behind_name);
    crate::input::law_plain_name_is_kept(invocation.project_id);
    assert(behind_name.skip(1) =~= rest);
    assert(behind_name[0] == invocation.settings);
}

proof fn lemma_behind_flags_is_read_back(invocation: InvocationView, rest: Seq<u8>)
    requires
        invocation.valid(),
        sendable_invocation(invocation),
    ensures
        decoded_behind_flags(
            invocation.flags,
            text_bytes(invocation.root) + (text_bytes(invocation.host) + (text_bytes(
                invocation.project_id,
            ) + (seq![invocation.settings] + rest))),
        ) == Ok::<(InvocationView, Seq<u8>), WireErrorView>((invocation, rest)),
{
    let behind_host = text_bytes(invocation.project_id) + (seq![invocation.settings] + rest);
    lemma_text_is_read_back(invocation.root, text_bytes(invocation.host) + behind_host);
    lemma_text_is_read_back(invocation.host, behind_host);
    lemma_behind_host_is_read_back(invocation, rest);
}

proof fn lemma_regrouped(
    a: Seq<u8>,
    b: Seq<u8>,
    c: Seq<u8>,
    d: Seq<u8>,
    e: Seq<u8>,
    f: Seq<u8>,
    g: Seq<u8>,
)
    ensures
        a + b + c + d + e + f + g == a + (b + (c + (d + (e + (f + g))))),
{
    assert(a + b + c + d + e + f + g =~= a + b + c + d + e + (f + g));
    let fg = f + g;
    assert(a + b + c + d + e + fg =~= a + b + c + d + (e + fg));
    let efg = e + fg;
    assert(a + b + c + d + efg =~= a + b + c + (d + efg));
    let defg = d + efg;
    assert(a + b + c + defg =~= a + b + (c + defg));
    let cdefg = c + defg;
    assert(a + b + cdefg =~= a + (b + cdefg));
}

proof fn lemma_decoded_in_parts(
    bytes: Seq<u8>,
    behind_count: Seq<u8>,
    flags: Seq<Seq<char>>,
    behind_flags: Seq<u8>,
    invocation: InvocationView,
    rest: Seq<u8>,
)
    requires
        read_number(bytes) == Ok::<(nat, Seq<u8>), WireErrorView>((flags.len(), behind_count)),
        read_list(behind_count, flags.len()) == Ok::<(Seq<Seq<char>>, Seq<u8>), WireErrorView>(
            (flags, behind_flags),
        ),
        decoded_behind_flags(flags, behind_flags) == Ok::<
            (InvocationView, Seq<u8>),
            WireErrorView,
        >((invocation, rest)),
    ensures
        decoded_invocation(bytes) == Ok::<(InvocationView, Seq<u8>), WireErrorView>(
            (invocation, rest),
        ),
{
}

/// An invocation that was written is read back, and what was written behind it stays.
#[verifier::rlimit(40)]
pub proof fn law_invocation_is_read_back(invocation: InvocationView, rest: Seq<u8>)
    requires
        invocation.valid(),
        sendable_invocation(invocation),
    ensures
        decoded_invocation(invocation_bytes(invocation) + rest) == Ok::<
            (InvocationView, Seq<u8>),
            WireErrorView,
        >((invocation, rest)),
{
    let count = be_bytes(invocation.flags.len());
    let flags = list_bytes(invocation.flags);
    let root = text_bytes(invocation.root);
    let host = text_bytes(invocation.host);
    let name = text_bytes(invocation.project_id);
    let bits = seq![invocation.settings];
    let behind_flags = root + (host + (name + (bits + rest)));
    lemma_regrouped(count, flags, root, host, name, bits, rest);
    lemma_number_is_read_back(invocation.flags.len(), flags + behind_flags);
    lemma_list_is_read_back(invocation.flags, behind_flags);
    lemma_behind_flags_is_read_back(invocation, rest);
    lemma_decoded_in_parts(
        invocation_bytes(invocation) + rest,
        flags + behind_flags,
        invocation.flags,
        behind_flags,
        invocation,
        rest,
    );
}

/// Whatever the bytes, an invocation read off them has a plain host, a plain name and a set of
/// switches.
pub proof fn law_what_is_read_is_valid(bytes: Seq<u8>)
    ensures
        decoded_invocation(bytes) matches Ok((invocation, _)) ==> invocation.valid(),
{
    if let Ok((count, behind_count)) = read_number(bytes) {
        if let Ok((flags, behind_flags)) = read_list(behind_count, count) {
            if let Ok((root, behind_root)) = read_text(behind_flags) {
                if let Ok((host, behind_host)) = read_text(behind_root) {
                    if let Ok((name, behind_name)) = read_text(behind_host) {
                        crate::input::law_project_name_is_plain(name);
                        crate::input::law_settings_survive_the_wire(behind_name[0]);
                    }
                }
            }
        }
    }
}

proof fn lemma_number_settled(bytes: Seq<u8>, more: Seq<u8>)
    ensures
        read_number(bytes) matches Ok((n, rest)) ==> read_number(bytes + more) == Ok::<
            (nat, Seq<u8>),
            WireErrorView,
        >((n, rest + more)),
        read_number(bytes) matches Ok((n, rest)) ==> rest.len() <= bytes.len(),
        read_number(bytes) matches Err(e) ==> e is Truncated,
{
    if bytes.len() >= 4 {
        assert((bytes + more).skip(4) =~= bytes.skip(4) + more);
    }
}

proof fn lemma_counted_settled(bytes: Seq<u8>, more: Seq<u8>)
    ensures
        read_counted(bytes) matches Ok((held, rest)) ==> read_counted(bytes + more) == Ok::<
            (Seq<u8>, Seq<u8>),
            WireErrorView,
        >((held, rest + more)),
        read_counted(bytes) matches Ok((held, rest)) ==> rest.len() <= bytes.len(),
        read_counted(bytes) matches Err(e) ==> e is Truncated,
{
    lemma_number_settled(bytes, more);
    if let Ok((n, rest)) = read_number(bytes) {
        if rest.len() >= n {
            assert((rest + more).take(n as int) =~= rest.take(n as int));
            assert((rest + more).skip(n as int) =~= rest.skip(n as int) + more);
        }
    }
}

proof fn lemma_text_settled(bytes: Seq<u8>, more: Seq<u8>)
    ensures
        match read_text(bytes) {
            Ok((text, rest)) => rest.len() <= bytes.len() && read_text(bytes + more) == Ok::<
                (Seq<char>, Seq<u8>),
                WireErrorView,
            >((text, rest + more)),
            Err(e) => e is Truncated || read_text(bytes + more) == Err::<
                (Seq<char>, Seq<u8>),
                WireErrorView,
            >(e),
        },
{
    lemma_counted_settled(bytes, more);
}

proof fn lemma_list_settled(bytes: Seq<u8>, count: nat, more: Seq<u8>)
    ensures
        match read_list(bytes, count) {
            Ok((list, rest)) => read_list(bytes + more, count) == Ok::<
                (Seq<Seq<char>>, Seq<u8>),
                WireErrorView,
            >((list, rest + more)),
            Err(e) => e is Truncated || read_list(bytes + more, count) == Err::<
                (Seq<Seq<char>>, Seq<u8>),
                WireErrorView,
            >(e),
        },
    decreases count,
{
    if count > 0 {
        lemma_text_settled(bytes, more);
        if let Ok((first, rest)) = read_text(bytes) {
            lemma_list_settled(rest, (count - 1) as nat, more);
        }
    }
}

proof fn lemma_behind_host_settled(
    flags: Seq<Seq<char>>,
    root: Seq<char>,
    host: Seq<char>,
    bytes: Seq<u8>,
    more: Seq<u8>,
)
    ensures
        match decoded_behind_host(flags, root, host, bytes) {
            Ok((invocation, rest)) => decoded_behind_host(flags, root, host, bytes + more) == Ok::<
                (InvocationView, Seq<u8>),
                WireErrorView,
            >((invocation, rest + more)),
            Err(e) => e is Truncated || decoded_behind_host(flags, root, host, bytes + more)
                == Err::<(InvocationView, Seq<u8>), WireErrorView>(e),
        },
{
    lemma_text_settled(bytes, more);
    if let Ok((name, rest)) = read_text(bytes) {
        if rest.len() > 0 {
            assert((rest + more).skip(1) =~= rest.skip(1) + more);
        }
    }
}

proof fn lemma_behind_flags_settled(flags: Seq<Seq<char>>, bytes: Seq<u8>, more: Seq<u8>)
    ensures
        match decoded_behind_flags(flags, bytes) {
            Ok((invocation, rest)) => decoded_behind_flags(flags, bytes + more) == Ok::<
                (InvocationView, Seq<u8>),
                WireErrorView,
            >((invocation, rest + more)),
            Err(e) => e is Truncated || decoded_behind_flags(flags, bytes + more) == Err::<
                (InvocationView, Seq<u8>),
                WireErrorView,
            >(e),
        },
{
    lemma_text_settled(bytes, more);
    if let Ok((root, behind_root)) = read_text(bytes) {
        lemma_text_settled(behind_root, more);
        if let Ok((host, behind_host)) = read_text(behind_root) {
            lemma_behind_host_settled(flags, root, host, behind_host, more);
        }
    }
}

/// Bytes that arrive later never change the frame that was already read, nor what was already
/// refused: only an end that came too early, or nothing at all, leaves something open.
pub proof fn law_later_bytes_change_no_frame(bytes: Seq<u8>, more: Seq<u8>)
    ensures
        match decoded_frame(bytes) {
            Ok(Some((frame, rest))) => decoded_frame(bytes + more) == Ok::<
                Option<(FrameView, Seq<u8>)>,
                WireErrorView,
            >(Some((frame, rest + more))),
            Ok(None) => bytes.len() == 0,
            Err(e) => e is Truncated || decoded_frame(bytes + more) == Err::<
                Option<(FrameView, Seq<u8>)>,
                WireErrorView,
            >(e),
        },
{
    if bytes.len() > 0 {
        let body = bytes.skip(1);
        assert((bytes + more).skip(1) =~= body + more);
        assert((bytes + more)[0] == bytes[0]);
        lemma_counted_settled(body, more);
        lemma_text_settled(body, more);
        lemma_number_settled(body, more);
        if let Ok((verb, rest)) = read_text(body) {
            lemma_text_settled(rest, more);
        }
    }
}

/// Bytes that arrive later never change the invocation that was already read, nor what was
/// already refused: only an end that came too early leaves something open.
pub proof fn law_later_bytes_change_no_invocation(bytes: Seq<u8>, more: Seq<u8>)
    ensures
        match decoded_invocation(bytes) {
            Ok((invocation, rest)) => decoded_invocation(bytes + more) == Ok::<
                (InvocationView, Seq<u8>),
                WireErrorView,
            >((invocation, rest + more)),
            Err(e) => e is Truncated || decoded_invocation(bytes + more) == Err::<
                (InvocationView, Seq<u8>),
                WireErrorView,
            >(e),
        },
{
    lemma_number_settled(bytes, more);
    if let Ok((count, behind_count)) = read_number(bytes) {
        lemma_list_settled(behind_count, count, more);
        if let Ok((flags, behind_flags)) = read_list(behind_count, count) {
            lemma_behind_flags_settled(flags, behind_flags, more);
        }
    }
}

/// A frame cut short is recognised as such, wherever the cut is; cut down to nothing it is no
/// frame at all.
pub proof fn law_cut_frame_is_truncated(frame: FrameView, kept: int)
    requires
        sendable(frame),
        0 <= kept < frame_bytes(frame).len(),
    ensures
        kept == 0 ==> decoded_frame(frame_bytes(frame).take(kept)) == Ok::<
            Option<(FrameView, Seq<u8>)>,
            WireErrorView,
        >(None),
        kept > 0 ==> decoded_frame(frame_bytes(frame).take(kept)) == Err::<
            Option<(FrameView, Seq<u8>)>,
            WireErrorView,
        >(WireErrorView::Truncated),
{
    let whole = frame_bytes(frame);
    let part = whole.take(kept);
    let lost = whole.skip(kept);
    assert(part + lost =~= whole);
    law_frame_is_read_back(frame, Seq::empty());
    assert(whole + Seq::<u8>::empty() =~= whole);
    law_later_bytes_change_no_frame(part, lost);
    if kept > 0 {
        if let Ok(Some((read, rest))) = decoded_frame(part) {
            assert(rest + lost == Seq::<u8>::empty());
            assert((rest + lost).len() == rest.len() + lost.len());
            assert(false);
        }
    }
}

/// An invocation cut short is recognised as such, wherever the cut is.
pub proof fn law_cut_invocation_is_truncated(invocation: InvocationView, kept: int)
    requires
        invocation.valid(),
        sendable_invocation(invocation),
        0 <= kept < invocation_bytes(invocation).len(),
    ensures
        decoded_invocation(invocation_bytes(invocation).take(kept)) == Err::<
            (InvocationView, Seq<u8>),
            WireErrorView,
        >(WireErrorView::Truncated),
{
    let whole = invocation_bytes(invocation);
    let part = whole.take(kept);
    let lost = whole.skip(kept);
    assert(part + lost =~= whole);
    law_invocation_is_read_back(invocation, Seq::empty());
    assert(whole + Seq::<u8>::empty() =~= whole);
    law_later_bytes_change_no_invocation(part, lost);
    if let Ok((read, rest)) = decoded_invocation(part) {
        assert((rest + lost).len() == rest.len() + lost.len());
        assert(false);
    }
}

/// Frames one after the other.
pub open spec fn stream_bytes(frames: Seq<FrameView>) -> Seq<u8>
    decreases frames.len(),
{
    if frames.len() == 0 {
        Seq::empty()
    } else {
        frame_bytes(frames[0]) + stream_bytes(frames.drop_first())
    }
}

/// Reading a frame uses up bytes, so reading one after the other comes to an end.
pub proof fn law_reading_uses_up_bytes(bytes: Seq<u8>)
    ensures
        decoded_frame(bytes) matches Ok(Some((_, rest))) ==> rest.len() < bytes.len(),
{
    if bytes.len() > 0 {
        let body = bytes.skip(1);
        lemma_counted_settled(body, Seq::empty());
        lemma_text_settled(body, Seq::empty());
        lemma_number_settled(body, Seq::empty());
        if let Ok((verb, rest)) = read_text(body) {
            lemma_text_settled(rest, Seq::empty());
        }
    }
}

/// The frames that reading one after the other, until there are no bytes left, gives.
pub open spec fn decoded_stream(bytes: Seq<u8>) -> Result<Seq<FrameView>, WireErrorView>
    decreases bytes.len(),
{
    proof {
        law_reading_uses_up_bytes(bytes);
    }
    match decoded_frame(bytes) {
        Err(e) => Err(e),
        Ok(None) => Ok(Seq::empty()),
        Ok(Some((frame, rest))) => match decoded_stream(rest) {
            Err(e) => Err(e),
            Ok(more) => Ok(seq![frame] + more),
        },
    }
}

proof fn lemma_stream_goes_on(
    bytes: Seq<u8>,
    frame: FrameView,
    rest: Seq<u8>,
    more: Seq<FrameView>,
)
    requires
        decoded_frame(bytes) == Ok::<Option<(FrameView, Seq<u8>)>, WireErrorView>(
            Some((frame, rest)),
        ),
        decoded_stream(rest) == Ok::<Seq<FrameView>, WireErrorView>(more),
    ensures
        decoded_stream(bytes) == Ok::<Seq<FrameView>, WireErrorView>(seq![frame] + more),
{
}

proof fn lemma_stream_begins(frames: Seq<FrameView>)
    requires
        frames.len() > 0,
        sendable(frames[0]),
    ensures
        decoded_frame(stream_bytes(frames)) == Ok::<Option<(FrameView, Seq<u8>)>, WireErrorView>(
            Some((frames[0], stream_bytes(frames.drop_first()))),
        ),
{
    let rest = stream_bytes(frames.drop_first());
    law_frame_is_read_back(frames[0], rest);
    assert(stream_bytes(frames) == frame_bytes(frames[0]) + rest);
}

/// Every frame of a stream is read back, in the order in which they were written, and then the
/// stream ends cleanly.
#[verifier::rlimit(40)]
pub proof fn law_stream_is_read_back(frames: Seq<FrameView>)
    requires
        forall|i: int| 0 <= i < frames.len() ==> sendable(#[trigger] frames[i]),
    ensures
        decoded_stream(stream_bytes(frames)) == Ok::<Seq<FrameView>, WireErrorView>(frames),
    decreases frames.len(),
{
    if frames.len() == 0 {
        assert(frames =~= Seq::<FrameView>::empty());
    } else {
        let more = frames.drop_first();
        assert forall|i: int| 0 <= i < more.len() implies sendable(#[trigger] more[i]) by {
            assert(more[i] == frames[i + 1]);
        }
        law_stream_is_read_back(more);
        lemma_stream_begins(frames);
        lemma_stream_goes_on(stream_bytes(frames), frames[0], stream_bytes(more), more);
        assert(seq![frames[0]] + more =~= frames);
    }
}

/// A number travels as four bytes, the most significant first, and bytes travel behind their
/// number.
pub proof fn law_numbers_and_lengths(n: nat, bytes: Seq<u8>)
    ensures
        be_bytes(n).len() == 4,
        n < 4294967296 ==> n == be_bytes(n)[0] * 16777216 + be_bytes(n)[1] * 65536 + be_bytes(n)[2]
            * 256 + be_bytes(n)[3],
        with_length(bytes).len() == bytes.len() + 4,
        with_length(bytes).take(4) == be_bytes(bytes.len()),
        with_length(bytes).skip(4) == bytes,
{
    assert(with_length(bytes).take(4) =~= be_bytes(bytes.len()));
    assert(with_length(bytes).skip(4) =~= bytes);
}

/// What each frame is written as: its tag, then its parts behind their lengths, an exit code as
/// its four bytes in two's complement.
pub proof fn law_frames_are_tagged(
    held: Seq<u8>,
    text: Seq<char>,
    more: Seq<char>,
    code: i32,
)
    ensures
        frame_bytes(FrameView::Stdout(held)) == seq![1u8] + be_bytes(held.len()) + held,
        frame_bytes(FrameView::Stderr(held)) == seq![2u8] + be_bytes(held.len()) + held,
        frame_bytes(FrameView::Status(text, more)) == seq![3u8] + text_bytes(text) + text_bytes(
            more,
        ),
        frame_bytes(FrameView::Failed(text)) == seq![4u8] + text_bytes(text),
        code >= 0 ==> frame_bytes(FrameView::Exit(code)) == seq![5u8] + be_bytes(code as nat),
        code < 0 ==> frame_bytes(FrameView::Exit(code)) == seq![5u8] + be_bytes(
            (code + 4294967296) as nat,
        ),
        text_bytes(text) == be_bytes(encode_utf8(text).len()) + encode_utf8(text),
{
    assert(frame_bytes(FrameView::Stdout(held)) =~= seq![1u8] + be_bytes(held.len()) + held);
    assert(frame_bytes(FrameView::Stderr(held)) =~= seq![2u8] + be_bytes(held.len()) + held);
}

/// Texts of a list travel one after the other.
pub proof fn law_lists_go_text_by_text(first: Seq<char>, list: Seq<Seq<char>>)
    ensures
        list_bytes(Seq::empty()) == Seq::<u8>::empty(),
        list_bytes(seq![first] + list) == text_bytes(first) + list_bytes(list),
{
    let all = seq![first] + list;
    assert(all[0] == first);
    assert(all.drop_first() =~= list);
}

/// What can be sent: everything whose parts are shorter than four gigabytes.
pub proof fn law_what_can_be_sent(held: Seq<u8>, text: Seq<char>, more: Seq<char>, code: i32)
    ensures
        held.len() < 4294967296 ==> sendable(FrameView::Stdout(held)) && sendable(
            FrameView::Stderr(held),
        ),
        encode_utf8(text).len() < 4294967296 ==> sendable(FrameView::Failed(text)),
        encode_utf8(text).len() < 4294967296 && encode_utf8(more).len() < 4294967296 ==> sendable(
            FrameView::Status(text, more),
        ),
        sendable(FrameView::Exit(code)),
{
}

proof fn lemma_number_was_written(bytes: Seq<u8>)
    ensures
        read_number(bytes) matches Ok((n, rest)) ==> n < 4294967296 && bytes == be_bytes(n) + rest,
{
    if let Ok((n, rest)) = read_number(bytes) {
        let a = bytes[0] as nat;
        let b = bytes[1] as nat;
        let c = bytes[2] as nat;
        let d = bytes[3] as nat;
        assert(n == a * 16777216 + b * 65536 + c * 256 + d);
        assert((n / 16777216) % 256 == a);
        assert((n / 65536) % 256 == b);
        assert((n / 256) % 256 == c);
        assert(n % 256 == d);
        assert(bytes =~= be_bytes(n) + rest);
    }
}

proof fn lemma_counted_was_written(bytes: Seq<u8>)
    ensures
        read_counted(bytes) matches Ok((held, rest)) ==> held.len() < 4294967296 && bytes
            == with_length(held) + rest,
{
    lemma_number_was_written(bytes);
    if let Ok((held, rest)) = read_counted(bytes) {
        let behind = read_number(bytes)->Ok_0.1;
        assert(behind =~= held + rest);
        assert(bytes =~= with_length(held) + rest);
    }
}

proof fn lemma_text_was_written(bytes: Seq<u8>)
    ensures
        read_text(bytes) matches Ok((text, rest)) ==> encode_utf8(text).len() < 4294967296 && bytes
            == text_bytes(text) + rest,
{
    lemma_counted_was_written(bytes);
    if let Ok((held, rest)) = read_counted(bytes) {
        if valid_utf8(held) {
            vstd::utf8::decode_utf8_encode_utf8(held);
        }
    }
}

proof fn lemma_output_was_written(bytes: Seq<u8>)
    requires
        bytes.len() > 0,
        bytes[0] == 1 || bytes[0] == 2,
    ensures
        decoded_frame(bytes) matches Ok(found) ==> (found matches Some((frame, rest)) && bytes
            == frame_bytes(frame) + rest && sendable(frame)),
{
    let body = bytes.skip(1);
    lemma_counted_was_written(body);
    if let Ok((held, rest)) = read_counted(body) {
        let head = seq![bytes[0]];
        assert(bytes =~= head + body);
        lemma_regrouped_three(head, with_length(held), rest);
    }
}

proof fn lemma_status_was_written(bytes: Seq<u8>)
    requires
        bytes.len() > 0,
        bytes[0] == 3,
    ensures
        decoded_frame(bytes) matches Ok(found) ==> (found matches Some((frame, rest)) && bytes
            == frame_bytes(frame) + rest && sendable(frame)),
{
    let body = bytes.skip(1);
    lemma_text_was_written(body);
    if let Ok((verb, behind)) = read_text(body) {
        lemma_text_was_written(behind);
        if let Ok((message, rest)) = read_text(behind) {
            let head = seq![3u8];
            assert(bytes =~= head + body);
            lemma_regrouped_four(head, text_bytes(verb), text_bytes(message), rest);
        }
    }
}

proof fn lemma_regrouped_three(a: Seq<u8>, b: Seq<u8>, c: Seq<u8>)
    ensures
        a + (b + c) == a + b + c,
{
    assert(a + (b + c) =~= a + b + c);
}

proof fn lemma_regrouped_four(a: Seq<u8>, b: Seq<u8>, c: Seq<u8>, d: Seq<u8>)
    ensures
        a + (b + (c + d)) == a + b + c + d,
{
    assert(a + (b + (c + d)) =~= a + b + c + d);
}

proof fn lemma_failure_was_written(bytes: Seq<u8>)
    requires
        bytes.len() > 0,
        bytes[0] == 4,
    ensures
        decoded_frame(bytes) matches Ok(found) ==> (found matches Some((frame, rest)) && bytes
            == frame_bytes(frame) + rest && sendable(frame)),
{
    let body = bytes.skip(1);
    lemma_text_was_written(body);
    if let Ok((why, rest)) = read_text(body) {
        let head = seq![4u8];
        assert(bytes =~= head + body);
        lemma_regrouped_three(head, text_bytes(why), rest);
    }
}

proof fn lemma_exit_was_written(bytes: Seq<u8>)
    requires
        bytes.len() > 0,
        bytes[0] == 5,
    ensures
        decoded_frame(bytes) matches Ok(found) ==> (found matches Some((frame, rest)) && bytes
            == frame_bytes(frame) + rest && sendable(frame)),
{
    let body = bytes.skip(1);
    lemma_number_was_written(body);
    if let Ok((n, rest)) = read_number(body) {
        assert(unsigned_of(signed_of(n)) == n);
        let head = seq![5u8];
        assert(bytes =~= head + body);
        lemma_regrouped_three(head, be_bytes(n), rest);
    }
}

/// Whatever frame is read off bytes, those bytes are what writing that frame gives, and what
/// follows: nothing but a frame is ever read as one.
pub proof fn law_only_what_was_written_is_read(bytes: Seq<u8>)
    ensures
        decoded_frame(bytes) matches Ok(Some((frame, rest))) ==> bytes == frame_bytes(frame) + rest
            && sendable(frame),
        decoded_frame(bytes) == Ok::<Option<(FrameView, Seq<u8>)>, WireErrorView>(None)
            <==> bytes.len() == 0,
{
    if bytes.len() > 0 {
        if bytes[0] == 1 || bytes[0] == 2 {
            lemma_output_was_written(bytes);
        } else if bytes[0] == 3 {
            lemma_status_was_written(bytes);
        } else if bytes[0] == 4 {
            lemma_failure_was_written(bytes);
        } else if bytes[0] == 5 {
            lemma_exit_was_written(bytes);
        }
    }
}

/// A tag that no frame has is refused by its number, and only such a one is; a text that is not
/// UTF-8 is refused with what is wrong with it.
pub proof fn law_what_no_frame_is(bytes: Seq<u8>, held: Seq<u8>, text: Seq<char>, rest: Seq<u8>)
    ensures
        bytes.len() > 0 && (bytes[0] == 0 || bytes[0] > 5) ==> decoded_frame(bytes) == Err::<
            Option<(FrameView, Seq<u8>)>,
            WireErrorView,
        >(WireErrorView::UnknownTag(bytes[0])),
        decoded_frame(bytes) matches Err(WireErrorView::UnknownTag(tag)) ==> bytes.len() > 0 && tag
            == bytes[0] && (tag == 0 || tag > 5),
        held.len() < 4294967296 && !valid_utf8(held) ==> decoded_frame(
            seq![4u8] + (with_length(held) + rest),
        ) == Err::<Option<(FrameView, Seq<u8>)>, WireErrorView>(
            WireErrorView::InvalidText(utf8_complaint(held)),
        ),
        held.len() < 4294967296 && !valid_utf8(held) ==> decoded_frame(
            seq![3u8] + (with_length(held) + rest),
        ) == Err::<Option<(FrameView, Seq<u8>)>, WireErrorView>(
            WireErrorView::InvalidText(utf8_complaint(held)),
        ),
        held.len() < 4294967296 && !valid_utf8(held) && encode_utf8(text).len() < 4294967296
            ==> decoded_frame(seq![3u8] + (text_bytes(text) + (with_length(held) + rest))) == Err::<
            Option<(FrameView, Seq<u8>)>,
            WireErrorView,
        >(WireErrorView::InvalidText(utf8_complaint(held))),
        decoded_frame(bytes) matches Err(e) ==> !(e is BadHost),
{
    if held.len() < 4294967296 && !valid_utf8(held) {
        lemma_counted_is_read_back(held, rest);
        let body = with_length(held) + rest;
        assert((seq![4u8] + body).skip(1) =~= body);
        assert((seq![3u8] + body).skip(1) =~= body);
        if encode_utf8(text).len() < 4294967296 {
            lemma_text_is_read_back(text, body);
            assert((seq![3u8] + (text_bytes(text) + body)).skip(1) =~= text_bytes(text) + body);
        }
    }
    if bytes.len() > 0 {
        let body = bytes.skip(1);
        lemma_counted_settled(body, Seq::empty());
        lemma_number_settled(body, Seq::empty());
        if let Ok((verb, end)) = read_text(body) {
            lemma_counted_settled(end, Seq::empty());
        }
    }
}

proof fn lemma_request_behind_host(
    flags: Seq<Seq<char>>,
    root: Seq<char>,
    host: Seq<char>,
    name: Seq<char>,
    bits: u8,
    rest: Seq<u8>,
)
    requires
        encode_utf8(name).len() < 4294967296,
    ensures
        decoded_behind_host(flags, root, host, text_bytes(name) + (seq![bits] + rest)) == Ok::<
            (InvocationView, Seq<u8>),
            WireErrorView,
        >(
            (
                InvocationView {
                    root,
                    host,
                    project_id: project_name_of(name),
                    settings: settled(bits),
                    flags,
                },
                rest,
            ),
        ),
{
    let behind_name = seq![bits] + rest;
    lemma_text_is_read_back(name, behind_name);
    assert(behind_name.skip(1) =~= rest);
    assert(behind_name[0] == bits);
}

proof fn lemma_request_behind_flags(
    flags: Seq<Seq<char>>,
    root: Seq<char>,
    host: Seq<char>,
    behind_host: Seq<u8>,
)
    requires
        encode_utf8(root).len() < 4294967296,
        encode_utf8(host).len() < 4294967296,
    ensures
        plain_host(host) ==> decoded_behind_flags(
            flags,
            text_bytes(root) + (text_bytes(host) + behind_host),
        ) == decoded_behind_host(flags, root, host, behind_host),
        !plain_host(host) ==> decoded_behind_flags(
            flags,
            text_bytes(root) + (text_bytes(host) + behind_host),
        ) == Err::<(InvocationView, Seq<u8>), WireErrorView>(WireErrorView::BadHost(host)),
{
    lemma_text_is_read_back(root, text_bytes(host) + behind_host);
    lemma_text_is_read_back(host, behind_host);
}

proof fn lemma_request_in_parts(
    bytes: Seq<u8>,
    behind_count: Seq<u8>,
    flags: Seq<Seq<char>>,
    behind_flags: Seq<u8>,
)
    requires
        read_number(bytes) == Ok::<(nat, Seq<u8>), WireErrorView>((flags.len(), behind_count)),
        read_list(behind_count, flags.len()) == Ok::<(Seq<Seq<char>>, Seq<u8>), WireErrorView>(
            (flags, behind_flags),
        ),
    ensures
        decoded_invocation(bytes) == decoded_behind_flags(flags, behind_flags),
{
}

/// How a request travels, part by part, and what is made of one whose parts nobody has checked
/// yet: a host that is not plain is refused by its name, a project's name is made plain, the
/// switches become a set, and the flags and the root are taken as they came.
#[verifier::rlimit(40)]
pub proof fn law_requests_are_checked_when_read(
    flags: Seq<Seq<char>>,
    root: Seq<char>,
    host: Seq<char>,
    name: Seq<char>,
    bits: u8,
    rest: Seq<u8>,
)
    requires
        flags.len() < 4294967296,
        forall|i: int|
            0 <= i < flags.len() ==> encode_utf8(#[trigger] flags[i]).len() < 4294967296,
        encode_utf8(root).len() < 4294967296,
        encode_utf8(host).len() < 4294967296,
        encode_utf8(name).len() < 4294967296,
    ensures
        ({
            let bytes = be_bytes(flags.len()) + list_bytes(flags) + text_bytes(root) + text_bytes(
                host,
            ) + text_bytes(name) + seq![bits] + rest;
            &&& !plain_host(host) ==> decoded_invocation(bytes) == Err::<
                (InvocationView, Seq<u8>),
                WireErrorView,
            >(WireErrorView::BadHost(host))
            &&& plain_host(host) ==> (decoded_invocation(bytes) matches Ok((made, left)) && {
                &&& left == rest
                &&& made.flags == flags
                &&& made.root == root
                &&& made.host == host
                &&& made.project_id == project_name_of(name)
                &&& made.settings <= 3
                &&& (made.settings & 2u8 != 0 <==> bits & 2u8 != 0)
                &&& (made.settings & 1u8 != 0 <==> bits & 1u8 != 0 || bits & 2u8 != 0)
            })
        }),
{
    let count = be_bytes(flags.len());
    let list = list_bytes(flags);
    let behind_flags = text_bytes(root) + (text_bytes(host) + (text_bytes(name) + (seq![bits]
        + rest)));
    assert forall|i: int| 0 <= i < flags.len() implies countable(
        encode_utf8(#[trigger] flags[i]),
    ) by {}
    lemma_regrouped(
        count,
        list,
        text_bytes(root),
        text_bytes(host),
        text_bytes(name),
        seq![bits],
        rest,
    );
    lemma_number_is_read_back(flags.len(), list + behind_flags);
    lemma_list_is_read_back(flags, behind_flags);
    lemma_request_in_parts(
        count + list + text_bytes(root) + text_bytes(host) + text_bytes(name) + seq![bits] + rest,
        list + behind_flags,
        flags,
        behind_flags,
    );
    lemma_request_behind_flags(flags, root, host, text_bytes(name) + (seq![bits] + rest));
    lemma_request_behind_host(flags, root, host, name, bits, rest);
    crate::input::law_settled_sets(bits);
}

/// The parts of a request and their order: the number of flags, the flags, the root, the host,
/// the project's name, and one byte of switches.
pub proof fn law_how_a_request_is_written(invocation: InvocationView)
    ensures
        invocation_bytes(invocation) == be_bytes(invocation.flags.len()) + list_bytes(
            invocation.flags,
        ) + text_bytes(invocation.root) + text_bytes(invocation.host) + text_bytes(
            invocation.project_id,
        ) + seq![invocation.settings],
        invocation_bytes(invocation).last() == invocation.settings,
{
}

/// What is told of bytes that are no message.
pub proof fn law_wire_mistakes_are_named(tag: u8, text: Seq<char>)
    ensures
        wire_error_text(WireErrorView::Truncated) == "failed to fill whole buffer"@,
        wire_error_text(WireErrorView::UnknownTag(tag)) == "unknown frame tag "@ + decimal_form(
            tag as nat,
        ),
        wire_error_text(WireErrorView::InvalidText(text)) == text,
        wire_error_text(WireErrorView::BadHost(text)) == error_text(ErrorView::BadHost(text)),
{
}

/// A frame is seen as what it holds.
pub proof fn law_frames_are_seen_as_they_are(frame: Frame)
    ensures
        frame matches Frame::Stdout(bytes) ==> frame@ == FrameView::Stdout(bytes@),
        frame matches Frame::Stderr(bytes) ==> frame@ == FrameView::Stderr(bytes@),
        frame matches Frame::Status(verb, message) ==> frame@ == FrameView::Status(verb@, message@),
        frame matches Frame::Failed(why) ==> frame@ == FrameView::Failed(why@),
        frame matches Frame::Exit(code) ==> frame@ == FrameView::Exit(code),
{
}

} // verus!
