//! Text as contracts see it: a string is the sequence of its characters.
//!
//! The helpers here do what the rest of the library needs done with text: comparing,
//! copying, gluing pieces together, writing numbers, trimming.

use vstd::prelude::*;
use vstd::utf8::{decode_utf8, encode_utf8, valid_utf8};

verus! {

/// The texts held by a list of strings.
pub open spec fn texts(list: Seq<String>) -> Seq<Seq<char>> {
    Seq::new(list.len(), |i: int| list[i]@)
}

/// The text an attempt gave, or the text of what went wrong.
pub open spec fn outcome(r: Result<String, String>) -> Result<Seq<char>, Seq<char>> {
    match r {
        Ok(text) => Ok(text@),
        Err(text) => Err(text@),
    }
}

/// A text that may be missing.
pub open spec fn maybe(text: Option<&str>) -> Option<Seq<char>> {
    match text {
        Some(t) => Some(t@),
        None => None,
    }
}

/// What `{:?}` prints of a text: the text in double quotes, with what needs escaping escaped.
pub uninterp spec fn debug_form(text: Seq<char>) -> Seq<char>;

/// `String::push` appends one character and leaves what was there in place.
pub assume_specification[ String::push ](s: &mut String, c: char)
    ensures
        final(s)@ == old(s)@.push(c),
;

/// What `FromUtf8Error` displays of bytes that are not well-formed.
pub uninterp spec fn utf8_complaint(bytes: Seq<u8>) -> Seq<char>;

/// `String::from_utf8` accepts exactly the well-formed byte strings, and the text it gives is the
/// one those bytes encode. Of any other it gives an error, which is handed on as what it
/// displays; that depends on the bytes alone.
#[verifier::external_body]
pub(crate) fn text_from_utf8(bytes: Vec<u8>) -> (r: Result<String, String>)
    ensures
        match r {
            Ok(text) => valid_utf8(bytes@) && text@ == decode_utf8(bytes@),
            Err(why) => !valid_utf8(bytes@) && why@ == utf8_complaint(bytes@),
        },
{
    String::from_utf8(bytes).map_err(|e| e.to_string())
}

/// `str` under `{:?}`. The escaping follows Unicode tables and is named rather than spelled
/// out; it depends on the text alone.
#[verifier::external_body]
pub(crate) fn debug_text(text: &str) -> (r: String)
    ensures
        r@ == debug_form(text@),
{
    format!("{text:?}")
}

/// Whether two texts are the same.
pub fn same_text(a: &str, b: &str) -> (r: bool)
    ensures
        r == (a@ == b@),
{
    let x = a.as_bytes();
    let y = b.as_bytes();
    proof {
        vstd::utf8::encode_utf8_decode_utf8(a@);
        vstd::utf8::encode_utf8_decode_utf8(b@);
    }
    if x.len() != y.len() {
        return false;
    }
    let mut i: usize = 0;
    while i < x.len()
        invariant
            i <= x@.len(),
            x@.len() == y@.len(),
            forall|j: int| 0 <= j < i ==> x@[j] == y@[j],
            x@ == encode_utf8(a@),
            y@ == encode_utf8(b@),
        decreases x@.len() - i,
    {
        if x[i] != y[i] {
            return false;
        }
        i += 1;
    }
    assert(x@ =~= y@);
    true
}

/// The characters of a text, one by one.
pub fn characters(s: &str) -> (r: Vec<char>)
    ensures
        r@ == s@,
{
    let mut out: Vec<char> = Vec::new();
    for c in it: s.chars()
        invariant
            out@ == it.seq().take(it.index()),
            it.seq() == s@,
    {
        out.push(c);
    }
    out
}

/// The text made of the characters from `from` up to, but without, `to`.
pub fn text_between(chars: &[char], from: usize, to: usize) -> (r: String)
    requires
        from <= to <= chars@.len(),
    ensures
        r@ == chars@.subrange(from as int, to as int),
{
    let mut out = String::new();
    let mut i: usize = from;
    while i < to
        invariant
            from <= i <= to <= chars@.len(),
            out@ == chars@.subrange(from as int, i as int),
        decreases to - i,
    {
        out.push(chars[i]);
        i += 1;
    }
    out
}

/// A copy of a text.
pub fn copy_text(s: &str) -> (r: String)
    ensures
        r@ == s@,
{
    s.to_string()
}

/// The bytes that encode a text.
pub fn bytes_of(s: &str) -> (r: Vec<u8>)
    ensures
        r@ == encode_utf8(s@),
{
    vstd::slice::slice_to_vec(s.as_bytes())
}

/// A copy of a list of texts.
pub fn copy_texts(list: &[String]) -> (r: Vec<String>)
    ensures
        texts(r@) == texts(list@),
{
    let mut out: Vec<String> = Vec::new();
    let mut i: usize = 0;
    while i < list.len()
        invariant
            i <= list@.len(),
            out@.len() == i,
            forall|j: int| 0 <= j < i ==> out@[j]@ == list@[j]@,
        decreases list@.len() - i,
    {
        out.push(list[i].clone());
        i += 1;
    }
    out
}

/// Whether a text is in a list.
pub fn has_text(list: &[String], wanted: &str) -> (r: bool)
    ensures
        r == texts(list@).contains(wanted@),
{
    let mut i: usize = 0;
    while i < list.len()
        invariant
            i <= list@.len(),
            forall|j: int| 0 <= j < i ==> texts(list@)[j] != wanted@,
        decreases list@.len() - i,
    {
        if same_text(list[i].as_str(), wanted) {
            assert(texts(list@)[i as int] == wanted@);
            return true;
        }
        i += 1;
    }
    false
}

/// Two texts one after the other.
pub fn glue2(a: &str, b: &str) -> (r: String)
    ensures
        r@ == a@ + b@,
{
    copy_text(a).concat(b)
}

/// Three texts one after the other.
pub fn glue3(a: &str, b: &str, c: &str) -> (r: String)
    ensures
        r@ == a@ + b@ + c@,
{
    copy_text(a).concat(b).concat(c)
}

/// Four texts one after the other.
pub fn glue4(a: &str, b: &str, c: &str, d: &str) -> (r: String)
    ensures
        r@ == a@ + b@ + c@ + d@,
{
    copy_text(a).concat(b).concat(c).concat(d)
}

/// Five texts one after the other.
pub fn glue5(a: &str, b: &str, c: &str, d: &str, e: &str) -> (r: String)
    ensures
        r@ == a@ + b@ + c@ + d@ + e@,
{
    copy_text(a).concat(b).concat(c).concat(d).concat(e)
}

/// Whether `text` begins with `prefix`.
pub open spec fn begins_with(text: Seq<char>, prefix: Seq<char>) -> bool {
    &&& prefix.len() <= text.len()
    &&& text.subrange(0, prefix.len() as int) == prefix
}

/// What follows `prefix` in `text`, where `text` begins with it.
pub fn after_prefix(text: &str, prefix: &str) -> (r: Option<String>)
    ensures
        match r {
            Some(rest) => begins_with(text@, prefix@) && text@ == prefix@ + rest@,
            None => !begins_with(text@, prefix@),
        },
{
    let t = characters(text);
    let p = characters(prefix);
    if p.len() > t.len() {
        return None;
    }
    let mut i: usize = 0;
    while i < p.len()
        invariant
            i <= p@.len() <= t@.len(),
            t@ == text@,
            p@ == prefix@,
            forall|j: int| 0 <= j < i ==> t@[j] == p@[j],
        decreases p@.len() - i,
    {
        if t[i] != p[i] {
            proof {
                if begins_with(text@, prefix@) {
                    assert(text@.subrange(0, prefix@.len() as int)[i as int] == prefix@[i as int]);
                }
            }
            return None;
        }
        i += 1;
    }
    assert(text@.subrange(0, prefix@.len() as int) =~= prefix@);
    let rest = text_between(t.as_slice(), p.len(), t.len());
    assert(text@ =~= prefix@ + rest@);
    Some(rest)
}

/// The character that stands for one decimal digit.
pub open spec fn digit_char(d: nat) -> char
    recommends
        d < 10,
{
    (48 + d) as char
}

/// A number in decimal, without leading zeros.
pub open spec fn decimal_form(n: nat) -> Seq<char>
    decreases n,
{
    if n < 10 {
        seq![digit_char(n)]
    } else {
        decimal_form(n / 10).push(digit_char(n % 10))
    }
}

/// A number in decimal, with a minus sign where it is negative.
pub open spec fn signed_form(n: int) -> Seq<char> {
    if n < 0 {
        seq!['-'] + decimal_form((-n) as nat)
    } else {
        decimal_form(n as nat)
    }
}

/// Writes a number in decimal.
pub fn decimal(n: u64) -> (r: String)
    ensures
        r@ == decimal_form(n as nat),
    decreases n,
{
    let last: u8 = (n % 10) as u8;
    let c = (48 + last) as char;
    if n < 10 {
        let mut out = String::new();
        out.push(c);
        assert(out@ =~= seq![c]);
        out
    } else {
        let mut out = decimal(n / 10);
        out.push(c);
        out
    }
}

/// Writes a number in decimal, with its sign where it is negative.
pub fn signed_decimal(n: i32) -> (r: String)
    ensures
        r@ == signed_form(n as int),
{
    if n < 0 {
        let positive: u64 = (-(n as i64)) as u64;
        let digits = decimal(positive);
        let out = glue2("-", digits.as_str());
        proof {
            reveal_strlit("-");
            assert("-"@ =~= seq!['-']);
        }
        out
    } else {
        decimal(n as u64)
    }
}

/// The characters that Unicode calls white space.
pub open spec fn is_white(c: char) -> bool {
    ||| '\u{9}' <= c <= '\u{d}'
    ||| c == ' '
    ||| c == '\u{85}'
    ||| c == '\u{a0}'
    ||| c == '\u{1680}'
    ||| '\u{2000}' <= c <= '\u{200a}'
    ||| c == '\u{2028}'
    ||| c == '\u{2029}'
    ||| c == '\u{202f}'
    ||| c == '\u{205f}'
    ||| c == '\u{3000}'
}

/// `text` without the white space at its start.
pub open spec fn without_leading_white(text: Seq<char>) -> Seq<char>
    decreases text.len(),
{
    if text.len() > 0 && is_white(text[0]) {
        without_leading_white(text.drop_first())
    } else {
        text
    }
}

/// `text` without the white space at its end.
pub open spec fn without_trailing_white(text: Seq<char>) -> Seq<char>
    decreases text.len(),
{
    if text.len() > 0 && is_white(text.last()) {
        without_trailing_white(text.drop_last())
    } else {
        text
    }
}

/// `text` without the white space around it.
pub open spec fn trimmed(text: Seq<char>) -> Seq<char> {
    without_trailing_white(without_leading_white(text))
}

fn white(c: char) -> (r: bool)
    ensures
        r == is_white(c),
{
    ('\u{9}' <= c && c <= '\u{d}') || c == ' ' || c == '\u{85}' || c == '\u{a0}' || c == '\u{1680}'
        || ('\u{2000}' <= c && c <= '\u{200a}') || c == '\u{2028}' || c == '\u{2029}'
        || c == '\u{202f}' || c == '\u{205f}' || c == '\u{3000}'
}

/// Takes the white space off both ends of a text.
pub fn trim(text: &str) -> (r: String)
    ensures
        r@ == trimmed(text@),
{
    let chars = characters(text);
    let mut from: usize = 0;
    assert(chars@.skip(0) =~= text@);
    while from < chars.len() && white(chars[from])
        invariant
            from <= chars@.len(),
            without_leading_white(text@) == without_leading_white(chars@.skip(from as int)),
        decreases chars@.len() - from,
    {
        assert(chars@.skip(from as int).drop_first() =~= chars@.skip(from + 1));
        from += 1;
    }
    let ghost left = chars@.skip(from as int);
    assert(without_leading_white(text@) == left);
    let mut to: usize = chars.len();
    assert(left =~= chars@.subrange(from as int, to as int));
    while to > from && white(chars[to - 1])
        invariant
            from <= to <= chars@.len(),
            without_trailing_white(left) == without_trailing_white(
                chars@.subrange(from as int, to as int),
            ),
        decreases to,
    {
        assert(chars@.subrange(from as int, to as int).drop_last() =~= chars@.subrange(
            from as int,
            to - 1,
        ));
        to -= 1;
    }
    text_between(chars.as_slice(), from, to)
}

/// An ASCII capital letter as its small letter; any other character as it is.
pub open spec fn small_char(c: char) -> char {
    if 'A' <= c <= 'Z' {
        (c as u32 + 32) as char
    } else {
        c
    }
}

/// `text` with ASCII capital letters made small.
pub open spec fn small_letters(text: Seq<char>) -> Seq<char> {
    text.map_values(|c: char| small_char(c))
}

/// Makes the ASCII capital letters of a text small.
pub fn to_small_letters(text: &str) -> (r: String)
    ensures
        r@ == small_letters(text@),
{
    let chars = characters(text);
    let mut out = String::new();
    let mut i: usize = 0;
    while i < chars.len()
        invariant
            i <= chars@.len(),
            chars@ == text@,
            out@ == small_letters(text@).take(i as int),
        decreases chars@.len() - i,
    {
        let c = chars[i];
        let small = if 'A' <= c && c <= 'Z' {
            (c as u8 + 32) as char
        } else {
            c
        };
        assert(small == small_char(c));
        out.push(small);
        i += 1;
    }
    assert(small_letters(text@).take(i as int) =~= small_letters(text@));
    out
}

/// A number in decimal is its last digit behind what the rest of it is in decimal; one below ten
/// is a single digit.
pub proof fn law_decimal_goes_digit_by_digit(n: nat)
    ensures
        n < 10 ==> decimal_form(n) == seq![(48 + n) as char],
        n >= 10 ==> decimal_form(n) == decimal_form(n / 10) + seq![(48 + n % 10) as char],
        decimal_form(n).len() > 0,
        decimal_form(n).len() > 1 ==> decimal_form(n)[0] != '0',
    decreases n,
{
    if n >= 10 {
        law_decimal_goes_digit_by_digit(n / 10);
        assert(decimal_form(n) =~= decimal_form(n / 10) + seq![(48 + n % 10) as char]);
        if decimal_form(n / 10).len() == 1 {
            assert(n / 10 < 10) by {
                if n / 10 >= 10 {
                    assert(decimal_form(n / 10).len() == decimal_form(n / 10 / 10).len() + 1);
                    law_decimal_goes_digit_by_digit(n / 10 / 10);
                }
            }
            assert(decimal_form(n)[0] == (48 + n / 10) as char);
        } else {
            assert(decimal_form(n)[0] == decimal_form(n / 10)[0]);
        }
    }
}

/// A negative number is a minus sign in front of the number without it.
pub proof fn law_sign_stands_in_front(n: nat)
    ensures
        signed_form(n as int) == decimal_form(n),
        n > 0 ==> signed_form(-(n as int)) == seq!['-'] + decimal_form(n),
{
}

/// What counts as white space: the blanks, the line ends and the spaces of Unicode.
pub proof fn law_white_space(c: char)
    ensures
        is_white(c) <==> ((c as u32) == 0x20 || 0x09 <= (c as u32) <= 0x0d || (c as u32) == 0x85
            || (c as u32) == 0xa0 || (c as u32) == 0x1680 || 0x2000 <= (c as u32) <= 0x200a
            || (c as u32) == 0x2028 || (c as u32) == 0x2029 || (c as u32) == 0x202f || (c as u32)
            == 0x205f || (c as u32) == 0x3000),
{
}

proof fn lemma_leading(text: Seq<char>) -> (n: int)
    ensures
        0 <= n <= text.len(),
        without_leading_white(text) == text.skip(n),
        forall|i: int| 0 <= i < n ==> is_white(#[trigger] text[i]),
        n < text.len() ==> !is_white(text[n]),
    decreases text.len(),
{
    if text.len() > 0 && is_white(text[0]) {
        let rest = text.drop_first();
        let n = lemma_leading(rest);
        assert(rest.skip(n) =~= text.skip(n + 1));
        assert forall|i: int| 0 <= i < n + 1 implies is_white(#[trigger] text[i]) by {
            if i > 0 {
                assert(rest[i - 1] == text[i]);
            }
        }
        if n < rest.len() {
            assert(rest[n] == text[n + 1]);
        }
        n + 1
    } else {
        assert(text.skip(0) =~= text);
        0
    }
}

proof fn lemma_trailing(text: Seq<char>) -> (n: int)
    ensures
        0 <= n <= text.len(),
        without_trailing_white(text) == text.take(n),
        forall|i: int| n <= i < text.len() ==> is_white(#[trigger] text[i]),
        n > 0 ==> !is_white(text[n - 1]),
    decreases text.len(),
{
    if text.len() > 0 && is_white(text.last()) {
        let rest = text.drop_last();
        let n = lemma_trailing(rest);
        assert(rest.take(n) =~= text.take(n));
        assert forall|i: int| n <= i < text.len() implies is_white(#[trigger] text[i]) by {
            if i < rest.len() {
                assert(rest[i] == text[i]);
            }
        }
        if n > 0 {
            assert(rest[n - 1] == text[n - 1]);
        }
        n
    } else {
        assert(text.take(text.len() as int) =~= text);
        text.len() as int
    }
}

/// Trimming takes white space off both ends and nothing else: what is left stands somewhere in
/// the text, has only white space around it, and neither begins nor ends with any.
pub proof fn law_trimming(text: Seq<char>)
    ensures
        exists|from: int, to: int|
            {
                &&& 0 <= from <= to <= text.len()
                &&& trimmed(text) == #[trigger] text.subrange(from, to)
                &&& forall|i: int| 0 <= i < from ==> is_white(#[trigger] text[i])
                &&& forall|i: int| to <= i < text.len() ==> is_white(#[trigger] text[i])
            },
        trimmed(text).len() > 0 ==> !is_white(trimmed(text)[0]) && !is_white(trimmed(text).last()),
{
    let from = lemma_leading(text);
    let left = text.skip(from);
    let n = lemma_trailing(left);
    let to = from + n;
    assert(left.take(n) =~= text.subrange(from, to));
    assert forall|i: int| to <= i < text.len() implies is_white(#[trigger] text[i]) by {
        assert(left[i - from] == text[i]);
    }
    if n > 0 {
        assert(trimmed(text)[0] == left[0] && left[0] == text[from]);
        assert(trimmed(text).last() == left[n - 1]);
    }
}

/// Making letters small changes the capital letters from A to Z, each to its own small letter,
/// and nothing else.
pub proof fn law_small_letters(text: Seq<char>)
    ensures
        small_letters(text).len() == text.len(),
        forall|i: int|
            0 <= i < text.len() ==> {
                if 65 <= (#[trigger] text[i]) as u32 <= 90 {
                    small_letters(text)[i] as u32 == text[i] as u32 + 32
                } else {
                    small_letters(text)[i] == text[i]
                }
            },
{
}

/// Texts are seen as the characters they hold, in their order; what may be missing, or may have
/// failed, is seen as that.
pub proof fn law_texts_are_seen_as_they_are(
    list: Seq<String>,
    i: int,
    found: Result<String, String>,
    text: Option<&str>,
)
    ensures
        texts(list).len() == list.len(),
        0 <= i < list.len() ==> texts(list)[i] == list[i]@,
        found matches Ok(held) ==> outcome(found) == Ok::<Seq<char>, Seq<char>>(held@),
        found matches Err(why) ==> outcome(found) == Err::<Seq<char>, Seq<char>>(why@),
        text matches Some(held) ==> maybe(text) == Some(held@),
        text is None ==> maybe(text) is None,
{
}

} // verus!
