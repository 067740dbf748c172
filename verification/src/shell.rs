//! Handing text to a POSIX shell.
//!
//! [`Quoted`] is text already escaped for a shell. What a shell makes of a line of quoted
//! words is modelled by [`shell_words`], and the laws at the end say that it reads back
//! exactly the words that were quoted.

use crate::text::{characters, glue3};
use vstd::prelude::*;

verus! {

/// One character inside single quotes. A quote cannot stand there, so it closes the
/// quotation, appears escaped, and opens the quotation again.
pub open spec fn escaped_char(c: char) -> Seq<char> {
    if c == '\'' {
        seq!['\'', '\\', '\'', '\'']
    } else {
        seq![c]
    }
}

/// `raw` as it stands between the outer quotes.
pub open spec fn escaped(raw: Seq<char>) -> Seq<char>
    decreases raw.len(),
{
    if raw.len() == 0 {
        Seq::empty()
    } else {
        escaped(raw.drop_last()) + escaped_char(raw.last())
    }
}

/// `raw` wrapped in single quotes.
pub open spec fn quoted(raw: Seq<char>) -> Seq<char> {
    seq!['\''] + escaped(raw) + seq!['\'']
}

/// A string already escaped for a POSIX shell.
///
/// Cargo flags travel from a local command line into one that a remote shell parses, which is
/// exactly where an unescaped argument would be taken for a command. The only constructor is
/// [`Quoted::new`], and remote commands are assembled from `Quoted` values.
#[derive(Debug, PartialEq, Eq)]
pub struct Quoted(String);

impl Clone for Quoted {
    fn clone(&self) -> (r: Self)
        ensures
            r@ == self@,
    {
        proof {
            use_type_invariant(self);
        }
        Quoted(self.0.clone())
    }
}

impl View for Quoted {
    type V = Seq<char>;

    closed spec fn view(&self) -> Seq<char> {
        self.0@
    }
}

impl Quoted {
    /// Every value is some text in its quoted form.
    #[verifier::type_invariant]
    spec fn is_some_text_quoted(self) -> bool {
        exists|raw: Seq<char>| self.0@ == quoted(raw)
    }

    /// Wraps the argument in single quotes, which suppress every shell expansion; `it's`
    /// becomes `'it'\''s'`.
    pub fn new(raw: &str) -> (r: Quoted)
        ensures
            r@ == quoted(raw@),
    {
        let chars = characters(raw);
        let mut inner = String::new();
        let mut i: usize = 0;
        while i < chars.len()
            invariant
                i <= chars@.len(),
                inner@ == escaped(chars@.take(i as int)),
            decreases chars@.len() - i,
        {
            let c = chars[i];
            assert(chars@.take(i + 1).drop_last() =~= chars@.take(i as int));
            if c == '\'' {
                inner.push('\'');
                inner.push('\\');
                inner.push('\'');
                inner.push('\'');
            } else {
                inner.push(c);
            }
            assert(inner@ =~= escaped(chars@.take(i as int)) + escaped_char(c));
            i += 1;
        }
        assert(chars@.take(i as int) =~= raw@);
        proof {
            reveal_strlit("'");
            assert("'"@ =~= seq!['\'']);
        }
        let text = glue3("'", inner.as_str(), "'");
        assert(text@ == quoted(raw@));
        Quoted(text)
    }

    /// The escaped text.
    pub fn as_str(&self) -> (r: &str)
        ensures
            r@ == self@,
    {
        self.0.as_str()
    }
}

/// The texts of a list of quoted values.
pub open spec fn quoted_texts(list: Seq<Quoted>) -> Seq<Seq<char>> {
    Seq::new(list.len(), |i: int| list[i]@)
}

/// Every text of a list, each with a space in front.
pub open spec fn spaced(list: Seq<Seq<char>>) -> Seq<char>
    decreases list.len(),
{
    if list.len() == 0 {
        Seq::empty()
    } else {
        spaced(list.drop_last()) + seq![' '] + list.last()
    }
}

/// Every text of a list, quoted.
pub open spec fn all_quoted(raws: Seq<Seq<char>>) -> Seq<Seq<char>> {
    raws.map_values(|raw: Seq<char>| quoted(raw))
}

/// Appends every quoted value to a command, each with a space in front. Whatever the values
/// are, a shell reads what was appended as a list of plain words.
pub(crate) fn append_quoted(command: &mut String, args: &[Quoted])
    ensures
        final(command)@ == old(command)@ + spaced(quoted_texts(args@)),
        shell_words(spaced(quoted_texts(args@))) is Some,
{
    let ghost start = command@;
    let ghost mut raws: Seq<Seq<char>> = Seq::empty();
    let mut i: usize = 0;
    assert(quoted_texts(args@).take(0) =~= Seq::empty());
    assert(start + spaced(quoted_texts(args@).take(0)) =~= start);
    while i < args.len()
        invariant
            i <= args@.len(),
            command@ == start + spaced(quoted_texts(args@).take(i as int)),
            raws.len() == i,
            all_quoted(raws) == quoted_texts(args@).take(i as int),
        decreases args@.len() - i,
    {
        let ghost before = command@;
        let arg = &args[i];
        proof {
            use_type_invariant(arg);
            let raw = choose|raw: Seq<char>| args@[i as int].0@ == quoted(raw);
            assert(all_quoted(raws.push(raw)) =~= quoted_texts(args@).take(i + 1));
            raws = raws.push(raw);
        }
        command.push(' ');
        command.append(arg.as_str());
        proof {
            let all = quoted_texts(args@);
            assert(all.take(i + 1).drop_last() =~= all.take(i as int));
            assert(all.take(i + 1).last() == args@[i as int]@);
            assert(command@ =~= before + seq![' '] + args@[i as int]@);
            assert(command@ =~= start + (spaced(all.take(i as int)) + seq![' ']
                + args@[i as int]@));
        }
        i += 1;
    }
    assert(quoted_texts(args@).take(i as int) =~= quoted_texts(args@));
    proof {
        law_quoted_list_is_read_back(raws);
    }
}

/// What a shell is in the middle of while it reads a line.
pub enum Reading {
    /// Outside any quotes.
    Plain,
    /// Between single quotes.
    Single,
    /// Right behind a backslash outside quotes.
    Escape,
}

/// Characters that stand for themselves wherever a shell finds them outside quotes.
pub open spec fn is_ordinary(c: char) -> bool {
    ||| 'a' <= c <= 'z'
    ||| 'A' <= c <= 'Z'
    ||| '0' <= c <= '9'
    ||| c == '.'
    ||| c == '-'
    ||| c == '_'
    ||| c == '@'
    ||| c == '/'
    ||| c == ':'
    ||| c == ','
    ||| c == '+'
    ||| c == '%'
}

/// Reads the rest of a line, `done` being the words already complete and `word` the one
/// being read, if one has begun.
///
/// Single quotes take everything between them as it is. A backslash outside quotes takes the
/// next character as it is. Blanks end a word. Any other character that is not ordinary could
/// mean something else to a shell, and the line is then not a list of plain words.
pub open spec fn read_words(
    line: Seq<char>,
    reading: Reading,
    word: Option<Seq<char>>,
    done: Seq<Seq<char>>,
) -> Option<Seq<Seq<char>>>
    decreases line.len(),
{
    if line.len() == 0 {
        match reading {
            Reading::Plain => match word {
                Some(w) => Some(done.push(w)),
                None => Some(done),
            },
            _ => None,
        }
    } else {
        let c = line[0];
        let rest = line.drop_first();
        let so_far = match word {
            Some(w) => w,
            None => Seq::empty(),
        };
        match reading {
            Reading::Single => if c == '\'' {
                read_words(rest, Reading::Plain, Some(so_far), done)
            } else {
                read_words(rest, Reading::Single, Some(so_far.push(c)), done)
            },
            Reading::Escape => if c == '\n' {
                read_words(rest, Reading::Plain, word, done)
            } else {
                read_words(rest, Reading::Plain, Some(so_far.push(c)), done)
            },
            Reading::Plain => if c == '\'' {
                read_words(rest, Reading::Single, Some(so_far), done)
            } else if c == '\\' {
                read_words(rest, Reading::Escape, word, done)
            } else if c == ' ' || c == '\t' {
                match word {
                    Some(w) => read_words(rest, Reading::Plain, None, done.push(w)),
                    None => read_words(rest, Reading::Plain, None, done),
                }
            } else if is_ordinary(c) {
                read_words(rest, Reading::Plain, Some(so_far.push(c)), done)
            } else {
                None
            },
        }
    }
}

/// The words a shell reads from a line, where the line is nothing but plain words.
pub open spec fn shell_words(line: Seq<char>) -> Option<Seq<Seq<char>>> {
    read_words(line, Reading::Plain, None, Seq::empty())
}

/// `a + b` with its first character taken off.
proof fn lemma_drop_first_of_sum(a: Seq<char>, b: Seq<char>)
    requires
        a.len() > 0,
    ensures
        (a + b)[0] == a[0],
        (a + b).drop_first() == a.drop_first() + b,
{
    assert((a + b).drop_first() =~= a.drop_first() + b);
}

/// `escaped` taken apart at the front.
proof fn lemma_escaped_front(raw: Seq<char>)
    requires
        raw.len() > 0,
    ensures
        escaped(raw) == escaped_char(raw[0]) + escaped(raw.drop_first()),
    decreases raw.len(),
{
    if raw.len() == 1 {
        assert(raw.drop_last() =~= Seq::empty());
        assert(raw.drop_first() =~= Seq::empty());
        assert(escaped(raw) =~= escaped_char(raw[0]) + escaped(raw.drop_first()));
    } else {
        let front = raw.drop_last();
        lemma_escaped_front(front);
        assert(front.drop_first() =~= raw.drop_first().drop_last());
        assert(raw.drop_first().last() == raw.last());
        assert(escaped(raw) =~= escaped_char(raw[0]) + escaped(raw.drop_first()));
    }
}

/// Between quotes, escaped text adds exactly what was escaped to the word being read.
proof fn lemma_read_escaped(
    raw: Seq<char>,
    rest: Seq<char>,
    so_far: Seq<char>,
    done: Seq<Seq<char>>,
)
    ensures
        read_words(escaped(raw) + rest, Reading::Single, Some(so_far), done) == read_words(
            rest,
            Reading::Single,
            Some(so_far + raw),
            done,
        ),
    decreases raw.len(),
{
    if raw.len() == 0 {
        assert(escaped(raw) + rest =~= rest);
        assert(so_far + raw =~= so_far);
    } else {
        let c = raw[0];
        let tail = raw.drop_first();
        let behind = escaped(tail) + rest;
        lemma_escaped_front(raw);
        assert(escaped(raw) + rest =~= escaped_char(c) + behind);
        lemma_read_escaped(tail, rest, so_far.push(c), done);
        assert(so_far.push(c) + tail =~= so_far + raw);
        if c == '\'' {
            let q = escaped_char(c);
            lemma_drop_first_of_sum(q, behind);
            assert(q.drop_first() =~= seq!['\\', '\'', '\'']);
            lemma_drop_first_of_sum(q.drop_first(), behind);
            assert(q.drop_first().drop_first() =~= seq!['\'', '\'']);
            lemma_drop_first_of_sum(q.drop_first().drop_first(), behind);
            assert(q.drop_first().drop_first().drop_first() =~= seq!['\'']);
            lemma_drop_first_of_sum(q.drop_first().drop_first().drop_first(), behind);
            assert(q.drop_first().drop_first().drop_first().drop_first() + behind =~= behind);
            reveal_with_fuel(read_words, 5);
        } else {
            lemma_drop_first_of_sum(escaped_char(c), behind);
            assert(escaped_char(c).drop_first() + behind =~= behind);
        }
    }
}

/// A quoted text is read as one word, or as part of the word it is glued to, and leaves the
/// shell outside quotes.
proof fn lemma_read_quoted(
    raw: Seq<char>,
    rest: Seq<char>,
    word: Option<Seq<char>>,
    done: Seq<Seq<char>>,
)
    ensures
        ({
            let so_far = match word {
                Some(w) => w,
                None => Seq::empty(),
            };
            read_words(quoted(raw) + rest, Reading::Plain, word, done) == read_words(
                rest,
                Reading::Plain,
                Some(so_far + raw),
                done,
            )
        }),
{
    let so_far = match word {
        Some(w) => w,
        None => Seq::empty(),
    };
    let close = seq!['\''] + rest;
    assert(quoted(raw) + rest =~= seq!['\''] + (escaped(raw) + close));
    assert((quoted(raw) + rest).drop_first() =~= escaped(raw) + close);
    lemma_read_escaped(raw, close, so_far, done);
    assert(close.drop_first() =~= rest);
}

/// Quoting is undone by the shell: whatever the text, its quoted form is read as one word, and
/// that word is the text.
pub proof fn law_quoted_text_is_one_word(raw: Seq<char>)
    ensures
        shell_words(quoted(raw)) == Some(seq![raw]),
{
    lemma_read_quoted(raw, Seq::empty(), None, Seq::empty());
    assert(quoted(raw) + Seq::<char>::empty() =~= quoted(raw));
    assert(Seq::<char>::empty() + raw =~= raw);
    assert(Seq::<Seq<char>>::empty().push(raw) =~= seq![raw]);
}

proof fn lemma_read_spaced(
    raws: Seq<Seq<char>>,
    rest: Seq<char>,
)
    ensures
        raws.len() > 0 ==> read_words(
            spaced(all_quoted(raws)) + rest,
            Reading::Plain,
            None,
            Seq::empty(),
        ) == read_words(rest, Reading::Plain, Some(raws.last()), raws.drop_last()),
    decreases raws.len(),
{
    if raws.len() > 0 {
        let front = raws.drop_last();
        let last = raws.last();
        assert(all_quoted(raws).drop_last() =~= all_quoted(front));
        assert(all_quoted(raws).last() == quoted(last));
        let tail = seq![' '] + (quoted(last) + rest);
        assert(spaced(all_quoted(raws)) + rest =~= spaced(all_quoted(front)) + tail);
        assert(tail.drop_first() =~= quoted(last) + rest);
        lemma_read_quoted(last, rest, None, front);
        assert(Seq::<char>::empty() + last =~= last);
        if front.len() == 0 {
            assert(spaced(all_quoted(front)) + tail =~= tail);
            assert(front =~= Seq::empty());
        } else {
            lemma_read_spaced(front, tail);
            assert(front.drop_last().push(front.last()) =~= front);
        }
    }
}

/// A line of quoted texts, each with a space in front, is read as exactly those texts: none is
/// split, none is merged with its neighbour, none is expanded or run.
pub proof fn law_quoted_list_is_read_back(raws: Seq<Seq<char>>)
    ensures
        shell_words(spaced(all_quoted(raws))) == Some(raws),
{
    let line = spaced(all_quoted(raws));
    if raws.len() == 0 {
        assert(raws =~= Seq::empty());
    } else {
        lemma_read_spaced(raws, Seq::empty());
        assert(line + Seq::<char>::empty() =~= line);
        assert(raws.drop_last().push(raws.last()) =~= raws);
    }
}

proof fn lemma_read_ordinary(text: Seq<char>, so_far: Seq<char>, done: Seq<Seq<char>>)
    requires
        forall|i: int| 0 <= i < text.len() ==> is_ordinary(#[trigger] text[i]),
    ensures
        read_words(text, Reading::Plain, Some(so_far), done) == Some(done.push(so_far + text)),
    decreases text.len(),
{
    if text.len() == 0 {
        assert(so_far + text =~= so_far);
    } else {
        assert(is_ordinary(text[0]));
        assert forall|i: int| 0 <= i < text.drop_first().len() implies is_ordinary(
            #[trigger] text.drop_first()[i],
        ) by {
            assert(is_ordinary(text[i + 1]));
        }
        lemma_read_ordinary(text.drop_first(), so_far.push(text[0]), done);
        assert(so_far.push(text[0]) + text.drop_first() =~= so_far + text);
    }
}

/// Text made of ordinary characters needs no quotes: a shell reads it as the one word it is.
pub proof fn law_ordinary_text_is_one_word(text: Seq<char>)
    requires
        text.len() > 0,
        forall|i: int| 0 <= i < text.len() ==> is_ordinary(#[trigger] text[i]),
    ensures
        shell_words(text) == Some(seq![text]),
{
    assert(is_ordinary(text[0]));
    assert forall|i: int| 0 <= i < text.drop_first().len() implies is_ordinary(
        #[trigger] text.drop_first()[i],
    ) by {
        assert(is_ordinary(text[i + 1]));
    }
    lemma_read_ordinary(text.drop_first(), seq![text[0]], Seq::empty());
    assert(Seq::<char>::empty().push(text[0]) =~= seq![text[0]]);
    assert(seq![text[0]] + text.drop_first() =~= text);
    assert(Seq::<Seq<char>>::empty().push(text) =~= seq![text]);
}

/// Quoted text is what was quoted between two single quotes, character by character: a quote as
/// `'\''`, any other character as itself.
pub proof fn law_quoting_goes_character_by_character(raw: Seq<char>, c: char)
    ensures
        quoted(Seq::<char>::empty()) == seq!['\'', '\''],
        c == '\'' ==> quoted(raw.push(c)) == quoted(raw).drop_last() + seq![
            '\'',
            '\\',
            '\'',
            '\'',
            '\'',
        ],
        c != '\'' ==> quoted(raw.push(c)) == quoted(raw).drop_last() + seq![c, '\''],
{
    assert(raw.push(c).drop_last() =~= raw);
    assert(quoted(Seq::<char>::empty()) =~= seq!['\'', '\'']);
    assert(quoted(raw).drop_last() =~= seq!['\''] + escaped(raw));
    if c == '\'' {
        assert(quoted(raw.push(c)) =~= quoted(raw).drop_last() + seq!['\'', '\\', '\'', '\'', '\'']);
    } else {
        assert(quoted(raw.push(c)) =~= quoted(raw).drop_last() + seq![c, '\'']);
    }
}

/// A list is put on a command line with one space in front of each of its texts, in order.
pub proof fn law_a_list_is_spaced_out(list: Seq<Seq<char>>, last: Seq<char>)
    ensures
        spaced(Seq::<Seq<char>>::empty()) == Seq::<char>::empty(),
        spaced(list.push(last)) == spaced(list) + seq![' '] + last,
        all_quoted(list.push(last)) == all_quoted(list).push(quoted(last)),
        all_quoted(list).len() == list.len(),
{
    assert(list.push(last).drop_last() =~= list);
    assert(all_quoted(list.push(last)) =~= all_quoted(list).push(quoted(last)));
}

/// What the model of a shell takes for plain: nothing that a shell could expand, redirect, or
/// end a command with is read outside quotes.
pub proof fn law_nothing_special_is_read_plainly(line: Seq<char>, c: char)
    requires
        line.len() > 0,
        line[0] == c,
        c == '$' || c == '`' || c == ';' || c == '&' || c == '|' || c == '<' || c == '>' || c == '('
            || c == ')' || c == '*' || c == '?' || c == '[' || c == '~' || c == '#' || c == '"' || c
            == '\n' || c == '!' || c == '{' || c == '}',
    ensures
        shell_words(line) is None,
{
}

} // verus!
