//! Unix paths, held as text.

use crate::text::{characters, copy_text, glue2, glue3, text_between, texts};
use vstd::prelude::*;

verus! {

/// `rel` taken from `base`: an absolute path replaces the base, a relative one is put behind
/// it, with exactly one separator supplied where the base does not bring its own.
pub open spec fn joined(base: Seq<char>, rel: Seq<char>) -> Seq<char> {
    if rel.len() > 0 && rel[0] == '/' {
        rel
    } else if base.len() == 0 || base.last() == '/' {
        base + rel
    } else {
        base + "/"@ + rel
    }
}

/// Joins two paths.
pub fn join(base: &str, rel: &str) -> (r: String)
    ensures
        r@ == joined(base@, rel@),
{
    let b = characters(base);
    let t = characters(rel);
    if t.len() > 0 && t[0] == '/' {
        copy_text(rel)
    } else if b.len() == 0 || b[b.len() - 1] == '/' {
        glue2(base, rel)
    } else {
        glue3(base, "/", rel)
    }
}

/// Where the last component of a path begins: behind its last separator.
pub open spec fn last_start(path: Seq<char>) -> int
    decreases path.len(),
{
    if path.len() == 0 || path.last() == '/' {
        path.len() as int
    } else {
        last_start(path.drop_last())
    }
}

/// The name a path ends in. Separators at the end and components that are a single dot are
/// passed over; a path that ends in `..`, and one with no component at all, has no name.
pub open spec fn file_name(path: Seq<char>) -> Option<Seq<char>>
    decreases path.len(),
{
    if path.len() == 0 {
        None
    } else if path.last() == '/' {
        file_name(path.drop_last())
    } else {
        let name = path.skip(last_start(path));
        if name =~= seq!['.'] {
            file_name(path.drop_last())
        } else if name =~= seq!['.', '.'] {
            None
        } else {
            Some(name)
        }
    }
}

/// The name a path ends in, or `fallback` where it ends in none.
pub fn name_or(path: &str, fallback: &str) -> (r: String)
    ensures
        r@ == (match file_name(path@) {
            Some(name) => name,
            None => fallback@,
        }),
{
    let chars = characters(path);
    let mut end: usize = chars.len();
    assert(chars@.take(end as int) =~= path@);
    while end > 0
        invariant
            end <= chars@.len(),
            file_name(path@) == file_name(chars@.take(end as int)),
        decreases end,
    {
        let ghost here = chars@.take(end as int);
        assert(here.drop_last() =~= chars@.take(end - 1));
        if chars[end - 1] == '/' {
            end -= 1;
        } else {
            let mut start: usize = end;
            while start > 0 && chars[start - 1] != '/'
                invariant
                    start <= end <= chars@.len(),
                    last_start(here) == last_start(chars@.take(start as int)),
                    here == chars@.take(end as int),
                decreases start,
            {
                assert(chars@.take(start as int).drop_last() =~= chars@.take(start - 1));
                start -= 1;
            }
            assert(last_start(here) == start);
            assert(here.skip(start as int) =~= chars@.subrange(start as int, end as int));
            let ghost name = here.skip(start as int);
            if end - start == 1 && chars[start] == '.' {
                assert(name =~= seq!['.']);
                end -= 1;
            } else if end - start == 2 && chars[start] == '.' && chars[start + 1] == '.' {
                assert(name =~= seq!['.', '.']);
                return copy_text(fallback);
            } else {
                proof {
                    if name =~= seq!['.'] {
                        assert(name[0] == '.');
                    }
                    if name =~= seq!['.', '.'] {
                        assert(name[0] == '.' && name[1] == '.');
                    }
                }
                return text_between(chars.as_slice(), start, end);
            }
        }
    }
    copy_text(fallback)
}

/// A path without the separators and the single-dot components at its end. The root, and a
/// dot that is all there is, stay.
pub open spec fn tidied(path: Seq<char>) -> Seq<char>
    decreases path.len(),
{
    if path.len() >= 2 && (path.last() == '/' || (path.last() == '.' && path[path.len() - 2]
        == '/')) {
        tidied(path.drop_last())
    } else {
        path
    }
}

/// The path that a path's last component is in, if it has a component to take off.
pub open spec fn parent(path: Seq<char>) -> Option<Seq<char>> {
    let tidy = tidied(path);
    if tidy.len() == 0 || tidy == seq!['/'] {
        None
    } else {
        Some(tidied(tidy.take(last_start(tidy))))
    }
}

/// A path, the path above it, and so on up to the one that has none above it.
pub open spec fn ancestors_of(path: Seq<char>) -> Seq<Seq<char>>
    decreases path.len(),
{
    match parent(path) {
        None => seq![path],
        Some(up) => {
            proof {
                law_parent_is_shorter(path);
            }
            seq![path] + ancestors_of(up)
        },
    }
}

proof fn lemma_tidied(path: Seq<char>)
    ensures
        tidied(path).len() <= path.len(),
        tidied(path) == path.take(tidied(path).len() as int),
        path.len() > 0 ==> tidied(path).len() > 0,
        tidied(path).len() >= 2 ==> tidied(path).last() != '/',
    decreases path.len(),
{
    if path.len() >= 2 && (path.last() == '/' || (path.last() == '.' && path[path.len() - 2]
        == '/')) {
        lemma_tidied(path.drop_last());
        assert(tidied(path) =~= path.take(tidied(path).len() as int));
    } else {
        assert(path =~= path.take(path.len() as int));
    }
}

proof fn lemma_last_start(path: Seq<char>)
    ensures
        0 <= last_start(path) <= path.len(),
        path.len() > 0 && path.last() != '/' ==> last_start(path) < path.len(),
    decreases path.len(),
{
    if path.len() > 0 && path.last() != '/' {
        lemma_last_start(path.drop_last());
    }
}

/// Going up makes a path shorter.
pub proof fn law_parent_is_shorter(path: Seq<char>)
    ensures
        parent(path) matches Some(up) ==> up.len() < path.len(),
{
    let tidy = tidied(path);
    lemma_tidied(path);
    lemma_last_start(tidy);
    if parent(path) is Some {
        if tidy.len() == 1 && tidy[0] == '/' {
            assert(tidy =~= seq!['/']);
        }
        assert(tidy.last() != '/');
        lemma_tidied(tidy.take(last_start(tidy)));
    }
}

fn tidy_end(chars: &[char], end: usize) -> (r: usize)
    requires
        end <= chars@.len(),
    ensures
        r <= end,
        chars@.take(r as int) == tidied(chars@.take(end as int)),
{
    let mut to: usize = end;
    while to >= 2 && (chars[to - 1] == '/' || (chars[to - 1] == '.' && chars[to - 2] == '/'))
        invariant
            to <= end <= chars@.len(),
            tidied(chars@.take(end as int)) == tidied(chars@.take(to as int)),
        decreases to,
    {
        assert(chars@.take(to as int).drop_last() =~= chars@.take(to - 1));
        to -= 1;
    }
    to
}

/// The end of the part of a path that is above its last component, where it has one.
fn parent_end(chars: &[char], end: usize) -> (r: Option<usize>)
    requires
        end <= chars@.len(),
    ensures
        match r {
            Some(up) => up <= end && parent(chars@.take(end as int)) == Some(chars@.take(up as int)),
            None => parent(chars@.take(end as int)) is None,
        },
{
    let tidy = tidy_end(chars, end);
    let ghost clean = chars@.take(tidy as int);
    if tidy == 0 || (tidy == 1 && chars[0] == '/') {
        proof {
            if tidy == 1 {
                assert(clean =~= seq!['/']);
            }
        }
        return None;
    }
    proof {
        if clean =~= seq!['/'] {
            assert(clean[0] == '/');
        }
    }
    let mut start: usize = tidy;
    while start > 0 && chars[start - 1] != '/'
        invariant
            start <= tidy <= chars@.len(),
            last_start(clean) == last_start(chars@.take(start as int)),
        decreases start,
    {
        assert(chars@.take(start as int).drop_last() =~= chars@.take(start - 1));
        start -= 1;
    }
    assert(last_start(clean) == start);
    assert(clean.take(start as int) =~= chars@.take(start as int));
    Some(tidy_end(chars, start))
}

/// The path that a path's last component is in.
pub fn parent_of(path: &str) -> (r: Option<String>)
    ensures
        match r {
            Some(up) => parent(path@) == Some(up@),
            None => parent(path@) is None,
        },
{
    let chars = characters(path);
    assert(chars@.take(chars@.len() as int) =~= path@);
    match parent_end(chars.as_slice(), chars.len()) {
        Some(up) => {
            let text = text_between(chars.as_slice(), 0, up);
            assert(text@ =~= chars@.take(up as int));
            Some(text)
        },
        None => None,
    }
}

/// Every directory a search that starts at `path` looks in, nearest first.
pub fn ancestors(path: &str) -> (r: Vec<String>)
    ensures
        texts(r@) == ancestors_of(path@),
{
    let chars = characters(path);
    let mut out: Vec<String> = Vec::new();
    let mut end: usize = chars.len();
    let mut more = true;
    assert(chars@.take(end as int) =~= path@);
    while more
        invariant
            end <= chars@.len(),
            more ==> ancestors_of(path@) == texts(out@) + ancestors_of(chars@.take(end as int)),
            !more ==> ancestors_of(path@) == texts(out@),
        decreases (if more { end + 1 } else { 0 }),
    {
        let ghost before = texts(out@);
        let ghost here = chars@.take(end as int);
        let text = text_between(chars.as_slice(), 0, end);
        assert(text@ =~= here);
        out.push(text);
        assert(texts(out@) =~= before.push(here));
        proof {
            law_parent_is_shorter(here);
        }
        match parent_end(chars.as_slice(), end) {
            None => {
                assert(texts(out@) =~= before + seq![here]);
                more = false;
            },
            Some(up) => {
                let ghost above = chars@.take(up as int);
                assert(ancestors_of(here) == seq![here] + ancestors_of(above));
                assert(before + (seq![here] + ancestors_of(above)) =~= texts(out@) + ancestors_of(
                    above,
                ));
                end = up;
            },
        }
    }
    out
}

/// An absolute path taken from anywhere is itself; a relative one stands behind the base, with
/// exactly one separator between them.
pub proof fn law_joining(base: Seq<char>, rel: Seq<char>)
    ensures
        rel.len() > 0 && rel[0] == '/' ==> joined(base, rel) == rel,
        !(rel.len() > 0 && rel[0] == '/') ==> joined(base, rel) == (if base.len() > 0
            && base[base.len() - 1] != '/' {
            base.push('/')
        } else {
            base
        }) + rel,
{
    reveal_strlit("/");
    if !(rel.len() > 0 && rel[0] == '/') && base.len() > 0 && base[base.len() - 1] != '/' {
        assert(joined(base, rel) =~= base.push('/') + rel);
    }
}

proof fn lemma_component_is_last(front: Seq<char>, name: Seq<char>)
    requires
        name.len() > 0,
        forall|i: int| 0 <= i < name.len() ==> #[trigger] name[i] != '/',
        front.len() == 0 || front.last() == '/',
    ensures
        last_start(front + name) == front.len(),
    decreases name.len(),
{
    let path = front + name;
    assert(path.last() == name.last());
    assert(name[name.len() - 1] != '/');
    let shorter = name.drop_last();
    assert(path.drop_last() =~= front + shorter);
    if shorter.len() > 0 {
        assert forall|i: int| 0 <= i < shorter.len() implies #[trigger] shorter[i] != '/' by {
            assert(name[i] != '/');
        }
        lemma_component_is_last(front, shorter);
    } else {
        assert(front + shorter =~= front);
    }
}

/// What a name was joined to is its parent, and the name is the name of what came out: for a
/// base that ends in a proper component, and a name that is one.
pub proof fn law_joining_is_undone(base: Seq<char>, name: Seq<char>)
    requires
        name.len() > 0,
        name != seq!['.'],
        forall|i: int| 0 <= i < name.len() ==> #[trigger] name[i] != '/',
        base.len() > 0,
        base[base.len() - 1] != '/',
        base.len() >= 2 ==> !(base[base.len() - 1] == '.' && base[base.len() - 2] == '/'),
    ensures
        parent(joined(base, name)) == Some(base),
        ancestors_of(joined(base, name)) == seq![joined(base, name)] + ancestors_of(base),
        name != seq!['.', '.'] ==> file_name(joined(base, name)) == Some(name),
{
    let front = base.push('/');
    let path = joined(base, name);
    assert(name[0] != '/');
    law_joining(base, name);
    assert(path =~= front + name);
    lemma_component_is_last(front, name);
    assert(path.last() == name[name.len() - 1]);
    if path.last() == '.' && path[path.len() - 2] == '/' {
        if name.len() >= 2 {
            assert(path[path.len() - 2] == name[name.len() - 2]);
        }
        assert(name =~= seq!['.']);
    }
    assert(tidied(path) == path);
    assert(path.take(front.len() as int) =~= front);
    assert(front.drop_last() =~= base);
    reveal_with_fuel(tidied, 3);
    assert(tidied(front) == base);
    assert(path.skip(front.len() as int) =~= name);
    if path =~= seq!['/'] {
        assert(path.len() == 1);
    }
}

/// A search looks at the directory it starts in first, and each further directory is the parent
/// of the one before; it goes on until there is no parent.
pub proof fn law_search_goes_up(path: Seq<char>)
    ensures
        ancestors_of(path).len() > 0,
        ancestors_of(path)[0] == path,
        forall|i: int|
            0 <= i < ancestors_of(path).len() - 1 ==> parent(#[trigger] ancestors_of(path)[i])
                == Some(ancestors_of(path)[i + 1]),
        parent(ancestors_of(path).last()) is None,
    decreases path.len(),
{
    law_parent_is_shorter(path);
    if let Some(up) = parent(path) {
        law_search_goes_up(up);
        let above = ancestors_of(up);
        let all = ancestors_of(path);
        assert(all =~= seq![path] + above);
        assert forall|i: int| 0 <= i < all.len() - 1 implies parent(#[trigger] all[i]) == Some(
            all[i + 1],
        ) by {
            if i > 0 {
                assert(all[i] == above[i - 1]);
                assert(all[i + 1] == above[i]);
            }
        }
        assert(all.last() == above.last());
    }
}

/// Separators at the end of a path change neither its name nor its parent.
pub proof fn law_trailing_separators_do_not_count(path: Seq<char>)
    requires
        path.len() > 0,
    ensures
        file_name(path.push('/')) == file_name(path),
        parent(path.push('/')) == parent(path),
{
    assert(path.push('/').drop_last() =~= path);
    assert(tidied(path.push('/')) == tidied(path));
}

/// Right under the root a name's parent is the root, which has none above it; a bare name stands
/// in the directory that the empty path means.
pub proof fn law_search_ends_at_the_root(name: Seq<char>)
    requires
        name.len() > 0,
        name != seq!['.'],
        forall|i: int| 0 <= i < name.len() ==> #[trigger] name[i] != '/',
    ensures
        parent(seq!['/']) is None,
        parent(seq!['/'] + name) == Some(seq!['/']),
        ancestors_of(seq!['/'] + name) == seq![seq!['/'] + name, seq!['/']],
        parent(name) == Some(Seq::<char>::empty()),
        parent(Seq::<char>::empty()) is None,
        name != seq!['.', '.'] ==> file_name(seq!['/'] + name) == Some(name) && file_name(name)
            == Some(name),
        file_name(seq!['/']) is None,
{
    let root = seq!['/'];
    let none = Seq::<char>::empty();
    let path = root + name;
    assert(none + name =~= name);
    lemma_component_is_last(root, name);
    lemma_component_is_last(none, name);
    assert(path.last() == name[name.len() - 1]);
    assert(name.last() == name[name.len() - 1]);
    if name.len() == 1 && name[0] == '.' {
        assert(name =~= seq!['.']);
    }
    if name.len() >= 2 {
        assert(path[path.len() - 2] == name[name.len() - 2]);
        assert(name[name.len() - 2] != '/');
    }
    assert(tidied(path) == path);
    assert(tidied(name) == name);
    assert(tidied(root) == root);
    assert(tidied(none) == none);
    assert(path.take(1) =~= root);
    assert(name.take(0) =~= none);
    assert(path.skip(1) =~= name);
    assert(name.skip(0) =~= name);
    if path =~= root {
        assert(path.len() == 1);
    }
    if name =~= root {
        assert(name[0] == '/');
    }
    assert(parent(path) == Some(root));
    assert(ancestors_of(root) == seq![root]);
    assert(seq![path] + seq![root] =~= seq![path, root]);
    assert(root.drop_last() =~= none);
    reveal_with_fuel(file_name, 3);
}

/// A single dot at the end of a path changes neither its name nor its parent, and a dot alone has
/// no name and stands in the directory that the empty path means. A path that ends in two dots
/// has no name.
pub proof fn law_dots_at_the_end(path: Seq<char>)
    requires
        path.len() > 0,
    ensures
        file_name(path + seq!['/', '.']) == file_name(path),
        parent(path + seq!['/', '.']) == parent(path),
        file_name(path + seq!['/', '.', '.']) is None,
        file_name(seq!['.']) is None,
        file_name(seq!['.', '.']) is None,
        parent(seq!['.']) == Some(Seq::<char>::empty()),
{
    let front = path.push('/');
    let none = Seq::<char>::empty();
    let dot = seq!['.'];
    let dots = seq!['.', '.'];
    let one = path + seq!['/', '.'];
    let two = path + seq!['/', '.', '.'];
    law_trailing_separators_do_not_count(path);
    assert(one =~= front + dot);
    assert(two =~= front + dots);
    lemma_component_is_last(front, dot);
    lemma_component_is_last(front, dots);
    lemma_component_is_last(none, dot);
    lemma_component_is_last(none, dots);
    assert(none + dot =~= dot);
    assert(none + dots =~= dots);
    assert(one.skip(front.len() as int) =~= dot);
    assert(two.skip(front.len() as int) =~= dots);
    assert(dots != dot) by {
        assert(dots.len() != dot.len());
    }
    assert(dot.skip(0) =~= dot);
    assert(dots.skip(0) =~= dots);
    assert(one.drop_last() =~= front);
    assert(dot.drop_last() =~= none);
    assert(file_name(none) is None);
    assert(tidied(one) == tidied(front));
    assert(tidied(front) == tidied(path)) by {
        assert(front.drop_last() =~= path);
    }
    assert(tidied(dot) == dot);
    assert(dot.take(0) =~= none);
    assert(dot != seq!['/']) by {
        assert(dot[0] != seq!['/'][0]);
    }
}

} // verus!
