//! Paths, as text with `/` between their parts.
use crate::model;
use crate::text;
use crate::text::{chars_of, from_chars};
use vstd::prelude::*;
use vstd::string::StringExecFns;

verus! {

/// The path without the slashes it ends with.
pub open spec fn without_slashes(p: Seq<char>) -> Seq<char>
    decreases p.len(),
{
    if p.len() > 0 && p.last() == '/' {
        without_slashes(p.drop_last())
    } else {
        p
    }
}

/// Where the last part of a path starts: behind its last slash.
pub open spec fn last_part(p: Seq<char>) -> nat
    decreases p.len(),
{
    if p.len() == 0 || p.last() == '/' {
        p.len()
    } else {
        last_part(p.drop_last())
    }
}

/// No part of a path starts behind its end.
pub proof fn lemma_last_part(p: Seq<char>)
    ensures
        last_part(p) <= p.len(),
        last_part(p) > 0 ==> p[last_part(p) - 1] == '/',
        forall|i: int| last_part(p) <= i < p.len() ==> p[i] != '/',
    decreases p.len(),
{
    if p.len() > 0 && p.last() != '/' {
        lemma_last_part(p.drop_last());
        assert forall|i: int| last_part(p) <= i < p.len() implies p[i] != '/' by {
            if i < p.len() - 1 {
                assert(p.drop_last()[i] != '/');
            }
        }
    }
}

/// A path without the slashes it ends with is no longer than it was.
pub proof fn lemma_without_slashes(p: Seq<char>)
    ensures
        without_slashes(p).len() <= p.len(),
        without_slashes(p) == p.take(without_slashes(p).len() as int),
        without_slashes(p).len() > 0 ==> without_slashes(p).last() != '/',
    decreases p.len(),
{
    if p.len() > 0 && p.last() == '/' {
        lemma_without_slashes(p.drop_last());
        assert(p.drop_last().take(without_slashes(p).len() as int) =~= p.take(
            without_slashes(p).len() as int,
        ));
    } else {
        assert(p.take(p.len() as int) =~= p);
    }
}

/// The file that a path names: its last part, but for slashes and single dots behind it. A path
/// that ends in two dots names none, and neither does one without any part.
pub open spec fn file_name(p: Seq<char>) -> Option<Seq<char>>
    decreases p.len(),
    via file_name_decreases
{
    let q = without_slashes(p);
    let at = last_part(q);
    let name = q.skip(at as int);
    if q.len() == 0 {
        None
    } else if name == seq!['.'] {
        if at == 0 {
            None
        } else {
            file_name(q.take(at as int))
        }
    } else if name == seq!['.', '.'] {
        None
    } else {
        Some(name)
    }
}

#[via_fn]
proof fn file_name_decreases(p: Seq<char>) {
    lemma_without_slashes(p);
    lemma_last_part(without_slashes(p));
}

/// Where the last dot of a name stands; the length where there is none.
pub open spec fn last_dot(name: Seq<char>) -> nat
    decreases name.len(),
{
    if name.len() == 0 {
        0
    } else if name.last() == '.' {
        (name.len() - 1) as nat
    } else {
        let at = last_dot(name.drop_last());
        if at == name.len() - 1 {
            name.len()
        } else {
            at
        }
    }
}

/// What stands behind the last dot of a path's file name. None where there is no dot, or the name
/// starts with its only one.
pub open spec fn extension(p: Seq<char>) -> Option<Seq<char>> {
    match file_name(p) {
        Some(name) => if last_dot(name) == 0 || last_dot(name) >= name.len() {
            None
        } else {
            Some(name.skip(last_dot(name) as int + 1))
        },
        None => None,
    }
}

/// The last dot has none behind it.
proof fn lemma_last_dot(name: Seq<char>, at: int)
    requires
        0 <= at <= name.len(),
        at < name.len() ==> name[at] == '.' && (forall|i: int|
            at < i < name.len() ==> name[i] != '.'),
        at == name.len() ==> (forall|i: int| 0 <= i < name.len() ==> name[i] != '.'),
    ensures
        last_dot(name) == at,
    decreases name.len(),
{
    if name.len() > 0 && name.last() != '.' {
        let rest = name.drop_last();
        if at < name.len() {
            lemma_last_dot(rest, at);
        } else {
            lemma_last_dot(rest, at - 1);
        }
    }
}

/// The start of the last part is behind the last slash.
proof fn lemma_part_start(p: Seq<char>, at: int)
    requires
        0 <= at <= p.len(),
        at > 0 ==> p[at - 1] == '/',
        forall|i: int| at <= i < p.len() ==> p[i] != '/',
    ensures
        last_part(p) == at,
    decreases p.len(),
{
    if p.len() > 0 && p.last() != '/' {
        lemma_part_start(p.drop_last(), at);
    }
}

fn part(chars: &Vec<char>, from: usize, to: usize) -> (r: Vec<char>)
    requires
        from <= to <= chars@.len(),
    ensures
        r@ == chars@.subrange(from as int, to as int),
{
    let mut out: Vec<char> = Vec::new();
    for i in from..to
        invariant
            from <= to <= chars@.len(),
            out@ == chars@.subrange(from as int, i as int),
    {
        out.push(chars[i]);
        assert(out@ =~= chars@.subrange(from as int, i + 1));
    }
    out
}

fn name_of(path: &str) -> (r: Option<Vec<char>>)
    ensures
        match file_name(path@) {
            Some(name) => r is Some && r->0@ == name,
            None => r is None,
        },
{
    let chars = chars_of(path);
    let mut end: usize = chars.len();
    assert(chars@.take(end as int) =~= path@);
    loop
        invariant
            end <= chars@.len(),
            file_name(path@) == file_name(chars@.take(end as int)),
        decreases end,
    {
        let ghost start = chars@.take(end as int);
        let ghost before = end;
        while end > 0 && chars[end - 1] == '/'
            invariant
                end <= before <= chars@.len(),
                without_slashes(start) == without_slashes(chars@.take(end as int)),
            decreases end,
        {
            assert(chars@.take(end as int).drop_last() =~= chars@.take(end - 1));
            assert(chars@.take(end as int).last() == chars@[end - 1]);
            end -= 1;
        }
        let ghost q = chars@.take(end as int);
        assert(end > 0 ==> q.last() == chars@[end - 1]);
        assert(q == without_slashes(start));
        if end == 0 {
            return None;
        }
        let mut at: usize = end;
        while at > 0 && chars[at - 1] != '/'
            invariant
                at <= end <= chars@.len(),
                forall|i: int| at <= i < end ==> chars@[i] != '/',
            decreases at,
        {
            at -= 1;
        }
        proof {
            lemma_part_start(q, at as int);
        }
        let name = part(&chars, at, end);
        assert(name@ =~= q.skip(at as int));
        if name.len() == 1 && name[0] == '.' {
            assert(name@ =~= seq!['.']);
            if at == 0 {
                return None;
            }
            assert(q.take(at as int) =~= chars@.take(at as int));
            assert(at < end);
            end = at;
        } else if name.len() == 2 && name[0] == '.' && name[1] == '.' {
            assert(name@ =~= seq!['.', '.']);
            return None;
        } else {
            assert(name@ != seq!['.']) by {
                if name@ == seq!['.'] {
                    assert(name@.len() == 1 && name@[0] == '.');
                }
            }
            assert(name@ != seq!['.', '.']) by {
                if name@ == seq!['.', '.'] {
                    assert(name@.len() == 2 && name@[0] == '.' && name@[1] == '.');
                }
            }
            return Some(name);
        }
    }
}

/// What stands behind the last dot of a path's file name.
pub fn extension_of(path: &str) -> (r: Option<String>)
    ensures
        crate::model::maybe(r) == extension(path@),
{
    let name = match name_of(path) {
        Some(name) => name,
        None => {
            return None;
        },
    };
    let mut at: usize = name.len();
    while at > 0 && name[at - 1] != '.'
        invariant
            at <= name@.len(),
            forall|i: int| at <= i < name@.len() ==> name@[i] != '.',
        decreases at,
    {
        at -= 1;
    }
    if at == 0 {
        proof {
            lemma_last_dot(name@, name@.len() as int);
        }
        return None;
    }
    proof {
        lemma_last_dot(name@, at - 1);
    }
    if at == 1 {
        return None;
    }
    let ext = part(&name, at, name.len());
    assert(ext@ =~= name@.skip(at as int));
    Some(from_chars(ext.as_slice()))
}

/// A path with one more part.
pub open spec fn joined(base: Seq<char>, leaf: Seq<char>) -> Seq<char> {
    if leaf.len() > 0 && leaf[0] == '/' {
        leaf
    } else if base.len() == 0 || base.last() == '/' {
        base + leaf
    } else {
        base + "/"@ + leaf
    }
}

/// A path with one more part: a part that starts at the root stands for itself.
pub fn join(base: &str, leaf: &str) -> (r: String)
    ensures
        r@ == joined(base@, leaf@),
{
    let b = chars_of(base);
    let l = chars_of(leaf);
    if l.len() > 0 && l[0] == '/' {
        leaf.to_owned()
    } else if b.len() == 0 || b[b.len() - 1] == '/' {
        base.to_owned().concat(leaf)
    } else {
        base.to_owned().concat("/").concat(leaf)
    }
}

/// The last part of a path.
pub fn file_name_of(path: &str) -> (r: Option<String>)
    ensures
        model::maybe(r) == file_name(path@),
{
    match name_of(path) {
        Some(name) => Some(from_chars(name.as_slice())),
        None => None,
    }
}

/// What is left of a path behind another, part by part, as `std::path::Path::strip_prefix` sees the
/// parts of a path on a Unix system; `None` where the path does not start with the other.
pub uninterp spec fn path_behind(path: Seq<char>, prefix: Seq<char>) -> Option<Seq<char>>;

/// Whether a path is written without detours: it is not empty, does not end in a slash, and has no
/// part that is empty or a single dot. A slash in front starts it at the root.
pub open spec fn is_plain(path: Seq<char>) -> bool {
    &&& path.len() > 0
    &&& path.last() != '/'
    &&& forall|i: int|
        0 <= i < path.len() && (i == 0 || path[i - 1] == '/') ==> {
            &&& i > 0 ==> #[trigger] path[i] != '/'
            &&& !(path[i] == '.' && (i + 1 == path.len() || path[i + 1] == '/'))
        }
}

/// What is left of a plain path behind another: nothing of the path itself, and what stands behind
/// the slash of one under it.
pub open spec fn plain_behind(path: Seq<char>, prefix: Seq<char>) -> Option<Seq<char>> {
    if path == prefix {
        Some(Seq::empty())
    } else if text::has_prefix(path, prefix + "/"@) {
        Some(path.skip(prefix.len() as int + 1))
    } else {
        None
    }
}

/// Calls `std::path::Path::strip_prefix`. Of two plain paths the parts are what stands between the
/// slashes, and the result is stated; of others its result is named, since what their parts are
/// is `std`'s to say. It rests on the two paths alone.
#[verifier::external_body]
pub(crate) fn strip_path(path: &str, prefix: &str) -> (r: Option<String>)
    ensures
        model::maybe(r) == path_behind(path@, prefix@),
        is_plain(path@) && is_plain(prefix@) ==> model::maybe(r) == plain_behind(path@, prefix@),
{
    match std::path::Path::new(path).strip_prefix(prefix) {
        Ok(rest) => Some(rest.display().to_string()),
        Err(_) => None,
    }
}

/// A part that is joined to a path stands behind it and one slash; a part that starts at the root
/// stands for itself.
pub proof fn law_parts_are_joined(base: &str, leaf: &str, r: String)
    requires
        call_ensures(join, (base, leaf), r),
    ensures
        leaf@.len() > 0 && leaf@[0] == '/' ==> r@ == leaf@,
        leaf@.len() > 0 && leaf@[0] != '/' && base@.len() > 0 ==> {
            let stem = if base@.last() == '/' {
                base@.drop_last()
            } else {
                base@
            };
            r@ == stem + seq!['/'] + leaf@
        },
        base@.len() == 0 ==> r@ == leaf@,
{
    reveal_strlit("/");
    assert("/"@ =~= seq!['/']);
    if base@.len() > 0 && base@.last() == '/' {
        assert(base@ =~= base@.drop_last() + seq!['/']);
    }
}

/// The file that a path names is what stands behind its last slash, and its extension is what stands
/// behind the last dot of that, unless the name starts with its only dot.
pub proof fn law_names_and_extensions(
    dir: Seq<char>,
    name: Seq<char>,
    path: &str,
    named: Option<String>,
    ext: Option<String>,
)
    requires
        path@ == dir + seq!['/'] + name,
        name.len() > 0,
        forall|i: int| 0 <= i < name.len() ==> #[trigger] name[i] != '/',
        name != seq!['.'],
        name != seq!['.', '.'],
        call_ensures(file_name_of, (path,), named),
        call_ensures(extension_of, (path,), ext),
    ensures
        named is Some && named->0@ == name,
        ext matches Some(e) ==> exists|at: int|
            {
                &&& 0 < at < name.len()
                &&& #[trigger] name[at] == '.'
                &&& e@ == name.skip(at + 1)
                &&& forall|i: int| at < i < name.len() ==> #[trigger] name[i] != '.'
            },
        ext is None ==> forall|i: int| 0 < i < name.len() ==> #[trigger] name[i] != '.',
{
    lemma_named(dir, name);
    lemma_last_dot_found(name);
}

proof fn lemma_last_dot_found(name: Seq<char>)
    ensures
        last_dot(name) <= name.len(),
        last_dot(name) < name.len() ==> name[last_dot(name) as int] == '.',
        forall|i: int| last_dot(name) < i < name.len() ==> #[trigger] name[i] != '.',
        last_dot(name) == name.len() ==> forall|i: int| 0 <= i < name.len() ==> #[trigger] name[i] != '.',
    decreases name.len(),
{
    if name.len() > 0 && name.last() != '.' {
        let front = name.drop_last();
        lemma_last_dot_found(front);
        assert forall|i: int| 0 <= i < front.len() implies #[trigger] name[i] == front[i] by {
        }
    }
}

/// A path names what stands behind its last slash.
pub proof fn lemma_named(dir: Seq<char>, name: Seq<char>)
    requires
        name.len() > 0,
        forall|i: int| 0 <= i < name.len() ==> #[trigger] name[i] != '/',
        name != seq!['.'],
        name != seq!['.', '.'],
    ensures
        file_name(dir + seq!['/'] + name) == Some(name),
{
    let p = dir + seq!['/'] + name;
    assert(p.last() == name.last() && name[name.len() - 1] != '/');
    assert(without_slashes(p) == p);
    let at = dir.len() + 1;
    assert forall|i: int| at <= i < p.len() implies p[i] != '/' by {
        assert(p[i] == name[i - at]);
    }
    lemma_part_start(p, at as int);
    assert(p.skip(at as int) =~= name);
}

/// The extension of a file is what stands behind the last dot of its name.
pub proof fn lemma_extension(dir: Seq<char>, stem: Seq<char>, ext: Seq<char>)
    requires
        stem.len() > 0,
        ext.len() > 0,
        forall|i: int| 0 <= i < stem.len() ==> #[trigger] stem[i] != '/',
        forall|i: int| 0 <= i < ext.len() ==> #[trigger] ext[i] != '/' && ext[i] != '.',
    ensures
        extension(dir + seq!['/'] + (stem + seq!['.'] + ext)) == Some(ext),
{
    let name = stem + seq!['.'] + ext;
    let at = stem.len() as int;
    assert forall|i: int| 0 <= i < name.len() implies #[trigger] name[i] != '/' by {
        if i < at {
            assert(name[i] == stem[i]);
        } else if i > at {
            assert(name[i] == ext[i - at - 1]);
        }
    }
    assert(name.len() > 2);
    lemma_named(dir, name);
    assert forall|i: int| at < i < name.len() implies name[i] != '.' by {
        assert(name[i] == ext[i - at - 1]);
    }
    lemma_last_dot(name, at);
    assert(name.skip(at + 1) =~= ext);
}

} // verus!
