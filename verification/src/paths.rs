//! Paths as texts: their parts, and paths beside them.

use crate::model_paths::{below, join_path};
use crate::strings::{chars_of, same, string_between};
use vstd::prelude::*;

verus! {

/// The last place of a character in a text, or -1.
pub open spec fn last_index(s: Seq<char>, c: char) -> int
    decreases s.len(),
{
    if s.len() == 0 {
        -1
    } else if s.last() == c {
        s.len() - 1
    } else {
        last_index(s.drop_last(), c)
    }
}

/// The last place is inside the text, and at its end only where the text ends with the character.
pub proof fn lemma_last_index(s: Seq<char>, c: char)
    ensures
        -1 <= last_index(s, c) < s.len(),
        s.len() > 0 && s.last() != c ==> last_index(s, c) < s.len() - 1,
    decreases s.len(),
{
    if s.len() > 0 {
        lemma_last_index(s.drop_last(), c);
    }
}

/// The last place of a character in a text, if it occurs.
pub fn find_last(chars: &Vec<char>, c: char) -> (r: Option<usize>)
    ensures
        match r {
            Some(i) => last_index(chars@, c) == i && i < chars@.len(),
            None => last_index(chars@, c) == -1,
        },
{
    let mut i: usize = chars.len();
    assert(chars@.take(i as int) =~= chars@);
    while i > 0
        invariant
            i <= chars@.len(),
            last_index(chars@.take(i as int), c) == last_index(chars@, c),
        decreases i,
    {
        assert(chars@.take(i as int).drop_last() =~= chars@.take(i - 1));
        if chars[i - 1] == c {
            return Some(i - 1);
        }
        i = i - 1;
    }
    None
}

/// Whether the last character of a path adds nothing to it: a slash that ends it, or the point of
/// a part that stands for the directory itself.
pub open spec fn ends_idly(path: Seq<char>) -> bool {
    path.len() > 1 && (path.last() == '/' || (path.last() == '.' && path[path.len() - 2] == '/'))
}

/// A path without what adds nothing at its end; a single slash stays.
pub open spec fn trimmed(path: Seq<char>) -> Seq<char>
    decreases path.len(),
{
    if ends_idly(path) {
        trimmed(path.drop_last())
    } else {
        path
    }
}

/// What is trimmed is no longer than the path, and does not end idly.
pub proof fn lemma_trimmed(path: Seq<char>)
    ensures
        trimmed(path).len() <= path.len(),
        !ends_idly(trimmed(path)),
        path.len() > 0 ==> trimmed(path).len() > 0,
    decreases path.len(),
{
    if ends_idly(path) {
        lemma_trimmed(path.drop_last());
    }
}

/// What stands behind the last slash of a path that does not end idly.
pub open spec fn tail(path: Seq<char>) -> Seq<char> {
    path.skip(last_index(path, '/') + 1)
}

/// What stands before the tail.
pub open spec fn head(path: Seq<char>) -> Seq<char> {
    path.take(last_index(path, '/') + 1)
}

/// The file name of a path: its last part, unless that is a directory by its name.
pub open spec fn file_name(path: Seq<char>) -> Option<Seq<char>> {
    let name = tail(trimmed(path));
    if name.len() == 0 || name == "."@ || name == ".."@ {
        None
    } else {
        Some(name)
    }
}

/// A path without its last part.
pub open spec fn parent(path: Seq<char>) -> Seq<char> {
    trimmed(head(trimmed(path)))
}

/// The extension of a path: what follows the last point of its file name, unless that point
/// starts the name.
pub open spec fn extension_of(path: Seq<char>) -> Option<Seq<char>> {
    match file_name(path) {
        Some(name) => if last_index(name, '.') > 0 {
            Some(name.skip(last_index(name, '.') + 1))
        } else {
            None
        },
        None => None,
    }
}

/// A path below a directory; a path from the root stands for itself.
pub open spec fn pushed(dir: Seq<char>, path: Seq<char>) -> Seq<char> {
    if path.len() > 0 && path[0] == '/' {
        path
    } else {
        below(dir, path)
    }
}

/// The path of another file beside a file, or in a directory where there is no file name.
pub open spec fn beside(path: Seq<char>, name: Seq<char>) -> Seq<char> {
    match file_name(path) {
        Some(_) => pushed(parent(path), name),
        None => pushed(path, name),
    }
}

/// Trims a path.
fn trim(chars: &mut Vec<char>)
    ensures
        final(chars)@ == trimmed(old(chars)@),
{
    let ghost whole = chars@;
    while chars.len() > 1 && (chars[chars.len() - 1] == '/' || (chars[chars.len() - 1] == '.'
        && chars[chars.len() - 2] == '/'))
        invariant
            trimmed(chars@) == trimmed(whole),
        decreases chars@.len(),
    {
        let ghost before = chars@;
        chars.pop();
        assert(chars@ =~= before.drop_last());
    }
}

/// Where the tail of a path begins.
fn tail_start(chars: &Vec<char>) -> (r: usize)
    ensures
        r == last_index(chars@, '/') + 1,
        r <= chars@.len(),
{
    proof {
        lemma_last_index(chars@, '/');
    }
    let total: usize = chars.len();
    assert(total == chars@.len());
    match find_last(chars, '/') {
        Some(i) => i + 1,
        None => 0,
    }
}

/// A path without what adds nothing at its end.
pub fn trimmed_path(path: &str) -> (r: String)
    ensures
        r@ == trimmed(path@),
{
    let mut chars = chars_of(path);
    trim(&mut chars);
    let r = string_between(chars.as_slice(), 0, chars.len());
    assert(r@ =~= chars@);
    r
}

/// The file name of a path.
pub fn name_of_file(path: &str) -> (r: Option<String>)
    ensures
        match r {
            Some(n) => file_name(path@) == Some(n@),
            None => file_name(path@) is None,
        },
{
    let mut chars = chars_of(path);
    trim(&mut chars);
    let start: usize = tail_start(&chars);
    let name = string_between(chars.as_slice(), start, chars.len());
    assert(name@ =~= tail(trimmed(path@)));
    if start == chars.len() || same(name.as_str(), ".") || same(name.as_str(), "..") {
        None
    } else {
        Some(name)
    }
}

/// A path without its last part.
pub fn parent_of(path: &str) -> (r: String)
    ensures
        r@ == parent(path@),
{
    let mut chars = chars_of(path);
    trim(&mut chars);
    let start: usize = tail_start(&chars);
    chars.truncate(start);
    assert(chars@ =~= head(trimmed(path@)));
    trim(&mut chars);
    let r = string_between(chars.as_slice(), 0, chars.len());
    assert(r@ =~= chars@);
    r
}

/// The extension of a path.
pub fn extension(path: &str) -> (r: Option<String>)
    ensures
        match r {
            Some(e) => extension_of(path@) == Some(e@),
            None => extension_of(path@) is None,
        },
{
    match name_of_file(path) {
        Some(name) => {
            let letters = chars_of(name.as_str());
            let total: usize = letters.len();
            assert(total == letters@.len());
            match find_last(&letters, '.') {
                Some(dot) => {
                    if dot > 0 {
                        let e = string_between(letters.as_slice(), dot + 1, letters.len());
                        assert(e@ =~= name@.skip(dot + 1));
                        Some(e)
                    } else {
                        None
                    }
                },
                None => None,
            }
        },
        None => None,
    }
}

/// A path below a directory.
fn push_path(dir: &str, path: &str) -> (r: String)
    ensures
        r@ == pushed(dir@, path@),
{
    let chars = chars_of(path);
    if chars.len() > 0 && chars[0] == '/' {
        path.to_owned()
    } else {
        join_path(dir, path)
    }
}

/// The path of another file beside a file.
pub fn sibling(path: &str, name: &str) -> (r: String)
    ensures
        r@ == beside(path@, name@),
{
    match name_of_file(path) {
        Some(_) => push_path(parent_of(path).as_str(), name),
        None => push_path(path, name),
    }
}

/// The parts of a path, one below the other.
pub open spec fn parts(path: Seq<char>) -> Seq<Seq<char>>
    decreases path.len(),
{
    proof {
        lemma_trimmed(path);
        lemma_last_index(trimmed(path), '/');
        assert(trimmed(path).len() == 1 && trimmed(path)[0] == '/' ==> trimmed(path) =~= seq!['/']);
    }
    let t = trimmed(path);
    if t.len() == 0 || t == seq!['/'] {
        Seq::empty()
    } else {
        parts(head(t)).push(tail(t))
    }
}

/// What a path stands for: whether it starts at the root, and its parts. Two paths are the same
/// where they stand for the same.
pub open spec fn path_view(path: Seq<char>) -> (bool, Seq<Seq<char>>) {
    (path.len() > 0 && path[0] == '/', parts(path))
}

/// Whether the parts of two paths are the same.
fn same_parts(a: &str, b: &str) -> (r: bool)
    ensures
        r == (parts(a@) == parts(b@)),
{
    let mut x = chars_of(a);
    let mut y = chars_of(b);
    loop
        invariant
            (parts(a@) == parts(b@)) == (parts(x@) == parts(y@)),
        decreases x@.len(),
    {
        let ghost was = (x@, y@);
        trim(&mut x);
        trim(&mut y);
        proof {
            lemma_trimmed(was.0);
            lemma_trimmed(was.1);
            lemma_last_index(x@, '/');
            lemma_last_index(y@, '/');
        }
        let none_x = x.len() == 0 || (x.len() == 1 && x[0] == '/');
        let none_y = y.len() == 0 || (y.len() == 1 && y[0] == '/');
        assert(none_x == (x@.len() == 0 || x@ =~= seq!['/']));
        assert(none_y == (y@.len() == 0 || y@ =~= seq!['/']));
        if none_x || none_y {
            return none_x == none_y;
        }
        let i: usize = tail_start(&x);
        let j: usize = tail_start(&y);
        let u = string_between(x.as_slice(), i, x.len());
        let v = string_between(y.as_slice(), j, y.len());
        assert(u@ =~= tail(x@));
        assert(v@ =~= tail(y@));
        proof {
            let (p, q) = (parts(head(x@)), parts(head(y@)));
            assert(parts(was.0) == p.push(u@));
            assert(parts(was.1) == q.push(v@));
            assert(p.push(u@).last() == u@ && q.push(v@).last() == v@);
            assert(p.push(u@).drop_last() =~= p && q.push(v@).drop_last() =~= q);
        }
        if !same(u.as_str(), v.as_str()) {
            return false;
        }
        let ghost (hx, hy) = (head(x@), head(y@));
        x.truncate(i);
        y.truncate(j);
        assert(x@ =~= hx && y@ =~= hy);
    }
}

/// Whether two paths are the same.
pub fn same_path(a: &str, b: &str) -> (r: bool)
    ensures
        r == (path_view(a@) == path_view(b@)),
{
    let x = chars_of(a);
    let y = chars_of(b);
    let root_a = x.len() > 0 && x[0] == '/';
    let root_b = y.len() > 0 && y[0] == '/';
    root_a == root_b && same_parts(a, b)
}

/// The last place of a character is the one behind which it does not occur.
pub proof fn lemma_last_index_is(s: Seq<char>, c: char, i: int)
    requires
        -1 <= i < s.len(),
        i >= 0 ==> s[i] == c,
        forall|j: int| i < j < s.len() ==> #[trigger] s[j] != c,
    ensures
        last_index(s, c) == i,
    decreases s.len(),
{
    if s.len() > 0 && i < s.len() - 1 {
        assert(s[s.len() - 1] != c);
        lemma_last_index_is(s.drop_last(), c, i);
    }
}

/// Whether a text can be the name of a file: it is not empty, has no slash, and is not the name
/// of the directory itself or of the one above it.
pub open spec fn is_name(name: Seq<char>) -> bool {
    name.len() > 0 && !name.contains('/') && name != seq!['.'] && name != seq!['.', '.']
}

proof fn lemma_named(dir: Seq<char>, name: Seq<char>)
    requires
        is_name(name),
    ensures
        trimmed(dir + seq!['/'] + name) == dir + seq!['/'] + name,
        last_index(dir + seq!['/'] + name, '/') == dir.len(),
        head(dir + seq!['/'] + name) == dir + seq!['/'],
        tail(dir + seq!['/'] + name) == name,
        trimmed(name) == name,
        last_index(name, '/') == -1,
{
    let path = dir + seq!['/'] + name;
    assert(name.contains(name.last()));
    assert(path.last() == name.last());
    assert(!ends_idly(path)) by {
        if path.last() == '.' && path[path.len() - 2] == '/' {
            if name.len() == 1 {
                assert(name =~= seq!['.']);
            } else {
                assert(path[path.len() - 2] == name[name.len() - 2]);
                assert(name.contains(name[name.len() - 2]));
            }
        }
    }
    assert(!ends_idly(name)) by {
        if name.len() > 1 {
            assert(name.contains(name[name.len() - 2]));
        }
    }
    assert forall|j: int| dir.len() < j < path.len() implies #[trigger] path[j] != '/' by {
        assert(path[j] == name[j - dir.len() - 1]);
        assert(name.contains(name[j - dir.len() - 1]));
    }
    lemma_last_index_is(path, '/', dir.len() as int);
    assert forall|j: int| -1 < j < name.len() implies #[trigger] name[j] != '/' by {
        assert(name.contains(name[j]));
    }
    lemma_last_index_is(name, '/', -1);
    assert(head(path) =~= dir + seq!['/']);
    assert(tail(path) =~= name);
}

/// The name of a file below a directory is what stands behind the slash, and its parent is the
/// directory; another file beside it lies in that directory too.
pub proof fn paths_are_made_of_directory_and_name(
    dir: Seq<char>,
    name: Seq<char>,
    other: Seq<char>,
)
    requires
        is_name(name),
        is_name(other),
    ensures
        file_name(dir + seq!['/'] + name) == Some(name),
        file_name(name) == Some(name),
        dir.len() > 0 ==> parent(dir + seq!['/'] + name) == trimmed(dir),
        parent(name) == Seq::<char>::empty(),
        beside(name, other) == other,
        dir.len() > 0 && trimmed(dir).last() != '/' ==> beside(dir + seq!['/'] + name, other)
            == trimmed(dir) + seq!['/'] + other,
        beside(seq!['/'] + name, other) == seq!['/'] + other,
{
    reveal_strlit(".");
    reveal_strlit("..");
    reveal_strlit("/");
    assert("."@ =~= seq!['.']);
    assert(".."@ =~= seq!['.', '.']);
    assert("/"@ =~= seq!['/']);
    lemma_named(dir, name);
    lemma_named(Seq::empty(), name);
    lemma_trimmed(dir);
    assert(Seq::<char>::empty() + seq!['/'] + name =~= seq!['/'] + name);
    assert(Seq::<char>::empty() + seq!['/'] =~= seq!['/']);
    assert(tail(name) =~= name);
    assert(head(name) =~= Seq::empty());
    if dir.len() > 0 {
        let whole = dir + seq!['/'];
        assert(ends_idly(whole));
        assert(whole.drop_last() =~= dir);
        assert(trimmed(whole) == trimmed(dir));
    }
    assert(other.contains(other[0]));
    assert(trimmed(seq!['/']) == seq!['/']);
    assert(trimmed(Seq::<char>::empty()) == Seq::<char>::empty());
}

/// The extension of a file is what follows the last point of its name.
pub proof fn extensions_follow_the_last_point(dir: Seq<char>, stem: Seq<char>, ext: Seq<char>)
    requires
        stem.len() > 0,
        !stem.contains('/'),
        !ext.contains('/'),
        !ext.contains('.'),
        stem.len() > 1 || stem[0] != '.' || ext.len() > 0,
    ensures
        extension_of(dir + seq!['/'] + (stem + seq!['.'] + ext)) == Some(ext),
        is_name(seq!['.'] + ext) ==> extension_of(dir + seq!['/'] + (seq!['.'] + ext)) is None,
        is_name(ext) ==> extension_of(dir + seq!['/'] + ext) is None,
{
    let name = stem + seq!['.'] + ext;
    assert(!name.contains('/')) by {
        if name.contains('/') {
            let i = name.index_of('/');
            if i < stem.len() {
                assert(stem[i] == '/');
            } else if i > stem.len() {
                assert(ext[i - stem.len() - 1] == '/');
            }
        }
    }
    if name == seq!['.', '.'] {
        assert(ext.len() == 0 && stem.len() == 1 || stem.len() == 0);
        assert(stem[0] == name[0]);
    }
    paths_are_made_of_directory_and_name(dir, name, name);
    assert forall|j: int| stem.len() < j < name.len() implies #[trigger] name[j] != '.' by {
        assert(name[j] == ext[j - stem.len() - 1]);
        assert(ext.contains(ext[j - stem.len() - 1]));
    }
    lemma_last_index_is(name, '.', stem.len() as int);
    assert(name.skip(stem.len() as int + 1) =~= ext);
    let hidden = seq!['.'] + ext;
    if is_name(hidden) {
        paths_are_made_of_directory_and_name(dir, hidden, hidden);
        assert forall|j: int| 0 < j < hidden.len() implies #[trigger] hidden[j] != '.' by {
            assert(hidden[j] == ext[j - 1]);
            assert(ext.contains(ext[j - 1]));
        }
        lemma_last_index_is(hidden, '.', 0);
    }
    if is_name(ext) {
        paths_are_made_of_directory_and_name(dir, ext, ext);
        assert forall|j: int| -1 < j < ext.len() implies #[trigger] ext[j] != '.' by {
            assert(ext.contains(ext[j]));
        }
        lemma_last_index_is(ext, '.', -1);
    }
}

/// A path below a directory has the parts of the directory and its own name, and a slash at the
/// end of a path changes nothing.
pub proof fn paths_are_compared_part_by_part(dir: Seq<char>, name: Seq<char>)
    requires
        is_name(name),
        dir.len() > 0,
    ensures
        parts(dir + seq!['/'] + name) == parts(dir).push(name),
        parts(dir + seq!['/']) == parts(dir),
        path_view(dir + seq!['/']) == path_view(dir),
{
    lemma_named(dir, name);
    let whole = dir + seq!['/'];
    assert(ends_idly(whole));
    assert(whole.drop_last() =~= dir);
    assert(trimmed(whole) == trimmed(dir));
    lemma_trimmed_again(dir);
    lemma_trimmed_again(whole);
    assert(parts(whole) == parts(dir));
    let path = dir + seq!['/'] + name;
    assert(path.len() > 1);
    assert(path != seq!['/']);
    assert(whole[0] == dir[0]);
}

proof fn lemma_trimmed_again(path: Seq<char>)
    ensures
        trimmed(trimmed(path)) == trimmed(path),
{
    lemma_trimmed(path);
}

} // verus!
