//! Slash-separated paths, held as text.
//!
//! A path is a sequence of names with `/` between them. It is rooted when it starts with
//! `/`. Empty names and the name `.` stand for nothing, except a `.` at the very start of
//! a path that is not rooted. Two paths are the same when both are rooted or neither is,
//! and they list the same names.

use vstd::prelude::*;

use crate::text::{chars_of, same_text};

verus! {

/// Whether the path starts at the root directory.
pub open spec fn is_rooted(p: Seq<char>) -> bool {
    p.len() > 0 && p[0] == '/'
}

/// The position of the last `/`, or -1 where there is none.
pub open spec fn last_slash(p: Seq<char>) -> int
    decreases p.len(),
{
    if p.len() == 0 {
        -1
    } else if p.last() == '/' {
        p.len() - 1
    } else {
        last_slash(p.drop_last())
    }
}

/// What follows the last `/`.
pub open spec fn tail(p: Seq<char>) -> Seq<char> {
    p.skip(last_slash(p) + 1)
}

/// Whether the path ends in a name that counts.
pub open spec fn ends_in_name(p: Seq<char>) -> bool {
    tail(p).len() > 0 && (tail(p) != seq!['.'] || last_slash(p) < 0)
}

/// The names that the path lists, from first to last.
pub open spec fn components(p: Seq<char>) -> Seq<Seq<char>>
    decreases p.len(),
{
    let i = last_slash(p);
    let before = if 0 <= i < p.len() {
        components(p.take(i))
    } else {
        Seq::empty()
    };
    if ends_in_name(p) {
        before.push(tail(p))
    } else {
        before
    }
}

/// What tells paths apart.
pub type PathKey = (bool, Seq<Seq<char>>);

/// What tells paths apart: whether they are rooted, and the names they list.
pub open spec fn path_key(p: Seq<char>) -> PathKey {
    (is_rooted(p), components(p))
}

/// The path without the slashes and dots that follow its last name.
pub open spec fn trimmed(p: Seq<char>) -> Seq<char>
    decreases p.len(),
{
    let i = last_slash(p);
    if ends_in_name(p) || !(0 <= i < p.len()) {
        p
    } else if i == 0 {
        p.take(1)
    } else {
        trimmed(p.take(i))
    }
}

/// The directory that holds the path's last name: nothing for a path that lists no name.
pub open spec fn parent_of(p: Seq<char>) -> Option<Seq<char>> {
    let t = trimmed(p);
    let i = last_slash(t);
    if !ends_in_name(t) {
        None
    } else if i < 0 {
        Some(Seq::empty())
    } else if i == 0 {
        Some(t.take(1))
    } else {
        Some(trimmed(t.take(i)))
    }
}

/// The path's last name, unless that is `.` or `..`.
pub open spec fn file_name_of(p: Seq<char>) -> Option<Seq<char>> {
    let name = tail(trimmed(p));
    if name.len() > 0 && name != seq!['.'] && name != seq!['.', '.'] {
        Some(name)
    } else {
        None
    }
}

/// The position of the last `.`, or -1 where there is none.
pub open spec fn last_dot(name: Seq<char>) -> int
    decreases name.len(),
{
    if name.len() == 0 {
        -1
    } else if name.last() == '.' {
        name.len() - 1
    } else {
        last_dot(name.drop_last())
    }
}

/// The file name without its extension. A `.` that opens the name starts no extension.
pub open spec fn file_stem_of(p: Seq<char>) -> Option<Seq<char>> {
    match file_name_of(p) {
        Some(name) => Some(
            if last_dot(name) > 0 {
                name.take(last_dot(name))
            } else {
                name
            },
        ),
        None => None,
    }
}

/// What follows the last `.` of the file name, unless that `.` opens the name.
pub open spec fn extension_of(p: Seq<char>) -> Option<Seq<char>> {
    match file_name_of(p) {
        Some(name) => if last_dot(name) > 0 {
            Some(name.skip(last_dot(name) + 1))
        } else {
            None
        },
        None => None,
    }
}

/// `name` seen from the directory `dir`: a rooted `name` is itself the result.
pub open spec fn joined(dir: Seq<char>, name: Seq<char>) -> Seq<char> {
    if is_rooted(name) {
        name
    } else if dir.len() == 0 || dir.last() == '/' {
        dir + name
    } else {
        dir + seq!['/'] + name
    }
}

/// Whether a text can be one name of a path: it has characters, none of them `/`, and is
/// not `.`.
pub open spec fn is_plain_name(name: Seq<char>) -> bool {
    &&& name.len() > 0
    &&& name != seq!['.']
    &&& forall|i: int| 0 <= i < name.len() ==> name[i] != '/'
}

/// The texts that a vector of strings holds.
pub open spec fn texts(v: Seq<String>) -> Seq<Seq<char>> {
    v.map_values(|s: String| s@)
}

/// The last slash is a slash, and none follows it.
pub proof fn lemma_last_slash(p: Seq<char>)
    ensures
        -1 <= last_slash(p) < p.len(),
        last_slash(p) >= 0 ==> p[last_slash(p)] == '/',
        forall|i: int| last_slash(p) < i < p.len() ==> p[i] != '/',
    decreases p.len(),
{
    if p.len() > 0 && p.last() != '/' {
        lemma_last_slash(p.drop_last());
        assert forall|i: int| last_slash(p) < i < p.len() implies p[i] != '/' by {
            if i < p.len() - 1 {
                assert(p.drop_last()[i] == p[i]);
            }
        }
    }
}

/// A slash that no other slash follows is the last one.
pub proof fn lemma_last_slash_is(p: Seq<char>, i: int)
    requires
        -1 <= i < p.len(),
        i >= 0 ==> p[i] == '/',
        forall|j: int| i < j < p.len() ==> p[j] != '/',
    ensures
        last_slash(p) == i,
{
    lemma_last_slash(p);
}

/// The last dot is a dot, and none follows it.
pub proof fn lemma_last_dot(name: Seq<char>)
    ensures
        -1 <= last_dot(name) < name.len(),
        last_dot(name) >= 0 ==> name[last_dot(name)] == '.',
        forall|i: int| last_dot(name) < i < name.len() ==> name[i] != '.',
    decreases name.len(),
{
    if name.len() > 0 && name.last() != '.' {
        lemma_last_dot(name.drop_last());
        assert forall|i: int| last_dot(name) < i < name.len() implies name[i] != '.' by {
            if i < name.len() - 1 {
                assert(name.drop_last()[i] == name[i]);
            }
        }
    }
}

/// Trimming keeps which path it is, and leaves a name, the root or nothing at the end.
pub proof fn lemma_trimmed(p: Seq<char>)
    ensures
        path_key(trimmed(p)) == path_key(p),
        trimmed(p).len() <= p.len(),
        trimmed(p) == p.take(trimmed(p).len() as int),
        !ends_in_name(trimmed(p)) ==> components(p).len() == 0 && trimmed(p).len() <= 1,
        ends_in_name(trimmed(p)) ==> components(p).len() > 0 && components(p).last() == tail(
            trimmed(p),
        ),
    decreases p.len(),
{
    lemma_last_slash(p);
    let i = last_slash(p);
    if ends_in_name(p) || i < 0 {
        assert(p.take(p.len() as int) =~= p);
        if i < 0 {
            assert(tail(p) =~= p);
        }
    } else if i == 0 {
        let root = p.take(1);
        assert(root.drop_last() =~= Seq::empty());
        assert(last_slash(root) == 0);
        assert(tail(root).len() == 0);
        assert(root.take(0) =~= Seq::empty());
        assert(p.take(0) =~= Seq::empty());
        assert(components(Seq::<char>::empty()).len() == 0);
    } else {
        lemma_trimmed(p.take(i));
        assert(p.take(i).take(trimmed(p).len() as int) =~= p.take(trimmed(p).len() as int));
        assert(is_rooted(p.take(i)) == is_rooted(p));
    }
}

/// Joining a plain name to a directory lists the directory's names and then that name, and
/// the last name and the parent of the result are the two that were joined.
pub proof fn lemma_joined(dir: Seq<char>, name: Seq<char>)
    requires
        is_plain_name(name),
    ensures
        path_key(joined(dir, name)) == (is_rooted(dir), components(dir).push(name)),
        ends_in_name(joined(dir, name)),
        trimmed(joined(dir, name)) == joined(dir, name),
        tail(joined(dir, name)) == name,
        parent_of(joined(dir, name)) is Some,
        path_key(parent_of(joined(dir, name))->0) == path_key(dir),
        name != seq!['.', '.'] ==> file_name_of(joined(dir, name)) == Some(name),
{
    let p = joined(dir, name);
    if dir.len() == 0 {
        assert(p =~= name);
        lemma_last_slash_is(p, -1);
        assert(tail(p) =~= name);
        assert(components(p) =~= seq![name]);
        lemma_last_slash_is(dir, -1);
        assert(components(dir) =~= Seq::empty());
    } else {
        let cut = p.len() - name.len() - 1;
        lemma_last_slash_is(p, cut);
        assert(tail(p) =~= name);
        if dir.last() == '/' {
            lemma_last_slash_is(dir, dir.len() - 1);
            assert(p.take(cut) =~= dir.take(dir.len() - 1));
            assert(tail(dir).len() == 0);
            assert(components(dir) == components(dir.take(dir.len() - 1)));
            if cut > 0 {
                assert(is_rooted(dir.take(cut)) == is_rooted(dir));
            } else {
                assert(p.take(1) =~= dir);
            }
        } else {
            assert(p.take(cut) =~= dir);
        }
        if cut > 0 {
            lemma_trimmed(p.take(cut));
        }
    }
}

/// A path with a file name is that name joined to its parent.
pub proof fn lemma_parent_and_name(p: Seq<char>)
    requires
        file_name_of(p) is Some,
    ensures
        parent_of(p) is Some,
        path_key(p) == (
            is_rooted(parent_of(p)->0),
            components(parent_of(p)->0).push(file_name_of(p)->0),
        ),
{
    lemma_trimmed(p);
    let t = trimmed(p);
    lemma_last_slash(t);
    let i = last_slash(t);
    if i > 0 {
        lemma_trimmed(t.take(i));
        assert(is_rooted(t.take(i)) == is_rooted(t));
    } else if i == 0 {
        let root = t.take(1);
        lemma_last_slash_is(root, 0);
        assert(tail(root).len() == 0);
        assert(root.take(0) =~= t.take(0));
        assert(components(root) == components(t.take(0)));
    } else {
        let none = Seq::<char>::empty();
        lemma_last_slash_is(none, -1);
        assert(components(none) =~= Seq::empty());
        assert(components(t) =~= Seq::empty().push(tail(t)));
    }
}

/// One path has one file name and one extension, in whatever way it is written.
pub proof fn lemma_name_follows_key(a: Seq<char>, b: Seq<char>)
    requires
        path_key(a) == path_key(b),
    ensures
        file_name_of(a) == file_name_of(b),
        extension_of(a) == extension_of(b),
{
    lemma_trimmed(a);
    lemma_trimmed(b);
    lemma_last_slash(trimmed(a));
    lemma_last_slash(trimmed(b));
}

/// Where the last `/` among the first `end` characters stands.
fn find_last_slash(chars: &Vec<char>, end: usize) -> (r: Option<usize>)
    requires
        end <= chars@.len(),
    ensures
        match r {
            Some(i) => last_slash(chars@.take(end as int)) == i,
            None => last_slash(chars@.take(end as int)) == -1,
        },
        r matches Some(i) ==> i < end,
{
    let mut i: usize = end;
    while i > 0
        invariant
            i <= end <= chars@.len(),
            forall|j: int| i <= j < end ==> chars@[j] != '/',
        decreases i,
    {
        i = i - 1;
        if chars[i] == '/' {
            proof {
                lemma_last_slash_is(chars@.take(end as int), i as int);
            }
            return Some(i);
        }
    }
    proof {
        lemma_last_slash_is(chars@.take(end as int), -1);
    }
    None
}

/// Whether the name that the first `end` characters end in, from `start` on, counts.
fn counts(chars: &Vec<char>, start: usize, end: usize) -> (r: bool)
    requires
        start <= end <= chars@.len(),
        start == last_slash(chars@.take(end as int)) + 1,
    ensures
        r == ends_in_name(chars@.take(end as int)),
{
    proof {
        let p = chars@.take(end as int);
        assert(tail(p) =~= chars@.subrange(start as int, end as int));
        if end - start == 1 && chars@[start as int] == '.' {
            assert(tail(p) =~= seq!['.']);
        } else if tail(p) == seq!['.'] {
            assert(tail(p)[0] == '.');
        }
    }
    end > start && (start == 0 || end - start != 1 || chars[start] != '.')
}

/// How many of the first `end` characters trimming keeps.
fn trimmed_len(chars: &Vec<char>, end: usize) -> (r: usize)
    requires
        end <= chars@.len(),
    ensures
        r <= end,
        chars@.take(r as int) == trimmed(chars@.take(end as int)),
{
    let mut end_now: usize = end;
    while end_now > 0
        invariant
            end_now <= end <= chars@.len(),
            trimmed(chars@.take(end_now as int)) == trimmed(chars@.take(end as int)),
        decreases end_now,
    {
        let ghost p = chars@.take(end_now as int);
        let slash = find_last_slash(chars, end_now);
        let start: usize = match slash {
            Some(i) => i + 1,
            None => 0,
        };
        if counts(chars, start, end_now) || start == 0 {
            return end_now;
        }
        if start == 1 {
            assert(p.take(1) =~= chars@.take(1));
            return 1;
        }
        assert(p.take(start - 1) =~= chars@.take(start - 1));
        end_now = start - 1;
    }
    proof {
        assert(chars@.take(0) =~= Seq::empty());
        lemma_last_slash(chars@.take(0));
    }
    0
}

/// Like `std::path::Path::parent`.
pub fn parent(path: &str) -> (r: Option<String>)
    ensures
        match r {
            Some(dir) => parent_of(path@) == Some(dir@),
            None => parent_of(path@) is None,
        },
{
    let chars: Vec<char> = chars_of(path);
    proof {
        assert(chars@.take(chars@.len() as int) =~= path@);
    }
    let end: usize = trimmed_len(&chars, chars.len());
    let slash = find_last_slash(&chars, end);
    let start: usize = match slash {
        Some(i) => i + 1,
        None => 0,
    };
    let ghost t = chars@.take(end as int);
    if !counts(&chars, start, end) {
        return None;
    }
    let cut: usize = if start == 0 {
        0
    } else if start == 1 {
        assert(t.take(1) =~= chars@.take(1));
        1
    } else {
        assert(t.take(start - 1) =~= chars@.take(start - 1));
        trimmed_len(&chars, start - 1)
    };
    proof {
        assert(path@.subrange(0, cut as int) =~= chars@.take(cut as int));
    }
    Some(path.substring_char(0, cut).to_owned())
}

/// Like `std::path::Path::file_name`.
pub fn file_name(path: &str) -> (r: Option<String>)
    ensures
        match r {
            Some(name) => file_name_of(path@) == Some(name@),
            None => file_name_of(path@) is None,
        },
{
    let chars: Vec<char> = chars_of(path);
    proof {
        assert(chars@.take(chars@.len() as int) =~= path@);
    }
    let end: usize = trimmed_len(&chars, chars.len());
    let slash = find_last_slash(&chars, end);
    let start: usize = match slash {
        Some(i) => i + 1,
        None => 0,
    };
    let name = path.substring_char(start, end);
    proof {
        reveal_strlit(".");
        reveal_strlit("..");
        assert(name@ =~= tail(trimmed(path@)));
        assert("."@ =~= seq!['.']);
        assert(".."@ =~= seq!['.', '.']);
    }
    if end == start || same_text(name, ".") || same_text(name, "..") {
        None
    } else {
        Some(name.to_owned())
    }
}

/// Where the last `.` of a name stands.
fn find_last_dot(name: &Vec<char>) -> (r: Option<usize>)
    ensures
        match r {
            Some(i) => last_dot(name@) == i && i < name@.len(),
            None => last_dot(name@) == -1,
        },
{
    let mut i: usize = name.len();
    proof {
        lemma_last_dot(name@);
    }
    while i > 0
        invariant
            i <= name@.len(),
            forall|j: int| i <= j < name@.len() ==> name@[j] != '.',
            -1 <= last_dot(name@) < name@.len(),
            last_dot(name@) >= 0 ==> name@[last_dot(name@)] == '.',
            forall|i: int| last_dot(name@) < i < name@.len() ==> name@[i] != '.',
        decreases i,
    {
        i = i - 1;
        if name[i] == '.' {
            return Some(i);
        }
    }
    None
}

/// Like `std::path::Path::file_stem`.
pub fn file_stem(path: &str) -> (r: Option<String>)
    ensures
        match r {
            Some(stem) => file_stem_of(path@) == Some(stem@),
            None => file_stem_of(path@) is None,
        },
{
    match file_name(path) {
        Some(name) => {
            let chars: Vec<char> = chars_of(name.as_str());
            match find_last_dot(&chars) {
                Some(dot) if dot > 0 => {
                    proof {
                        assert(name@.subrange(0, dot as int) =~= name@.take(dot as int));
                    }
                    Some(name.as_str().substring_char(0, dot).to_owned())
                },
                _ => Some(name),
            }
        },
        None => None,
    }
}

/// Like `std::path::Path::extension`.
pub fn extension(path: &str) -> (r: Option<String>)
    ensures
        match r {
            Some(ext) => extension_of(path@) == Some(ext@),
            None => extension_of(path@) is None,
        },
{
    match file_name(path) {
        Some(name) => {
            let chars: Vec<char> = chars_of(name.as_str());
            let len: usize = chars.len();
            match find_last_dot(&chars) {
                Some(dot) if dot > 0 => {
                    proof {
                        assert(name@.subrange(dot + 1, name@.len() as int) =~= name@.skip(
                            dot + 1,
                        ));
                    }
                    Some(name.as_str().substring_char(dot + 1, len).to_owned())
                },
                _ => None,
            }
        },
        None => None,
    }
}

/// Like `std::path::Path::join`.
pub fn join(dir: &str, name: &str) -> (r: String)
    ensures
        r@ == joined(dir@, name@),
{
    let name_chars: Vec<char> = chars_of(name);
    if name_chars.len() > 0 && name_chars[0] == '/' {
        return name.to_owned();
    }
    let dir_chars: Vec<char> = chars_of(dir);
    let mut path: String = dir.to_owned();
    if dir_chars.len() > 0 && dir_chars[dir_chars.len() - 1] != '/' {
        proof {
            reveal_strlit("/");
            assert("/"@ =~= seq!['/']);
        }
        path.append("/");
    }
    path.append(name);
    path
}

/// The names that a path lists.
pub fn names(path: &str) -> (r: Vec<String>)
    ensures
        texts(r@) == components(path@),
{
    let chars: Vec<char> = chars_of(path);
    let mut found: Vec<String> = Vec::new();
    let mut start: usize = 0;
    let mut i: usize = 0;
    let len: usize = chars.len();
    while i < len
        invariant
            chars@ == path@,
            len == chars@.len(),
            start <= i <= len,
            start > 0 ==> chars@[start - 1] == '/',
            forall|j: int| start <= j < i ==> chars@[j] != '/',
            start == 0 ==> texts(found@) == Seq::<Seq<char>>::empty(),
            start > 0 ==> texts(found@) == components(path@.take(start - 1)),
        decreases len - i,
    {
        if chars[i] == '/' {
            push_name(path, &chars, start, i, &mut found);
            start = i + 1;
        }
        i = i + 1;
    }
    push_name(path, &chars, start, len, &mut found);
    assert(path@.take(len as int) =~= path@);
    found
}

/// Extends the names listed before `start` by the one that stands between `start` and `end`,
/// where it counts.
fn push_name(path: &str, chars: &Vec<char>, start: usize, end: usize, found: &mut Vec<String>)
    requires
        chars@ == path@,
        start <= end <= chars@.len(),
        start > 0 ==> chars@[start - 1] == '/',
        forall|j: int| start <= j < end ==> chars@[j] != '/',
        start == 0 ==> texts(old(found)@) == Seq::<Seq<char>>::empty(),
        start > 0 ==> texts(old(found)@) == components(path@.take(start - 1)),
    ensures
        texts(final(found)@) == components(path@.take(end as int)),
{
    let ghost p = path@.take(end as int);
    proof {
        lemma_last_slash_is(p, start - 1);
        if start > 0 {
            assert(p.take(start - 1) =~= path@.take(start - 1));
        }
        assert(tail(p) =~= path@.subrange(start as int, end as int));
    }
    if counts(chars, start, end) {
        found.push(path.substring_char(start, end).to_owned());
        proof {
            assert(texts(found@) =~= texts(old(found)@).push(tail(p)));
        }
    }
}

/// Like `==` on `std::path::Path`.
pub fn same_path(a: &str, b: &str) -> (r: bool)
    ensures
        r == (path_key(a@) == path_key(b@)),
{
    let a_chars: Vec<char> = chars_of(a);
    let b_chars: Vec<char> = chars_of(b);
    let a_rooted = a_chars.len() > 0 && a_chars[0] == '/';
    let b_rooted = b_chars.len() > 0 && b_chars[0] == '/';
    if a_rooted != b_rooted {
        return false;
    }
    let a_names: Vec<String> = names(a);
    let b_names: Vec<String> = names(b);
    if a_names.len() != b_names.len() {
        assert(texts(a_names@).len() != texts(b_names@).len());
        return false;
    }
    let mut i: usize = 0;
    while i < a_names.len()
        invariant
            i <= a_names@.len(),
            a_names@.len() == b_names@.len(),
            texts(a_names@) == components(a@),
            texts(b_names@) == components(b@),
            forall|j: int| 0 <= j < i ==> texts(a_names@)[j] == texts(b_names@)[j],
        decreases a_names@.len() - i,
    {
        if !same_text(a_names[i].as_str(), b_names[i].as_str()) {
            assert(texts(a_names@)[i as int] != texts(b_names@)[i as int]);
            return false;
        }
        i = i + 1;
    }
    assert(texts(a_names@) =~= texts(b_names@));
    true
}

/// A name behind a directory and a slash is the last name of the path, and the directory is its
/// parent, however the directory is written, as long as nothing idle stands at its end.
pub proof fn law_paths_split_at_the_last_slash(dir: Seq<char>, name: Seq<char>)
    requires
        is_plain_name(name),
        name != seq!['.', '.'],
        dir.len() > 0,
        dir.last() != '/',
        !(dir.len() > 1 && dir[dir.len() - 2] == '/' && dir.last() == '.'),
    ensures
        parent_of(dir + seq!['/'] + name) == Some(dir),
        file_name_of(dir + seq!['/'] + name) == Some(name),
        parent_of(seq!['/'] + name) == Some(seq!['/']),
        file_name_of(seq!['/'] + name) == Some(name),
        parent_of(name) == Some(Seq::<char>::empty()),
        file_name_of(name) == Some(name),
        parent_of(Seq::<char>::empty()) is None,
        parent_of(seq!['/']) is None,
{
    let p = dir + seq!['/'] + name;
    lemma_last_slash_is(p, dir.len() as int);
    assert(tail(p) =~= name);
    assert(p.take(dir.len() as int) =~= dir);
    lemma_last_slash(dir);
    let i = last_slash(dir);
    if i >= 0 {
        assert(tail(dir).len() > 0);
        if tail(dir) == seq!['.'] {
            assert(tail(dir).len() == 1);
            assert(tail(dir)[0] == '.');
            assert(i == dir.len() - 2);
        }
    } else {
        assert(tail(dir) =~= dir);
    }
    assert(ends_in_name(dir));
    let r = seq!['/'] + name;
    lemma_last_slash_is(r, 0);
    assert(tail(r) =~= name);
    assert(r.take(1) =~= seq!['/']);
    lemma_last_slash_is(name, -1);
    assert(tail(name) =~= name);
    let none = Seq::<char>::empty();
    lemma_last_slash_is(none, -1);
    assert(tail(none).len() == 0);
    let root = seq!['/'];
    lemma_last_slash_is(root, 0);
    assert(tail(root).len() == 0);
    assert(root.take(1) =~= root);
}

/// A slash, or a slash and a dot, at the end of a path says nothing.
pub proof fn law_idle_endings_say_nothing(p: Seq<char>)
    requires
        p.len() > 0,
    ensures
        path_key(p + seq!['/']) == path_key(p),
        path_key(p + seq!['/', '.']) == path_key(p),
        parent_of(p + seq!['/']) == parent_of(p),
        parent_of(p + seq!['/', '.']) == parent_of(p),
        file_name_of(p + seq!['/']) == file_name_of(p),
        file_name_of(p + seq!['/', '.']) == file_name_of(p),
{
    let a = p + seq!['/'];
    let b = p + seq!['/', '.'];
    lemma_last_slash_is(a, p.len() as int);
    lemma_last_slash_is(b, p.len() as int);
    assert(tail(a).len() == 0);
    assert(tail(b) =~= seq!['.']);
    assert(a.take(p.len() as int) =~= p);
    assert(b.take(p.len() as int) =~= p);
}

/// The names of a path are told apart by its slashes: those of a path behind another and a
/// slash come after those of the other, and only a path that starts with a slash is rooted.
pub proof fn law_names_follow_one_another(p: Seq<char>, name: Seq<char>)
    requires
        is_plain_name(name),
        p.len() > 0,
    ensures
        path_key(p + seq!['/'] + name) == (p[0] == '/', components(p).push(name)),
        path_key(name) == (false, seq![name]),
        path_key(seq!['/'] + name) == (true, seq![name]),
        path_key(seq!['/']) == (true, Seq::<Seq<char>>::empty()),
        path_key(Seq::<char>::empty()) == (false, Seq::<Seq<char>>::empty()),
        path_key(seq!['.']) == (false, seq![seq!['.']]),
{
    let root = seq!['/'];
    lemma_last_slash_is(root, 0);
    assert(tail(root).len() == 0);
    assert(root.take(0) =~= Seq::empty());
    let dot = seq!['.'];
    lemma_last_slash_is(dot, -1);
    assert(tail(dot) =~= dot);
    assert(components(dot) =~= seq![dot]);
    let q = p + seq!['/'] + name;
    lemma_last_slash_is(q, p.len() as int);
    assert(tail(q) =~= name);
    assert(q.take(p.len() as int) =~= p);
    lemma_last_slash_is(name, -1);
    assert(tail(name) =~= name);
    assert(components(name) =~= seq![name]);
    let r = seq!['/'] + name;
    lemma_last_slash_is(r, 0);
    assert(tail(r) =~= name);
    let none = Seq::<char>::empty();
    assert(r.take(0) =~= none);
    lemma_last_slash_is(none, -1);
    assert(tail(none).len() == 0);
    assert(components(none) =~= Seq::empty());
    assert(components(r) =~= seq![name]);
}

/// A file name is its stem, a dot and its extension, where a dot stands in it behind the first
/// character: the last such dot parts them. Any other name is its own stem.
pub proof fn law_names_split_at_the_last_dot(p: Seq<char>)
    ensures
        file_stem_of(p) is Some == file_name_of(p) is Some,
        file_name_of(p) is None ==> extension_of(p) is None,
        file_name_of(p) matches Some(name) ==> {
            &&& extension_of(p) matches Some(ext) ==> {
                &&& name == file_stem_of(p)->0 + seq!['.'] + ext
                &&& file_stem_of(p)->0.len() > 0
                &&& forall|i: int| 0 <= i < ext.len() ==> #[trigger] ext[i] != '.'
            }
            &&& extension_of(p) is None ==> file_stem_of(p)->0 == name
            &&& extension_of(p) is None ==> forall|i: int|
                0 < i < name.len() ==> #[trigger] name[i] != '.'
        },
{
    if let Some(name) = file_name_of(p) {
        lemma_last_dot(name);
        let dot = last_dot(name);
        if dot > 0 {
            assert(name =~= name.take(dot) + seq!['.'] + name.skip(dot + 1));
        }
    }
}

/// A file name holds characters, none of them a slash, and is neither `.` nor `..`.
pub proof fn law_file_names_are_names(p: Seq<char>)
    ensures
        file_name_of(p) matches Some(name) ==> is_plain_name(name) && name != seq!['.', '.']
            && components(p).len() > 0 && components(p).last() == name,
        file_name_of(p) is None ==> components(p).len() == 0 || components(p).last() == seq!['.']
            || components(p).last() == seq!['.', '.'],
{
    lemma_trimmed(p);
    let t = trimmed(p);
    lemma_last_slash(t);
    if let Some(name) = file_name_of(p) {
        assert forall|i: int| 0 <= i < name.len() implies name[i] != '/' by {
            assert(name[i] == t[last_slash(t) + 1 + i]);
        }
    }
}

/// Joining writes a slash between a directory and a name where there is none yet. A name that
/// starts with a slash is a path of its own.
pub proof fn law_joining_puts_a_slash_between(dir: Seq<char>, name: Seq<char>)
    ensures
        name.len() > 0 && name[0] == '/' ==> joined(dir, name) == name,
        !(name.len() > 0 && name[0] == '/') ==> {
            &&& dir.len() == 0 ==> joined(dir, name) == name
            &&& dir.len() > 0 && dir[dir.len() - 1] == '/' ==> joined(dir, name) == dir + name
            &&& dir.len() > 0 && dir[dir.len() - 1] != '/' ==> joined(dir, name) == dir + seq!['/']
                + name
        },
{
    if dir.len() == 0 {
        assert(dir + name =~= name);
    }
}

/// Further slashes between a directory and a name, or a dot between two, say nothing: neither
/// the path nor the way in which its parent is written changes.
pub proof fn law_idle_slashes_say_nothing(p: Seq<char>, name: Seq<char>)
    requires
        is_plain_name(name),
        p.len() > 0,
    ensures
        parent_of(p + seq!['/'] + seq!['/'] + name) == parent_of(p + seq!['/'] + name),
        parent_of(p + seq!['/', '.'] + seq!['/'] + name) == parent_of(p + seq!['/'] + name),
        path_key(p + seq!['/'] + seq!['/'] + name) == path_key(p + seq!['/'] + name),
        path_key(p + seq!['/', '.'] + seq!['/'] + name) == path_key(p + seq!['/'] + name),
        file_name_of(p + seq!['/'] + seq!['/'] + name) == file_name_of(p + seq!['/'] + name),
        parent_of(p + seq!['/'] + name) matches Some(dir) && (dir.len() <= 1 || ends_in_name(dir)),
{
    let n = p.len() as int;
    let plain = p + seq!['/'] + name;
    let a = p + seq!['/'];
    let b = p + seq!['/', '.'];
    let twice = a + seq!['/'] + name;
    let dotted = b + seq!['/'] + name;
    lemma_last_slash_is(plain, n);
    lemma_last_slash_is(twice, n + 1);
    lemma_last_slash_is(dotted, n + 2);
    assert(tail(plain) =~= name && tail(twice) =~= name && tail(dotted) =~= name);
    assert(plain.take(n) =~= p);
    assert(twice.take(n + 1) =~= a);
    assert(dotted.take(n + 2) =~= b);
    lemma_last_slash_is(a, n);
    lemma_last_slash_is(b, n);
    assert(tail(a).len() == 0);
    assert(tail(b) =~= seq!['.']);
    assert(a.take(n) =~= p);
    assert(b.take(n) =~= p);
    lemma_trimmed(p);
    law_names_follow_one_another(p, name);
    law_names_follow_one_another(a, name);
    law_names_follow_one_another(b, name);
    law_idle_endings_say_nothing(p);
}

} // verus!
