//! File paths as texts: their components are parted by `/`.
use crate::text::{cat2, cat3, cat4, chars_of, opt_text, string_of};
use vstd::prelude::*;

pub mod laws;

verus! {

/// A path and what is reached from it: an absolute path stands for itself.
pub open spec fn joined_path(base: Seq<char>, rest: Seq<char>) -> Seq<char> {
    if rest.len() > 0 && rest[0] == '/' {
        rest
    } else if base.len() == 0 || base.last() == '/' {
        base + rest
    } else {
        base + "/"@ + rest
    }
}

/// Appends `rest` to the path `base`.
pub fn join_path(base: &str, rest: &str) -> (r: String)
    ensures
        r@ == joined_path(base@, rest@),
{
    let b = chars_of(base);
    let s = chars_of(rest);
    if s.len() > 0 && s[0] == '/' {
        rest.to_owned()
    } else if b.len() == 0 || b[b.len() - 1] == '/' {
        cat2(base, rest)
    } else {
        cat3(base, "/", rest)
    }
}

// ---------------------------------------------------------------- components

/// Where the components of a path start: behind a root, or behind a `.` that the
/// path starts with.
pub open spec fn body_start(path: Seq<char>) -> nat {
    if path.len() > 0 && path[0] == '/' {
        1
    } else if path.len() > 0 && path[0] == '.' && (path.len() == 1 || path[1] == '/') {
        1
    } else {
        0
    }
}

/// Where the last component of a path starts: behind its last slash, if there is
/// one at or behind `start`.
pub open spec fn last_start(path: Seq<char>, start: nat) -> nat
    decreases path.len(),
{
    if path.len() <= start {
        start
    } else if path.last() == '/' {
        path.len()
    } else {
        last_start(path.drop_last(), start)
    }
}

/// A path without its last component and the slash before it.
pub open spec fn without_last(path: Seq<char>, start: nat) -> Seq<char> {
    let i = last_start(path, start);
    if i > start && i <= path.len() {
        path.take(i - 1)
    } else {
        path.take(start as int)
    }
}

/// A path without slashes and `.` components at its end.
pub open spec fn trimmed_path(path: Seq<char>, start: nat) -> Seq<char>
    decreases path.len(),
{
    let last = path.skip(last_start(path, start) as int);
    if path.len() > start && without_last(path, start).len() < path.len() && (last.len() == 0
        || last =~= seq!['.']) {
        trimmed_path(without_last(path, start), start)
    } else {
        path
    }
}

/// A path without its last component; nothing where it has none, as a root.
pub open spec fn parent_path(path: Seq<char>) -> Option<Seq<char>> {
    let start = body_start(path);
    let whole = trimmed_path(path, start);
    if whole.len() > start {
        Some(trimmed_path(without_last(whole, start), start))
    } else if path.len() > 0 && path[0] == '.' {
        Some(Seq::empty())
    } else {
        None
    }
}

/// The last component of a path; nothing where it is `.`, `..` or a root.
pub open spec fn file_name_of(path: Seq<char>) -> Option<Seq<char>> {
    let start = body_start(path);
    let whole = trimmed_path(path, start);
    let last = whole.skip(last_start(whole, start) as int);
    if whole.len() > start && last != seq!['.', '.'] {
        Some(last)
    } else {
        None
    }
}

fn start_of(path: &Vec<char>) -> (r: usize)
    ensures
        r == body_start(path@),
        r <= path@.len(),
{
    if path.len() > 0 && path[0] == '/' {
        1
    } else if path.len() > 0 && path[0] == '.' && (path.len() == 1 || path[1] == '/') {
        1
    } else {
        0
    }
}

/// Where the last component of the first `n` characters starts.
fn last_start_of(path: &Vec<char>, n: usize, start: usize) -> (r: usize)
    requires
        start <= n <= path@.len(),
    ensures
        r == last_start(path@.take(n as int), start as nat),
        start <= r <= n,
{
    let ghost all = path@;
    let mut i: usize = n;
    while i > start && path[i - 1] != '/'
        invariant
            start <= i <= n <= path@.len(),
            all == path@,
            last_start(all.take(n as int), start as nat) == last_start(
                all.take(i as int),
                start as nat,
            ),
        decreases i,
    {
        assert(all.take(i as int).drop_last() =~= all.take(i - 1));
        i -= 1;
    }
    i
}

/// How much is left of the first `n` characters without their last component.
fn without_last_of(path: &Vec<char>, n: usize, start: usize) -> (r: usize)
    requires
        start <= n <= path@.len(),
    ensures
        start <= r <= n,
        path@.take(r as int) == without_last(path@.take(n as int), start as nat),
        r < n || n == start,
{
    let i: usize = last_start_of(path, n, start);
    if i > start {
        assert(path@.take(n as int).take(i - 1) =~= path@.take(i - 1));
        i - 1
    } else {
        assert(path@.take(n as int).take(start as int) =~= path@.take(start as int));
        start
    }
}

/// How much is left of the first `n` characters once they are trimmed.
fn trimmed_of(path: &Vec<char>, n: usize, start: usize) -> (r: usize)
    requires
        start <= n <= path@.len(),
    ensures
        start <= r <= n,
        path@.take(r as int) == trimmed_path(path@.take(n as int), start as nat),
{
    let ghost all = path@;
    let mut k: usize = n;
    loop
        invariant
            start <= k <= n <= path@.len(),
            all == path@,
            trimmed_path(all.take(n as int), start as nat) == trimmed_path(
                all.take(k as int),
                start as nat,
            ),
        decreases k,
    {
        if k <= start {
            return k;
        }
        let i: usize = last_start_of(path, k, start);
        let ghost last = all.take(k as int).skip(i as int);
        let dot = k - i == 1 && path[i] == '.';
        proof {
            if i + 1 == k {
                assert(last =~= seq![all[i as int]]);
                assert(seq![all[i as int]][0] == all[i as int]);
                assert(seq!['.'][0] == '.');
            }
            assert(dot <==> last =~= seq!['.']) by {
                if last =~= seq!['.'] {
                    assert(last.len() == 1);
                    assert(last[0] == '.');
                }
            }
        }
        if i < k && !dot {
            return k;
        }
        k = without_last_of(path, k, start);
    }
}

/// A path without its last component; nothing where it has none, as a root.
pub fn parent_dir(path: &str) -> (r: Option<String>)
    ensures
        opt_text(r) == parent_path(path@),
{
    let chars = chars_of(path);
    let start: usize = start_of(&chars);
    assert(chars@.take(chars@.len() as int) =~= path@);
    let whole: usize = trimmed_of(&chars, chars.len(), start);
    if whole > start {
        let rest: usize = without_last_of(&chars, whole, start);
        let n: usize = trimmed_of(&chars, rest, start);
        assert(chars@.subrange(0, n as int) =~= chars@.take(n as int));
        return Some(string_of(&chars, 0, n));
    }
    if chars.len() > 0 && chars[0] == '.' {
        return Some(String::new());
    }
    None
}

/// The last component of a path; nothing where it is `.`, `..` or a root.
pub fn file_name(path: &str) -> (r: Option<String>)
    ensures
        opt_text(r) == file_name_of(path@),
{
    let chars = chars_of(path);
    let start: usize = start_of(&chars);
    assert(chars@.take(chars@.len() as int) =~= path@);
    let whole: usize = trimmed_of(&chars, chars.len(), start);
    if whole <= start {
        return None;
    }
    let i: usize = last_start_of(&chars, whole, start);
    let ghost last = chars@.take(whole as int).skip(i as int);
    assert(chars@.subrange(i as int, whole as int) =~= last);
    let up = whole - i == 2 && chars[i] == '.' && chars[i + 1] == '.';
    proof {
        if up {
            assert(last =~= seq!['.', '.']);
        } else if last == seq!['.', '.'] {
            assert(last.len() == 2);
            assert(last[0] == '.' && last[1] == '.');
        }
    }
    if up {
        None
    } else {
        Some(string_of(&chars, i, whole))
    }
}

// ---------------------------------------------------------------- beside a file

/// A file beside another: `suffix` follows the file's name. A path that names no
/// file stands for itself.
pub open spec fn suffixed(path: Seq<char>, suffix: Seq<char>) -> Seq<char> {
    match file_name_of(path) {
        Some(name) => beside(path, name + suffix),
        None => path,
    }
}

/// The file `name` in the directory that `path` lies in.
pub open spec fn beside(path: Seq<char>, name: Seq<char>) -> Seq<char> {
    match parent_path(path) {
        Some(parent) => joined_path(parent, name),
        None => name,
    }
}

fn file_beside(path: &str, name: &str) -> (r: String)
    ensures
        r@ == beside(path@, name@),
{
    match parent_dir(path) {
        Some(parent) => join_path(parent.as_str(), name),
        None => name.to_owned(),
    }
}

/// The path beside `path` whose file name has `suffix` behind it.
pub fn with_suffix(path: &str, suffix: &str) -> (r: String)
    ensures
        r@ == suffixed(path@, suffix@),
{
    match file_name(path) {
        Some(name) => {
            let file = cat2(name.as_str(), suffix);
            file_beside(path, file.as_str())
        },
        None => path.to_owned(),
    }
}

/// Where a file is written before it takes the place of `path`.
pub fn temp_state_path(path: &str) -> (r: String)
    ensures
        r@ == suffixed(path@, ".tmp"@),
{
    with_suffix(path, ".tmp")
}

/// Where a file is written before it takes the place of `path`, apart from what
/// others write there: `unique` is part of the name.
pub fn temp_json_path(path: &str, unique: &str) -> (r: String)
    ensures
        r@ == suffixed(path@, "."@ + unique@ + ".tmp"@),
{
    let suffix = cat3(".", unique, ".tmp");
    with_suffix(path, suffix.as_str())
}

/// Where a lease is written before it takes the place of `path`.
pub fn temp_lease_path(path: &str, unique: &str) -> (r: String)
    ensures
        r@ == match file_name_of(path@) {
            Some(name) => beside(path@, name + "."@ + unique@ + ".tmp"@),
            None => joined_path(path@, "lease."@ + unique@ + ".tmp"@),
        },
{
    match file_name(path) {
        Some(name) => {
            let file = cat4(name.as_str(), ".", unique, ".tmp");
            file_beside(path, file.as_str())
        },
        None => {
            let file = cat3("lease.", unique, ".tmp");
            join_path(path, file.as_str())
        },
    }
}

// ---------------------------------------------------------------- extensions

/// Where the extension of a file name starts: behind its last dot, unless that is
/// its first character.
pub open spec fn dot_in(name: Seq<char>) -> Option<nat>
    decreases name.len(),
{
    if name.len() <= 1 {
        None
    } else if name.last() == '.' {
        Some(name.len())
    } else {
        dot_in(name.drop_last())
    }
}

/// The extension of the file that a path names.
pub open spec fn extension_of(path: Seq<char>) -> Option<Seq<char>> {
    match file_name_of(path) {
        Some(name) => match dot_in(name) {
            Some(i) => Some(name.skip(i as int)),
            None => None,
        },
        None => None,
    }
}

/// The name of the file that a path names, without its extension.
pub open spec fn stem_of(path: Seq<char>) -> Option<Seq<char>> {
    match file_name_of(path) {
        Some(name) => match dot_in(name) {
            Some(i) => Some(name.take(i - 1)),
            None => Some(name),
        },
        None => None,
    }
}

fn dot_of(name: &Vec<char>) -> (r: Option<usize>)
    ensures
        match r {
            Some(i) => dot_in(name@) == Some(i as nat) && 1 < i <= name@.len(),
            None => dot_in(name@) is None,
        },
{
    let ghost all = name@;
    let mut i: usize = name.len();
    assert(all.take(i as int) =~= all);
    while i > 1 && name[i - 1] != '.'
        invariant
            i <= name@.len(),
            all == name@,
            dot_in(all) == dot_in(all.take(i as int)),
        decreases i,
    {
        assert(all.take(i as int).drop_last() =~= all.take(i - 1));
        i -= 1;
    }
    if i > 1 {
        Some(i)
    } else {
        None
    }
}

/// The extension of the file that a path names.
pub fn extension(path: &str) -> (r: Option<String>)
    ensures
        opt_text(r) == extension_of(path@),
{
    match file_name(path) {
        None => None,
        Some(name) => {
            let chars = chars_of(name.as_str());
            match dot_of(&chars) {
                Some(i) => {
                    assert(chars@.subrange(i as int, chars@.len() as int) =~= chars@.skip(
                        i as int,
                    ));
                    Some(string_of(&chars, i, chars.len()))
                },
                None => None,
            }
        },
    }
}

/// The name of the file that a path names, without its extension.
pub fn file_stem(path: &str) -> (r: Option<String>)
    ensures
        opt_text(r) == stem_of(path@),
{
    match file_name(path) {
        None => None,
        Some(name) => {
            let chars = chars_of(name.as_str());
            match dot_of(&chars) {
                Some(i) => {
                    assert(chars@.subrange(0, i - 1) =~= chars@.take(i - 1));
                    Some(string_of(&chars, 0, i - 1))
                },
                None => Some(name),
            }
        },
    }
}

} // verus!
