//! What holds of paths and the names in them.
use crate::paths::{
    body_start, dot_in, extension_of, file_name_of, joined_path, last_start, parent_path, stem_of,
    suffixed, trimmed_path, without_last,
};
use vstd::prelude::*;

verus! {

/// A path is reached from another behind a slash; an absolute path stands for itself,
/// and nothing is put before what is reached from nowhere.
pub proof fn paths_are_joined(base: Seq<char>, rest: Seq<char>)
    ensures
        rest.len() > 0 && rest[0] == '/' ==> joined_path(base, rest) == rest,
        (rest.len() == 0 || rest[0] != '/') && base.len() > 0 && base.last() != '/'
            ==> joined_path(base, rest) == base + seq!['/'] + rest,
        (rest.len() == 0 || rest[0] != '/') && base.len() > 0 && base.last() == '/'
            ==> joined_path(base, rest) == base + rest,
        joined_path(Seq::empty(), rest) == rest,
{
    reveal_strlit("/");
    assert("/"@ =~= seq!['/']);
    assert(Seq::<char>::empty() + rest =~= rest);
}

/// Whether a text is the name of a file, with nothing of a path in it.
pub open spec fn plain_file(name: Seq<char>) -> bool {
    &&& name.len() > 0
    &&& !name.contains('/')
    &&& !(name =~= seq!['.'])
    &&& !(name =~= seq!['.', '.'])
}

proof fn last_start_behind(dir: Seq<char>, name: Seq<char>, start: nat)
    requires
        !name.contains('/'),
        start <= dir.len() + 1,
    ensures
        last_start(dir + seq!['/'] + name, start) == dir.len() + 1,
    decreases name.len(),
{
    let p = dir + seq!['/'] + name;
    if name.len() == 0 {
        assert(p.last() == '/');
    } else {
        assert(p.last() == name.last());
        assert(name.contains(name[name.len() - 1]));
        assert(p.drop_last() =~= dir + seq!['/'] + name.drop_last());
        assert(!name.drop_last().contains('/')) by {
            if name.drop_last().contains('/') {
                let k = choose|k: int|
                    0 <= k < name.drop_last().len() && name.drop_last()[k] == '/';
                assert(name[k] == '/');
            }
        }
        if start < p.len() {
            last_start_behind(dir, name.drop_last(), start);
        }
    }
}

proof fn last_start_alone(name: Seq<char>)
    requires
        !name.contains('/'),
    ensures
        last_start(name, 0) == 0,
    decreases name.len(),
{
    if name.len() > 0 {
        assert(name.contains(name[name.len() - 1]));
        assert(!name.drop_last().contains('/')) by {
            if name.drop_last().contains('/') {
                let k = choose|k: int|
                    0 <= k < name.drop_last().len() && name.drop_last()[k] == '/';
                assert(name[k] == '/');
            }
        }
        last_start_alone(name.drop_last());
    }
}

/// The name of a file in a directory is what stands behind the last slash.
pub proof fn files_have_their_names(dir: Seq<char>, name: Seq<char>)
    requires
        plain_file(name),
    ensures
        file_name_of(dir + seq!['/'] + name) == Some(name),
        file_name_of(name) == Some(name),
{
    let p = dir + seq!['/'] + name;
    let start = body_start(p);
    assert(start <= 1);
    last_start_behind(dir, name, start);
    assert(p.skip(dir.len() as int + 1) =~= name);
    assert(trimmed_path(p, start) == p);
    let alone = body_start(name);
    assert(alone == 0) by {
        if name[0] == '/' {
            assert(name.contains('/'));
        }
        if name[0] == '.' {
            if name.len() == 1 {
                assert(name =~= seq!['.']);
            } else if name[1] == '/' {
                assert(name.contains('/'));
            }
        }
    }
    last_start_alone(name);
    assert(name.skip(0) =~= name);
    assert(trimmed_path(name, 0) == name);
}

/// Whether a directory is written plainly: it ends neither in a slash nor in a dot
/// component.
pub open spec fn plain_dir(dir: Seq<char>) -> bool {
    &&& dir.len() > 0
    &&& dir[0] != '.'
    &&& dir.last() != '/' && dir.last() != '.'
}

/// The directory of a file is what stands before the last slash.
pub proof fn files_have_their_directories(dir: Seq<char>, name: Seq<char>)
    requires
        plain_file(name),
        plain_dir(dir),
    ensures
        parent_path(dir + seq!['/'] + name) == Some(dir),
{
    let p = dir + seq!['/'] + name;
    assert(p[0] == dir[0]);
    let start = body_start(p);
    assert(start <= 1);
    last_start_behind(dir, name, start);
    assert(p.skip(dir.len() as int + 1) =~= name);
    assert(trimmed_path(p, start) == p);
    assert(p.take(dir.len() as int) =~= dir);
    if start == 1 && dir.len() == 1 {
        assert(dir[0] == '/' && dir.last() == '/');
    }
    assert(without_last(p, start) == dir);
    let i = last_start(dir, start);
    last_part_is_plain(dir, start);
    assert(trimmed_path(dir, start) == dir);
}

proof fn last_part_is_plain(dir: Seq<char>, start: nat)
    requires
        dir.len() > start,
        dir.last() != '/' && dir.last() != '.',
    ensures
        last_start(dir, start) < dir.len(),
        ({
            let last = dir.skip(last_start(dir, start) as int);
            last.len() > 0 && !(last =~= seq!['.'])
        }),
{
    last_start_before_end(dir, start);
    let last = dir.skip(last_start(dir, start) as int);
    assert(last.last() == dir.last());
}

proof fn last_start_before_end(dir: Seq<char>, start: nat)
    requires
        dir.len() > start,
        dir.last() != '/',
    ensures
        last_start(dir, start) < dir.len(),
{
    last_start_within(dir.drop_last(), start);
}

proof fn last_start_within(dir: Seq<char>, start: nat)
    ensures
        last_start(dir, start) <= if dir.len() > start {
            dir.len()
        } else {
            start
        },
    decreases dir.len(),
{
    if dir.len() > start && dir.last() != '/' {
        last_start_within(dir.drop_last(), start);
    }
}

/// The extension of a file stands behind the last dot of its name, and the stem
/// before it; a name without a dot, or with one at its start alone, has none.
pub proof fn names_have_extensions(stem: Seq<char>, ext: Seq<char>)
    requires
        stem.len() > 0,
        !stem.contains('/'),
        !ext.contains('/') && !ext.contains('.'),
        !(stem =~= seq!['.'] && ext.len() == 0),
    ensures
        extension_of(stem + seq!['.'] + ext) == Some(ext),
        stem_of(stem + seq!['.'] + ext) == Some(stem),
{
    let name = stem + seq!['.'] + ext;
    assert(plain_file(name)) by {
        if name.contains('/') {
            let k = choose|k: int| 0 <= k < name.len() && name[k] == '/';
            if k < stem.len() {
                assert(stem[k] == '/');
            } else {
                assert(ext[k - stem.len() - 1] == '/');
            }
        }
        if name =~= seq!['.', '.'] {
            assert(stem =~= seq!['.'] && ext.len() == 0);
        }
    }
    files_have_their_names(Seq::empty(), name);
    dot_behind_stem(stem, ext);
    assert(name.skip(stem.len() as int + 1) =~= ext);
    assert(name.take(stem.len() as int) =~= stem);
}

proof fn dot_behind_stem(stem: Seq<char>, ext: Seq<char>)
    requires
        stem.len() > 0,
        !ext.contains('.'),
    ensures
        dot_in(stem + seq!['.'] + ext) == Some((stem.len() + 1) as nat),
    decreases ext.len(),
{
    let name = stem + seq!['.'] + ext;
    if ext.len() == 0 {
        assert(name.last() == '.');
    } else {
        assert(name.last() == ext.last());
        assert(ext.contains(ext[ext.len() - 1]));
        assert(name.drop_last() =~= stem + seq!['.'] + ext.drop_last());
        assert(!ext.drop_last().contains('.')) by {
            if ext.drop_last().contains('.') {
                let k = choose|k: int| 0 <= k < ext.drop_last().len() && ext.drop_last()[k] == '.';
                assert(ext[k] == '.');
            }
        }
        dot_behind_stem(stem, ext.drop_last());
    }
}

/// A file beside another has its name with the suffix behind it, in the same
/// directory.
pub proof fn files_beside_share_directory(dir: Seq<char>, name: Seq<char>, suffix: Seq<char>)
    requires
        plain_file(name),
        plain_dir(dir),
    ensures
        suffixed(dir + seq!['/'] + name, suffix) == dir + seq!['/'] + name + suffix,
{
    files_have_their_names(dir, name);
    files_have_their_directories(dir, name);
    assert(name[0] != '/') by {
        if name[0] == '/' {
            assert(name.contains('/'));
        }
    }
    paths_are_joined(dir, name + suffix);
    assert((name + suffix)[0] == name[0]);
    assert(dir + seq!['/'] + (name + suffix) =~= dir + seq!['/'] + name + suffix);
}

/// A slash at the end of a path changes neither its name nor its directory.
pub proof fn last_slash_does_not_count(path: Seq<char>)
    requires
        path.len() > 0,
    ensures
        parent_path(path.push('/')) == parent_path(path),
        file_name_of(path.push('/')) == file_name_of(path),
{
    let longer = path.push('/');
    let start = body_start(longer);
    assert(longer.take(longer.len() - 1) =~= path);
    assert(longer.last() == '/');
    assert(longer.skip(longer.len() as int).len() == 0);
    assert(last_start(longer, start) == longer.len());
    assert(without_last(longer, start) == path);
    assert(body_start(path) == start) by {
        if path.len() > 1 {
            assert(longer[1] == path[1]);
        }
    }
    assert(trimmed_path(longer, start) == trimmed_path(path, start));
}

/// A root lies in no directory, and neither does nothing; the current directory lies in
/// itself.
pub proof fn roots_have_no_directory()
    ensures
        parent_path(Seq::empty()) is None,
        parent_path(seq!['/']) is None,
        parent_path(seq!['.']) == Some(Seq::<char>::empty()),
{
    let root = seq!['/'];
    assert(body_start(root) == 1);
    assert(trimmed_path(root, 1) == root);
    let here = seq!['.'];
    assert(body_start(here) == 1);
    assert(trimmed_path(here, 1) == here);
    let nothing = Seq::<char>::empty();
    assert(trimmed_path(nothing, 0) == nothing);
}

/// What leads out of a directory names no file, and neither does a root.
pub proof fn dots_name_no_file()
    ensures
        file_name_of(seq!['.', '.']) is None,
        file_name_of(seq!['/']) is None,
        file_name_of(seq!['.']) is None,
        file_name_of(Seq::empty()) is None,
{
    reveal_with_fuel(last_start, 4);
    let up = seq!['.', '.'];
    assert(body_start(up) == 0);
    assert(up.drop_last() =~= seq!['.']);
    assert(seq!['.'].drop_last() =~= Seq::<char>::empty());
    assert(last_start(up, 0) == 0);
    assert(up.skip(0) =~= up);
    assert(trimmed_path(up, 0) == up);
    let root = seq!['/'];
    assert(body_start(root) == 1);
    assert(trimmed_path(root, 1) == root);
    let here = seq!['.'];
    assert(body_start(here) == 1);
    assert(trimmed_path(here, 1) == here);
    assert(trimmed_path(Seq::<char>::empty(), 0) == Seq::<char>::empty());
}

/// A file at the root lies in the root, and a lone name in the directory that is current.
pub proof fn lone_files_have_directories(name: Seq<char>)
    requires
        plain_file(name),
    ensures
        parent_path(seq!['/'] + name) == Some(seq!['/']),
        parent_path(name) == Some(Seq::<char>::empty()),
{
    let p = Seq::<char>::empty() + seq!['/'] + name;
    assert(p =~= seq!['/'] + name);
    assert(body_start(p) == 1);
    last_start_behind(Seq::empty(), name, 1);
    assert(p.skip(1) =~= name);
    assert(trimmed_path(p, 1) == p);
    assert(p.take(1) =~= seq!['/']);
    assert(without_last(p, 1) == seq!['/']);
    assert(trimmed_path(seq!['/'], 1) == seq!['/']);
    assert(body_start(name) == 0) by {
        if name[0] == '/' {
            assert(name.contains('/'));
        }
        if name[0] == '.' {
            if name.len() == 1 {
                assert(name =~= seq!['.']);
            } else if name[1] == '/' {
                assert(name.contains('/'));
            }
        }
    }
    last_start_alone(name);
    assert(name.skip(0) =~= name);
    assert(trimmed_path(name, 0) == name);
    assert(name.take(0) =~= Seq::<char>::empty());
    assert(trimmed_path(Seq::<char>::empty(), 0) == Seq::<char>::empty());
}

} // verus!
