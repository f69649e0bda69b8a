//! The laws of paths: which of them are absolute, the names that they are made of, and where a
//! name below a directory leads.
use crate::paths::{has_root, is_absolute_path, is_letter, joined_path, path_file_name, path_parts,
    prefix_of, walked, without_trailing, PathStyle, PrefixKind};
use crate::text::{last_index, lemma_first_index, lemma_first_index_unique, lemma_last_index,
    pieces};
use vstd::prelude::*;

verus! {

// ---------------------------------------------------------------------------
// Roots
// ---------------------------------------------------------------------------
/// On Unix a path is absolute if and only if it starts with a slash, and nothing stands in front
/// of the root.
pub proof fn unix_paths_start_with_a_slash(path: Seq<char>)
    ensures
        is_absolute_path(PathStyle::Unix, path) <==> path.len() > 0 && path[0] == '/',
        has_root(PathStyle::Unix, path) <==> path.len() > 0 && path[0] == '/',
        prefix_of(PathStyle::Unix, path) is None,
{
}

/// On Windows a path that starts with a drive is absolute if and only if a slash or a backslash
/// stands behind the drive.
pub proof fn drives_need_a_root(letter: char, rest: Seq<char>)
    requires
        is_letter(letter),
    ensures
        ({
            let path = seq![letter, ':'] + rest;
            let rooted = rest.len() > 0 && (rest[0] == '/' || rest[0] == '\\');
            &&& prefix_of(PathStyle::Windows, path) is Some
            &&& prefix_of(PathStyle::Windows, path)->0.kind == PrefixKind::Drive
            &&& is_absolute_path(PathStyle::Windows, path) <==> rooted
            &&& has_root(PathStyle::Windows, path) <==> rooted
        }),
{
    let path = seq![letter, ':'] + rest;
    assert(path[0] == letter && path[1] == ':');
    if rest.len() > 0 {
        assert(path[2] == rest[0]);
    }
}

/// On Windows a path without a drive, a server or a device is never absolute; it starts at the
/// root of the drive in use where it starts with a slash or a backslash.
pub proof fn paths_without_a_drive_are_not_absolute(path: Seq<char>)
    requires
        path.len() < 2 || path[1] != ':' && path[1] != '/' && path[1] != '\\',
    ensures
        prefix_of(PathStyle::Windows, path) is None,
        !is_absolute_path(PathStyle::Windows, path),
        has_root(PathStyle::Windows, path) <==> path.len() > 0 && (path[0] == '/' || path[0]
            == '\\'),
{
}

// ---------------------------------------------------------------------------
// Names below directories
// ---------------------------------------------------------------------------
/// On Windows a name is put below a directory of a drive with one backslash between them, where
/// the directory does not end in a slash or a backslash; behind a bare drive it stands at once.
pub proof fn windows_names_go_below(letter: char, rest: Seq<char>, name: Seq<char>)
    requires
        is_letter(letter),
        name.len() == 0 || name[0] != '/' && name[0] != '\\',
        name.len() < 2 || name[1] != ':',
    ensures
        ({
            let base = seq![letter, ':'] + rest;
            let joined = joined_path(PathStyle::Windows, base, name);
            &&& rest.len() == 0 ==> joined == base + name
            &&& rest.len() > 0 && (rest.last() == '/' || rest.last() == '\\') ==> joined == base
                + name
            &&& rest.len() > 0 && rest.last() != '/' && rest.last() != '\\' ==> joined == base
                + seq!['\\'] + name
        }),
{
    let base = seq![letter, ':'] + rest;
    assert(base[0] == letter && base[1] == ':');
    if rest.len() > 0 {
        assert(base.last() == rest.last());
    } else {
        assert(base =~= seq![letter, ':']);
        assert(base.last() == ':');
    }
}

/// On Windows a path that starts with a drive stands for itself, and one that starts at a root
/// stands below the drive of the directory.
pub proof fn windows_roots_are_kept(
    letter: char,
    rest: Seq<char>,
    other: char,
    behind: Seq<char>,
    name: Seq<char>,
)
    requires
        is_letter(letter),
        is_letter(other),
        name.len() > 0 && (name[0] == '/' || name[0] == '\\'),
        name.len() < 2 || name[1] != ':' && name[1] != '/' && name[1] != '\\',
    ensures
        joined_path(PathStyle::Windows, seq![letter, ':'] + rest, seq![other, ':'] + behind)
            == seq![other, ':'] + behind,
        joined_path(PathStyle::Windows, seq![letter, ':'] + rest, name) == seq![letter, ':']
            + name,
{
    let base = seq![letter, ':'] + rest;
    assert(base[0] == letter && base[1] == ':');
    let absolute = seq![other, ':'] + behind;
    assert(absolute[0] == other && absolute[1] == ':');
    assert(base.take(2) =~= seq![letter, ':']);
}

/// On a walk through a directory a dot stays, two dots leave the last name again, where there
/// is one, and every other name is entered.
pub proof fn walks_enter_and_leave(
    directory: Seq<Seq<char>>,
    names: Seq<Seq<char>>,
    name: Seq<char>,
    from: int,
)
    requires
        0 <= from <= names.len(),
    ensures
        ({
            let before = walked(directory, names, from);
            let after = walked(directory, names.push(name), from);
            &&& name == "."@ ==> after == before
            &&& name == ".."@ && before.len() > 0 && before.last() != "."@ && before.last()
                != ".."@ ==> after == before.drop_last()
            &&& name == ".."@ && (before.len() == 0 || before.last() == "."@ || before.last()
                == ".."@) ==> after == before
            &&& name != "."@ && name != ".."@ ==> after == before.push(name)
        }),
        walked(directory, Seq::empty(), 0) == directory,
    decreases names.len() - from,
{
    reveal_strlit(".");
    reveal_strlit("..");
    assert("."@.len() == 1 && ".."@.len() == 2);
    let all = names.push(name);
    if from < names.len() {
        assert(all[from] == names[from]);
        let next = if names[from] == "."@ {
            directory
        } else if names[from] == ".."@ {
            if directory.len() > 0 && directory.last() != "."@ && directory.last() != ".."@ {
                directory.drop_last()
            } else {
                directory
            }
        } else {
            directory.push(names[from])
        };
        walks_enter_and_leave(next, names, name, from + 1);
    } else {
        assert(all[from] == name);
        let next = if name == "."@ {
            directory
        } else if name == ".."@ {
            if directory.len() > 0 && directory.last() != "."@ && directory.last() != ".."@ {
                directory.drop_last()
            } else {
                directory
            }
        } else {
            directory.push(name)
        };
        assert(walked(next, all, from + 1) == next);
    }
}

// ---------------------------------------------------------------------------
// The names of a path
// ---------------------------------------------------------------------------
proof fn lemma_one_more_piece(s: Seq<char>, c: char, name: Seq<char>)
    requires
        !name.contains(c),
    ensures
        pieces(s + seq![c] + name, c) == pieces(s, c).push(name),
    decreases s.len(),
{
    let all = s + seq![c] + name;
    let i = crate::text::first_index(s, c);
    lemma_first_index(s, c);
    lemma_first_index(name, c);
    if i < s.len() {
        assert(all[i] == c);
        assert forall|k: int| 0 <= k < i implies all[k] != c by {
            assert(all[k] == s[k]);
        }
        lemma_first_index_unique(all, c, i);
        assert(all.take(i) =~= s.take(i));
        assert(all.skip(i + 1) =~= s.skip(i + 1) + seq![c] + name);
        lemma_one_more_piece(s.skip(i + 1), c, name);
        assert(pieces(all, c) =~= pieces(s, c).push(name));
    } else {
        assert(all[s.len() as int] == c);
        assert forall|k: int| 0 <= k < s.len() implies all[k] != c by {
            assert(all[k] == s[k]);
        }
        lemma_first_index_unique(all, c, s.len() as int);
        assert(all.take(s.len() as int) =~= s);
        assert(all.skip(s.len() as int + 1) =~= name);
        let k = crate::text::first_index(name, c);
        if k < name.len() {
            assert(name.contains(name[k]));
        }
        assert(pieces(name, c) =~= seq![name]);
        assert(pieces(all, c) =~= pieces(s, c).push(name));
    }
}

proof fn lemma_some_piece(s: Seq<char>, c: char)
    ensures
        pieces(s, c).len() > 0,
{
}

/// On Unix a path is made of the names between its slashes: one more name behind a slash is one
/// more part, except that an empty name and a dot are none.
pub proof fn unix_paths_are_made_of_names(path: Seq<char>, name: Seq<char>)
    requires
        !name.contains('/'),
    ensures
        ({
            let before = path_parts(PathStyle::Unix, path);
            let after = path_parts(PathStyle::Unix, path + seq!['/'] + name);
            &&& name.len() == 0 || name == "."@ ==> after == before
            &&& name.len() > 0 && name != "."@ ==> after == before.push(name)
        }),
        name.len() > 0 ==> path_parts(PathStyle::Unix, name) == seq![name],
        name.len() == 0 ==> path_parts(PathStyle::Unix, name).len() == 0,
{
    let all = path + seq!['/'] + name;
    assert(path.skip(0) =~= path);
    assert(all.skip(0) =~= all);
    assert(name.skip(0) =~= name);
    lemma_one_more_piece(path, '/', name);
    lemma_some_piece(path, '/');
    assert(pieces(path, '/').push(name).drop_last() =~= pieces(path, '/'));
    lemma_first_index(name, '/');
    let k = crate::text::first_index(name, '/');
    if k < name.len() {
        assert(name.contains(name[k]));
    }
    assert(pieces(name, '/') =~= seq![name]);
    let none = pieces(name, '/').drop_last();
    assert(none.len() == 0);
    assert(crate::paths::parts_between(none).len() == 0);
    assert(name.len() > 0 ==> crate::paths::parts_between(pieces(name, '/')) =~= seq![name]);
}

/// On Unix the last name of a path is the name of the file, whatever slashes stand behind it.
pub proof fn unix_files_have_the_last_name(path: Seq<char>, name: Seq<char>)
    requires
        !name.contains('/'),
        name.len() > 0,
        name != "."@,
    ensures
        path_file_name(PathStyle::Unix, path + seq!['/'] + name) == name,
        path_file_name(PathStyle::Unix, name) == name,
        path_file_name(PathStyle::Unix, path + seq!['/']) == path_file_name(PathStyle::Unix, path),
{
    reveal_strlit(".");
    let all = path + seq!['/'] + name;
    assert(all.skip(0) =~= all);
    assert(path.skip(0) =~= path);
    assert(name.skip(0) =~= name);
    assert(all.last() == name.last());
    assert(name.contains(name.last()));
    if name.len() > 1 {
        assert(name.contains(name[name.len() - 2]));
        assert(all[all.len() - 2] == name[name.len() - 2]);
    } else {
        assert(name.last() != '.') by {
            if name.last() == '.' {
                assert(name =~= "."@);
            }
        }
    }
    assert(without_trailing(all) == all);
    assert(without_trailing(name) == name);
    lemma_last_index(all, '/');
    lemma_last_index(name, '/');
    let i = last_index(all, '/');
    assert(all[path.len() as int] == '/');
    if i > path.len() {
        assert(all[i] == name[i - path.len() - 1]);
        assert(name.contains(all[i]));
    }
    assert(all.skip(path.len() as int + 1) =~= name);
    let j = last_index(name, '/');
    if j >= 0 {
        assert(name.contains(name[j]));
    }
    let slashed = path + seq!['/'];
    assert(slashed.skip(0) =~= slashed);
    assert(slashed.last() == '/');
    assert(slashed.drop_last() =~= path);
}

} // verus!
