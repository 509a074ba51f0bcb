//! File system paths as texts.

use crate::index::schedule::stable_server_hash;
use crate::text::{push_text, same_text};
use std::path::Path;
use vstd::prelude::*;

verus! {

pub open spec fn is_separator(c: char) -> bool {
    c == '/' || c == '\\'
}

/// A single path component that no platform reads as a root, a drive, a
/// separator or a step to another directory.
pub open spec fn plain_component(name: Seq<char>) -> bool {
    &&& name.len() > 0
    &&& name != seq!['.']
    &&& name != seq!['.', '.']
    &&& forall|i: int|
        0 <= i < name.len() ==> {
            let c = #[trigger] name[i];
            !is_separator(c) && c != ':'
        }
}

/// Whether a path starts neither at a root nor at a drive on any platform.
pub open spec fn is_relative(path: Seq<char>) -> bool {
    &&& path.len() > 0 ==> !is_separator(path[0])
    &&& path.len() > 1 ==> path[1] != ':'
}

/// Whether a path starts with the mark that tells Windows to take it as it is.
pub open spec fn is_verbatim(path: Seq<char>) -> bool {
    crate::text::has_prefix(path, seq!['\\', '\\', '?', '\\'])
}

/// Whether a step of a verbatim path is over at a place.
pub open spec fn step_ends(path: Seq<char>, at: int) -> bool {
    at >= path.len() || path[at] == '\\'
}

/// Whether a step that begins at a place of a verbatim path is empty or is one
/// or two dots.
pub open spec fn leads_nowhere(path: Seq<char>, at: int) -> bool {
    ||| path[at] == '\\'
    ||| path[at] == '.' && step_ends(path, at + 1)
    ||| path[at] == '.' && path[at + 1] == '.' && step_ends(path, at + 2)
}

/// Whether there is nothing to normalize in a verbatim path.
pub open spec fn is_settled(path: Seq<char>) -> bool {
    &&& path.len() > 4
    &&& forall|i: int| 0 <= i < path.len() ==> #[trigger] path[i] != '/'
    &&& forall|i: int|
        3 <= i < path.len() - 1 && #[trigger] path[i] == '\\' ==> !leads_nowhere(path, i + 1)
}

/// Whether a path is verbatim and starts at the root of a drive.
pub open spec fn is_verbatim_drive(path: Seq<char>) -> bool {
    &&& is_verbatim(path)
    &&& path.len() > 6
    &&& 'a' <= path[4] <= 'z' || 'A' <= path[4] <= 'Z'
    &&& path[5] == ':'
    &&& path[6] == '\\'
}

/// Whether a path starts as shares, devices and verbatim paths do on Windows.
pub open spec fn starts_doubly(path: Seq<char>) -> bool {
    path.len() > 1 && is_separator(path[0]) && is_separator(path[1])
}

/// How many separators there are in a path. A slash is none in a verbatim one.
pub open spec fn separators(path: Seq<char>, verbatim: bool) -> nat
    decreases path.len(),
{
    if path.len() == 0 {
        0
    } else {
        separators(path.drop_last(), verbatim) + if path.last() == '\\' || !verbatim
            && path.last() == '/' {
            1nat
        } else {
            0
        }
    }
}

/// Whether Windows may read all of a path as the name of a share or a device,
/// as in `\\server\share` or `\\?\UNC\server\share`: it has too few steps to be
/// sure that the last one is a file.
pub open spec fn may_name_share(path: Seq<char>) -> bool {
    &&& starts_doubly(path)
    &&& !is_verbatim_drive(path)
    &&& separators(path, is_verbatim(path)) < if is_verbatim(path) {
        6nat
    } else {
        4
    }
}

/// What stands in a path after everything that ends a directory or a drive on
/// some platform.
pub open spec fn last_segment(path: Seq<char>) -> Seq<char>
    decreases path.len(),
{
    if path.len() == 0 || is_separator(path.last()) || path.last() == ':' {
        Seq::empty()
    } else {
        last_segment(path.drop_last()).push(path.last())
    }
}

/// Whether the last segment of a path ends the name of a file on every
/// platform.
pub open spec fn names_file(path: Seq<char>) -> bool {
    plain_component(last_segment(path)) && !may_name_share(path)
}

/// What ends with no mark of a directory or a drive ends the last segment.
proof fn last_segment_of_sum(front: Seq<char>, tail: Seq<char>)
    requires
        forall|i: int|
            0 <= i < tail.len() ==> {
                let c = #[trigger] tail[i];
                !is_separator(c) && c != ':'
            },
    ensures
        last_segment(front + tail) == last_segment(front) + tail,
    decreases tail.len(),
{
    let path = front + tail;
    if tail.len() == 0 {
        assert(path =~= front);
    } else {
        last_segment_of_sum(front, tail.drop_last());
        assert(path.drop_last() =~= front + tail.drop_last());
        assert(path.last() == tail[tail.len() - 1]);
    }
    assert(last_segment(path) =~= last_segment(front) + tail);
}

proof fn last_segment_is_unbroken(path: Seq<char>)
    ensures
        forall|i: int|
            0 <= i < last_segment(path).len() ==> {
                let c = #[trigger] last_segment(path)[i];
                !is_separator(c) && c != ':'
            },
    decreases path.len(),
{
    if path.len() > 0 && !is_separator(path.last()) && path.last() != ':' {
        let before = last_segment(path.drop_last());
        last_segment_is_unbroken(path.drop_last());
        assert forall|i: int| 0 <= i < last_segment(path).len() implies {
            let c = #[trigger] last_segment(path)[i];
            !is_separator(c) && c != ':'
        } by {
            if i < before.len() {
                assert(last_segment(path)[i] == before[i]);
            }
        }
    }
}

/// A path ends with its last segment.
proof fn last_segment_is_last(path: Seq<char>)
    ensures
        crate::text::has_suffix(path, last_segment(path)),
    decreases path.len(),
{
    let segment = last_segment(path);
    if path.len() > 0 && !is_separator(path.last()) && path.last() != ':' {
        let before = last_segment(path.drop_last());
        last_segment_is_last(path.drop_last());
        let front = path.drop_last().subrange(
            path.len() - 1 - before.len(),
            path.len() - 1,
        );
        assert(front == before);
        assert forall|i: int| 0 <= i < segment.len() implies path[path.len() - segment.len() + i]
            == segment[i] by {
            if i < before.len() {
                assert(front[i] == before[i]);
            }
        }
    }
    assert(path.subrange(path.len() - segment.len(), path.len() as int) =~= segment);
}

/// A plain name is all of its last segment.
proof fn last_segment_of_plain(name: Seq<char>)
    requires
        plain_component(name),
    ensures
        last_segment(name) == name,
{
    last_segment_of_sum(Seq::empty(), name);
    assert(Seq::<char>::empty() + name =~= name);
    assert(last_segment(Seq::<char>::empty()) + name =~= name);
}

/// Whether a path is made of a base and a child. There is a separator between
/// them where the base neither is empty nor ends with one; a backslash is one
/// on some platforms only, and a drive needs none.
pub open spec fn joins(base: Seq<char>, child: Seq<char>, path: Seq<char>) -> bool {
    if base.len() == 0 || base.last() == '/' {
        path == base + child
    } else {
        ||| path == base + seq!['/'] + child
        ||| path == base + seq!['\\'] + child
        ||| (base.last() == '\\' || base.last() == ':') && path == base + child
    }
}

/// Whether a path is a child's in a directory: it ends with a child that is a
/// plain name, and is made of the two where the directory is not verbatim or
/// nothing in it can be normalized.
pub open spec fn lies_in(directory: Seq<char>, child: Seq<char>, path: Seq<char>) -> bool {
    &&& plain_component(child) ==> crate::text::has_suffix(path, child)
    &&& !is_verbatim(directory) || is_settled(directory) && plain_component(child) ==> joins(
        directory,
        child,
        path,
    )
}

/// Whether a path is a child's as seen from a base. A child that starts at a
/// root or a drive may stand for itself; a root may leave the start of the
/// base, which holds the drive or the share.
pub open spec fn adjoins(base: Seq<char>, child: Seq<char>, path: Seq<char>) -> bool {
    if is_relative(child) {
        lies_in(base, child, path)
    } else {
        !is_verbatim(base) || is_verbatim(child) ==> {
            ||| path == child
            ||| joins(base, child, path)
            ||| is_separator(child[0]) && exists|start: Seq<char>| #[trigger]
                crate::text::has_prefix(base, start) && path == start + child
        }
    }
}

/// Whether a directory can be told by the separator behind it: it ends with no
/// separator, no drive and no step that stays in place.
pub open spec fn is_apart(directory: Seq<char>) -> bool {
    &&& directory.len() > 0
    &&& !is_separator(directory.last()) && directory.last() != ':'
    &&& directory.last() == '.' && directory.len() > 1 ==> !is_separator(
        directory[directory.len() - 2],
    ) && directory[directory.len() - 2] != ':'
}

/// A path seen from a base that is not verbatim ends with the child.
proof fn adjoined_ends(base: Seq<char>, child: Seq<char>, path: Seq<char>)
    requires
        adjoins(base, child, path),
        !is_verbatim(base),
    ensures
        crate::text::has_suffix(path, child),
{
    assert(path.subrange(path.len() - child.len(), path.len() as int) =~= child);
}

/// Whether a path is a directory, a slash and a plain name, and every platform
/// takes it apart in this way.
pub open spec fn splits(path: Seq<char>, directory: Seq<char>, name: Seq<char>) -> bool {
    &&& plain_component(name)
    &&& {
        ||| directory == seq!['/'] && path == directory + name
        ||| is_apart(directory) && path == directory + seq!['/'] + name && !starts_doubly(
            directory,
        )
    }
}

/// Whether a path without a slash is a directory, a backslash and a plain name.
/// Where a backslash is no separator, all of the path is one name.
pub open spec fn splits_at_backslash(
    path: Seq<char>,
    directory: Seq<char>,
    name: Seq<char>,
) -> bool {
    &&& plain_component(name)
    &&& path == directory + seq!['\\'] + name
    &&& forall|i: int| 0 <= i < path.len() ==> #[trigger] path[i] != '/'
    &&& directory.len() == 0 || directory.last() == ':' || is_apart(directory)
    &&& !may_name_share(path)
}

/// Whether a text is the directory of a path that was taken apart at a
/// backslash. It is empty where a backslash is no separator; the root of a
/// drive or a share keeps it.
pub open spec fn is_directory_before(directory: Seq<char>, text: Seq<char>) -> bool {
    ||| text.len() == 0
    ||| text == directory
    ||| (directory.len() == 0 || directory.last() == ':' || starts_doubly(directory)) && text
        == directory + seq!['\\']
}

/// Whether a path is a child's in a directory before a backslash.
pub open spec fn stands_in(directory: Seq<char>, child: Seq<char>, path: Seq<char>) -> bool {
    exists|text: Seq<char>| #[trigger]
        is_directory_before(directory, text) && adjoins(text, child, path)
}

/// `Path::join` appends a relative child to the base, after a separator where
/// one is missing. An absolute child, or one with a drive, replaces the base; a
/// root without a drive keeps the drive or share of the base. The last segment
/// of the child stays the last. Left unsaid is which separator is added, which
/// children are absolute, and how Windows normalizes what is joined to a
/// verbatim base with steps to be removed.
#[verifier::external_body]
pub(crate) fn join_path(base: &str, child: &str) -> (path: String)
    ensures
        adjoins(base@, child@, path@),
        plain_component(last_segment(child@)) ==> crate::text::has_suffix(
            path@,
            last_segment(child@),
        ),
{
    Path::new(base).join(child).to_string_lossy().into_owned()
}

/// `Path::parent`: the path without its final component, so a shorter text
/// with which the path begins. The empty path and the root have none, and that
/// of a single component is empty. Whether a backslash separates components
/// depends on the platform and is left unsaid.
#[verifier::external_body]
pub(crate) fn parent_path(path: &str) -> (parent: Option<String>)
    ensures
        path@.len() == 0 || path@ == seq!['/'] ==> parent is None,
        plain_component(path@) ==> parent is Some && parent->0@.len() == 0,
        forall|directory: Seq<char>, name: Seq<char>| #[trigger]
            splits(path@, directory, name) ==> parent is Some && parent->0@ == directory,
        forall|directory: Seq<char>, name: Seq<char>| #[trigger]
            splits_at_backslash(path@, directory, name) ==> parent is Some && is_directory_before(
                directory,
                parent->0@,
            ),
        names_file(path@) ==> parent is Some,
        parent matches Some(p) ==> p@.len() < path@.len() && crate::text::has_prefix(path@, p@),
{
    Path::new(path).parent().map(|parent| parent.to_string_lossy().into_owned())
}

/// `Path::file_name`: the final component of the path, so a text that occurs
/// in it and is not empty. The empty path and the root have none. The last
/// segment of the path, where it is a plain name, ends the component. Whether a
/// backslash separates components depends on the platform and is left unsaid.
#[verifier::external_body]
pub(crate) fn file_name(path: &str) -> (name: Option<String>)
    ensures
        path@.len() == 0 || path@ == seq!['/'] ==> name is None,
        plain_component(path@) ==> name is Some && name->0@ == path@,
        forall|directory: Seq<char>, last: Seq<char>| #[trigger]
            splits(path@, directory, last) ==> name is Some && name->0@ == last,
        forall|directory: Seq<char>, last: Seq<char>| #[trigger]
            splits_at_backslash(path@, directory, last) ==> name is Some && (name->0@ == last
                || name->0@ == path@),
        names_file(path@) ==> name is Some,
        name matches Some(n) ==> plain_component(last_segment(path@)) ==> crate::text::has_suffix(
            n@,
            last_segment(path@),
        ),
        name matches Some(n) ==> n@.len() > 0 && crate::text::occurs_in(n@, path@),
{
    Path::new(path).file_name().map(|name| name.to_string_lossy().into_owned())
}

/// Whether a path is a name's in a directory with which another path begins.
pub open spec fn renames(path: Seq<char>, name: Seq<char>, renamed: Seq<char>) -> bool {
    exists|front: Seq<char>| #[trigger]
        crate::text::has_prefix(path, front) && adjoins(front, name, renamed)
}

/// `Path::with_file_name`: the name joined to the path without its final
/// component, or to all of it where it has none. Left unsaid is whether a
/// backslash separates components, and what is left unsaid of joining.
#[verifier::external_body]
pub(crate) fn with_file_name(path: &str, name: &str) -> (renamed: String)
    ensures
        renames(path@, name@, renamed@),
        plain_component(last_segment(name@)) ==> crate::text::has_suffix(
            renamed@,
            last_segment(name@),
        ),
        plain_component(name@) && plain_component(path@) ==> renamed@ == name@,
        plain_component(name@) && path@ == seq!['/'] ==> renamed@ == path@ + name@,
        forall|directory: Seq<char>, last: Seq<char>| #[trigger]
            splits(path@, directory, last) && plain_component(name@) ==> joins(
                directory,
                name@,
                renamed@,
            ),
        forall|directory: Seq<char>, last: Seq<char>| #[trigger]
            splits_at_backslash(path@, directory, last) ==> stands_in(directory, name@, renamed@),
{
    Path::new(path).with_file_name(name).to_string_lossy().into_owned()
}

/// What stands before the last dot of a text.
pub open spec fn before_last_dot(text: Seq<char>) -> Option<Seq<char>>
    decreases text.len(),
{
    if text.len() == 0 {
        None
    } else if text.last() == '.' {
        Some(text.drop_last())
    } else {
        before_last_dot(text.drop_last())
    }
}

/// A file name without its extension. A dot at its start marks none.
pub open spec fn stem(name: Seq<char>) -> Seq<char> {
    match before_last_dot(name) {
        Some(front) => if front.len() > 0 {
            front
        } else {
            name
        },
        None => name,
    }
}

/// Whether the last dot of a path follows another one.
pub open spec fn ends_dots_twice(path: Seq<char>) -> bool {
    before_last_dot(path) matches Some(front) && front.len() > 0 && front.last() == '.'
}

/// Whether a path takes a new extension on every platform: it names a file
/// whose stem is not a single dot.
pub open spec fn takes_extension(path: Seq<char>) -> bool {
    let segment = last_segment(path);
    &&& names_file(path)
    &&& stem(segment) != seq!['.']
    &&& stem(segment) == segment ==> !ends_dots_twice(path)
}

/// Whether a path is another one with a new extension: a path without a file
/// name as it is, any other up to the stem of its file name, with a dot and the
/// extension. A dot in the last segment, but not at its start, ends the stem;
/// where there is none, the file name may begin earlier and hold another dot.
/// Of a file name whose stem is a single dot it is left open whether the
/// extension is added.
pub open spec fn extends(path: Seq<char>, extension: Seq<char>, extended: Seq<char>) -> bool {
    let segment = last_segment(path);
    let ending = seq!['.'] + extension;
    &&& path.len() == 0 || path == seq!['/'] ==> extended == path
    &&& plain_component(path) && stem(path) != seq!['.'] ==> extended == stem(path) + ending
    &&& forall|directory: Seq<char>, name: Seq<char>| #[trigger]
        splits(path, directory, name) && stem(name) != seq!['.'] ==> extended == path.take(
            path.len() - name.len(),
        ) + stem(name) + ending
    &&& takes_extension(path) ==> {
        ||| before_last_dot(path) matches Some(front) && extended == front + ending
        ||| stem(segment) == segment && extended == path + ending
    }
    &&& {
        ||| extended == path
        ||| ends_dots_twice(path) && extended == before_last_dot(path)->0 + seq!['.']
        ||| exists|front: Seq<char>| #[trigger]
            crate::text::has_prefix(path, front) && extended == front + ending
    }
}

/// A path that takes a new extension ends with it.
pub proof fn extensions_end_paths(path: Seq<char>, extension: Seq<char>, extended: Seq<char>)
    requires
        extends(path, extension, extended),
        takes_extension(path),
    ensures
        crate::text::has_suffix(extended, seq!['.'] + extension),
{
    let ending = seq!['.'] + extension;
    let front = if stem(last_segment(path)) == last_segment(path) && extended == path + ending {
        path
    } else {
        before_last_dot(path)->0
    };
    assert(extended == front + ending);
    assert(extended.subrange(extended.len() - ending.len(), extended.len() as int) =~= ending);
}

/// `Path::with_extension`: a path without a file name stays as it is; of any
/// other, what stands after the file's stem gives way to a dot and the
/// extension. Left unsaid are whether the file name begins after a backslash,
/// and whether the extension is added to a stem that is a single dot. An
/// extension with a separator in it makes the function panic.
#[verifier::external_body]
pub(crate) fn with_extension(path: &str, extension: &str) -> (extended: String)
    requires
        plain_component(extension@),
    ensures
        extends(path@, extension@, extended@),
{
    Path::new(path).with_extension(extension).to_string_lossy().into_owned()
}

/// `Path::is_absolute`: a path that starts neither at a root nor at a drive is
/// not absolute. Otherwise the answer depends on the platform.
#[verifier::external_body]
pub(crate) fn is_absolute(path: &str) -> (absolute: bool)
    ensures
        is_relative(path@) ==> !absolute,
{
    Path::new(path).is_absolute()
}

pub open spec fn directory_text(parent: Option<String>) -> Seq<char> {
    match parent {
        Some(p) => p@,
        None => "."@,
    }
}

/// The directory of a file, `.` where the path names none.
pub fn directory_or_here(parent: Option<String>) -> (directory: String)
    ensures
        directory@ == directory_text(parent),
{
    match parent {
        Some(p) => p,
        None => ".".to_owned(),
    }
}

/// The directory whose free space counts for a file: its parent, or the
/// current directory where there is none.
pub fn storage_directory(parent: Option<String>) -> (directory: String)
    ensures
        directory@ == (match parent {
            Some(p) => if p@.len() == 0 {
                "."@
            } else {
                p@
            },
            None => "."@,
        }),
{
    match parent {
        Some(p) => {
            if same_text(p.as_str(), "") {
                proof {
                    reveal_strlit("");
                }
                ".".to_owned()
            } else {
                proof {
                    reveal_strlit("");
                    if p@.len() == 0 {
                        assert(p@ =~= ""@);
                    }
                }
                p
            }
        },
        None => ".".to_owned(),
    }
}

/// The SQLite companion of a database file.
pub fn sqlite_sidecar_path(path: &str, suffix: &str) -> (sidecar: String)
    ensures
        sidecar@ == path@ + suffix@,
{
    crate::text::joined(path, suffix)
}

pub open spec fn is_memory(path: Seq<char>) -> bool {
    path == ":memory:"@
}

/// Whether a database lives in memory only.
pub fn is_memory_database(path: &str) -> (memory: bool)
    ensures
        memory == is_memory(path@),
{
    same_text(path, ":memory:")
}

/// The path under which a database is shared.
#[derive(Debug, PartialEq, Eq)]
pub enum CoordinationPath {
    /// The path is taken as it is.
    Verbatim(String),
    /// The path still has to be made canonical.
    Canonicalize(String),
}

/// What a database is shared under, once it is known whether its path is
/// absolute and how it reads from the current directory.
pub fn coordination_path(
    path: &str,
    absolute: bool,
    from_current_dir: Option<String>,
) -> (key: CoordinationPath)
    ensures
        key is Verbatim <==> !absolute && is_memory(path@),
        key matches CoordinationPath::Verbatim(p) ==> p@ == path@,
        key matches CoordinationPath::Canonicalize(p) ==> p@ == (if absolute {
            path@
        } else {
            match from_current_dir {
                Some(joined) => joined@,
                None => path@,
            }
        }),
{
    if absolute {
        return CoordinationPath::Canonicalize(path.to_owned());
    }
    if is_memory_database(path) {
        return CoordinationPath::Verbatim(path.to_owned());
    }
    match from_current_dir {
        Some(joined) => CoordinationPath::Canonicalize(joined),
        None => CoordinationPath::Canonicalize(path.to_owned()),
    }
}

/// The key under which managers of one database share their coordination: a
/// relative path outside memory is read from the current directory, where one
/// is known; an absolute one stands for itself. Which of the paths that are not
/// relative are absolute depends on the platform.
pub fn database_coordination_key(path: &str, current_dir: Option<&str>) -> (key: CoordinationPath)
    ensures
        key is Verbatim <==> is_memory(path@),
        key matches CoordinationPath::Verbatim(p) ==> p@ == path@,
        key matches CoordinationPath::Canonicalize(p) ==> match current_dir {
            Some(directory) => {
                &&& adjoins(directory@, path@, p@)
                &&& !is_verbatim(directory@) ==> crate::text::has_suffix(p@, path@)
                &&& plain_component(last_segment(path@)) ==> crate::text::has_suffix(
                    p@,
                    last_segment(path@),
                )
            },
            None => p@ == path@,
        },
{
    let absolute = is_absolute(path);
    let from_current_dir = match current_dir {
        Some(directory) => Some(join_path(directory, path)),
        None => None,
    };
    proof {
        reveal_strlit(":memory:");
        last_segment_is_last(path@);
        if let Some(directory) = current_dir {
            if !is_verbatim(directory@) {
                adjoined_ends(directory@, path@, from_current_dir->0@);
            }
        }
        assert(path@.subrange(0, path@.len() as int) =~= path@);
    }
    coordination_path(path, absolute, from_current_dir)
}

/// Where the parent of a missing file is canonical, the file's canonical path.
pub fn canonical_in_parent(
    path: &str,
    file_name: Option<&str>,
    canonical_parent: Option<&str>,
) -> (canonical: String)
    ensures
        file_name is None || canonical_parent is None ==> canonical@ == path@,
        file_name matches Some(name) ==> canonical_parent matches Some(parent) ==> {
            &&& adjoins(parent@, name@, canonical@)
            &&& plain_component(name@) ==> crate::text::has_suffix(canonical@, name@)
            &&& plain_component(last_segment(name@)) ==> crate::text::has_suffix(
                canonical@,
                last_segment(name@),
            )
        },
{
    proof {
        if let Some(name) = file_name {
            if plain_component(name@) {
                last_segment_of_plain(name@);
            }
        }
    }
    match (file_name, canonical_parent) {
        (Some(name), Some(parent)) => join_path(parent, name),
        _ => path.to_owned(),
    }
}

/// What the names of the files that mark a running build of a server end with.
pub open spec fn build_file_ending(server: Seq<char>, ending: Seq<char>) -> Seq<char> {
    "."@ + crate::numerals::hex16(crate::index::schedule::text_hash(server)) + ending
}

/// The name of the file that marks a running build of a server.
pub open spec fn build_file_name(
    database: Option<Seq<char>>,
    server: Seq<char>,
    ending: Seq<char>,
) -> Seq<char> {
    (match database {
        Some(name) => name,
        None => "index.sqlite3"@,
    }) + build_file_ending(server, ending)
}

pub fn name_build_file(database: Option<&str>, server: &str, ending: &str) -> (name: String)
    ensures
        name@ == build_file_name(crate::text::optional_str_view(database), server@, ending@),
{
    let mut name = String::new();
    match database {
        Some(file) => push_text(&mut name, file),
        None => push_text(&mut name, "index.sqlite3"),
    }
    assert(name@ =~= (match database {
        Some(file) => file@,
        None => "index.sqlite3"@,
    }));
    push_text(&mut name, ".");
    let hash = stable_server_hash(server);
    push_text(&mut name, hash.as_str());
    push_text(&mut name, ending);
    assert(name@ =~= build_file_name(
        crate::text::optional_str_view(database),
        server@,
        ending@,
    ));
    name
}

/// Whether a path names the file of a server's build, next to the database:
/// whatever the platform, it ends with the last segment of the database's path,
/// the hash of the server and the ending. Where only backslashes separate that
/// path, both its directory and its file name are as some platform reads them.
pub open spec fn is_build_file(
    database_path: Seq<char>,
    server: Seq<char>,
    ending: Seq<char>,
    path: Seq<char>,
) -> bool {
    &&& crate::text::has_suffix(path, build_file_ending(server, ending))
    &&& names_file(database_path) ==> crate::text::has_suffix(
        path,
        last_segment(database_path) + build_file_ending(server, ending),
    )
    &&& plain_component(database_path) ==> path == build_file_name(
        Some(database_path),
        server,
        ending,
    )
    &&& forall|directory: Seq<char>, name: Seq<char>| #[trigger]
        splits(database_path, directory, name) ==> joins(
            directory,
            build_file_name(Some(name), server, ending),
            path,
        )
    &&& forall|directory: Seq<char>, name: Seq<char>| #[trigger]
        splits_at_backslash(database_path, directory, name) ==> stands_in(
            directory,
            build_file_name(Some(name), server, ending),
            path,
        ) || stands_in(directory, build_file_name(Some(database_path), server, ending), path)
    &&& database_path == seq!['/'] ==> path == database_path + build_file_name(
        None,
        server,
        ending,
    )
    &&& exists|file: Option<Seq<char>>| #[trigger]
        is_part(database_path, file) && renames(
            database_path,
            build_file_name(file, server, ending),
            path,
        )
}

/// Whether a file name, if there is one, is part of a path.
pub open spec fn is_part(path: Seq<char>, file: Option<Seq<char>>) -> bool {
    file matches Some(name) ==> name.len() > 0 && crate::text::occurs_in(name, path)
}

proof fn build_file_ending_is_plain(server: Seq<char>, ending: Seq<char>)
    requires
        plain_component(ending),
    ensures
        plain_component(build_file_ending(server, ending)),
        build_file_ending(server, ending).len() == 17 + ending.len(),
{
    reveal_strlit(".");
    let hash = crate::numerals::hex16(crate::index::schedule::text_hash(server));
    crate::numerals::hex_digits_are_plain(crate::index::schedule::text_hash(server));
    let name = build_file_ending(server, ending);
    assert(name.len() == 17 + ending.len());
    assert forall|i: int| 0 <= i < name.len() implies {
        let c = #[trigger] name[i];
        !is_separator(c) && c != ':'
    } by {
        if i == 0 {
            assert(name[i] == '.');
        } else if i < 17 {
            assert(name[i] == hash[i - 1]);
        } else {
            assert(name[i] == ending[i - 17]);
        }
    }
}

proof fn build_file_name_is_plain(
    database: Option<Seq<char>>,
    server: Seq<char>,
    ending: Seq<char>,
)
    requires
        database matches Some(name) ==> plain_component(name),
        plain_component(ending),
    ensures
        plain_component(build_file_name(database, server, ending)),
{
    reveal_strlit("index.sqlite3");
    let front = match database {
        Some(name) => name,
        None => "index.sqlite3"@,
    };
    let tail = build_file_ending(server, ending);
    build_file_ending_is_plain(server, ending);
    let name = build_file_name(database, server, ending);
    assert forall|i: int| 0 <= i < name.len() implies {
        let c = #[trigger] name[i];
        !is_separator(c) && c != ':'
    } by {
        if i < front.len() {
            assert(name[i] == front[i]);
        } else {
            assert(name[i] == tail[i - front.len()]);
        }
    }
}

/// The last segment of a build file's name is plain, and is that of the name
/// before the ending with the ending.
proof fn build_file_name_segment(front: Seq<char>, server: Seq<char>, ending: Seq<char>)
    requires
        plain_component(ending),
    ensures
        last_segment(front + build_file_ending(server, ending)) == last_segment(front)
            + build_file_ending(server, ending),
        plain_component(last_segment(front + build_file_ending(server, ending))),
{
    let tail = build_file_ending(server, ending);
    build_file_ending_is_plain(server, ending);
    last_segment_of_sum(front, tail);
    last_segment_is_unbroken(front + tail);
}

/// The lock file of a build, next to the database.
pub fn build_lock_path(database_path: &str, server: &str) -> (path: String)
    ensures
        is_build_file(database_path@, server@, ".build.lock"@, path@),
{
    proof {
        reveal_strlit(".build.lock");
        assert(".build.lock"@.len() == 11);
    }
    build_file_path(database_path, server, ".build.lock")
}

/// The file that names the owner of a build, next to the database.
pub fn build_owner_path(database_path: &str, server: &str) -> (path: String)
    ensures
        is_build_file(database_path@, server@, ".build.owner"@, path@),
{
    proof {
        reveal_strlit(".build.owner");
        assert(".build.owner"@.len() == 12);
    }
    build_file_path(database_path, server, ".build.owner")
}

fn build_file_path(database_path: &str, server: &str, ending: &str) -> (path: String)
    requires
        plain_component(ending@),
    ensures
        is_build_file(database_path@, server@, ending@, path@),
{
    let file = file_name(database_path);
    let name = match &file {
        Some(file) => name_build_file(Some(file.as_str()), server, ending),
        None => name_build_file(None, server, ending),
    };
    let path = with_file_name(database_path, name.as_str());
    proof {
        let tail = build_file_ending(server@, ending@);
        let front = match file {
            Some(file) => file@,
            None => "index.sqlite3"@,
        };
        let segment = last_segment(database_path@);
        build_file_name_segment(front, server@, ending@);
        crate::text::suffixes_chain(path@, last_segment(front), tail);
        if names_file(database_path@) {
            let before = front.take(front.len() - segment.len());
            assert(front =~= before + segment);
            last_segment_of_sum(before, segment);
            assert(last_segment(front) + tail =~= last_segment(before) + (segment + tail));
            crate::text::suffixes_chain(path@, last_segment(before), segment + tail);
        }
        build_file_name_is_plain(None, server@, ending@);
        if plain_component(database_path@) {
            build_file_name_is_plain(Some(database_path@), server@, ending@);
        }
        assert forall|directory: Seq<char>, last: Seq<char>| #[trigger]
            splits(database_path@, directory, last) implies joins(
            directory,
            build_file_name(Some(last), server@, ending@),
            path@,
        ) by {
            build_file_name_is_plain(Some(last), server@, ending@);
        }
        assert(is_part(database_path@, crate::text::optional_view(file)));
    }
    path
}

/// Servers with different hashes have different build files, whatever their
/// databases.
pub proof fn servers_share_no_build_file(
    one_database: Seq<char>,
    one_server: Seq<char>,
    one_path: Seq<char>,
    other_database: Seq<char>,
    other_server: Seq<char>,
    other_path: Seq<char>,
    ending: Seq<char>,
)
    requires
        is_build_file(one_database, one_server, ending, one_path),
        is_build_file(other_database, other_server, ending, other_path),
        crate::index::schedule::text_hash(one_server) != crate::index::schedule::text_hash(
            other_server,
        ),
    ensures
        one_path != other_path,
{
    let one = crate::index::schedule::text_hash(one_server);
    let other = crate::index::schedule::text_hash(other_server);
    let one_tail = build_file_ending(one_server, ending);
    let other_tail = build_file_ending(other_server, ending);
    reveal_strlit(".");
    if one_path == other_path {
        assert(one_tail.len() == other_tail.len());
        assert(one_tail == other_tail);
        assert(crate::numerals::hex16(one) =~= one_tail.subrange(1, 17));
        assert(crate::numerals::hex16(other) =~= other_tail.subrange(1, 17));
        crate::numerals::hex16_is_injective(one, other);
    }
}

/// The lock of a build is not the file that names an owner, whatever the
/// databases and the servers.
pub proof fn locks_are_no_owner_files(
    one_database: Seq<char>,
    one_server: Seq<char>,
    lock: Seq<char>,
    other_database: Seq<char>,
    other_server: Seq<char>,
    owner: Seq<char>,
)
    requires
        is_build_file(one_database, one_server, ".build.lock"@, lock),
        is_build_file(other_database, other_server, ".build.owner"@, owner),
    ensures
        lock != owner,
{
    reveal_strlit(".build.lock");
    reveal_strlit(".build.owner");
    reveal_strlit(".");
    let lock_tail = build_file_ending(one_server, ".build.lock"@);
    let owner_tail = build_file_ending(other_server, ".build.owner"@);
    assert(lock_tail.last() == 'k');
    assert(owner_tail.last() == 'r');
    assert(lock.subrange(lock.len() - lock_tail.len(), lock.len() as int).last() == lock.last());
    assert(owner.subrange(owner.len() - owner_tail.len(), owner.len() as int).last()
        == owner.last());
}

/// The name of a build file begins with that of the database, goes on with the
/// hash of the server behind a dot, and ends as such files do.
pub proof fn build_files_are_named_after_database_and_server(
    database: Seq<char>,
    server: Seq<char>,
    ending: Seq<char>,
)
    ensures
        ({
            let name = build_file_name(Some(database), server, ending);
            let hash = crate::numerals::hex16(crate::index::schedule::text_hash(server));
            &&& name == database + seq!['.'] + hash + ending
            &&& build_file_name(None, server, ending) == build_file_name(
                Some("index.sqlite3"@),
                server,
                ending,
            )
        }),
{
    reveal_strlit(".");
    let hash = crate::numerals::hex16(crate::index::schedule::text_hash(server));
    assert("."@ =~= seq!['.']);
    assert(build_file_name(Some(database), server, ending) =~= database + seq!['.'] + hash
        + ending);
}

/// The stem of a file name is what stands before its last dot; a name whose only
/// dot is its first character, or which has none, is its own stem.
pub proof fn stems_end_at_the_last_dot(front: Seq<char>, extension: Seq<char>)
    requires
        !extension.contains('.'),
    ensures
        front.len() > 0 ==> stem(front + seq!['.'] + extension) == front,
        stem(seq!['.'] + extension) == seq!['.'] + extension,
        stem(extension) == extension,
{
    last_dot_is_found(front, extension);
    last_dot_is_found(Seq::empty(), extension);
    assert(Seq::<char>::empty() + seq!['.'] + extension =~= seq!['.'] + extension);
    no_dot_is_found(extension);
}

proof fn last_dot_is_found(front: Seq<char>, extension: Seq<char>)
    requires
        !extension.contains('.'),
    ensures
        before_last_dot(front + seq!['.'] + extension) == Some(front),
    decreases extension.len(),
{
    let text = front + seq!['.'] + extension;
    if extension.len() > 0 {
        assert(extension.contains(extension[extension.len() - 1]));
        assert(text.last() == extension.last());
        assert(text.drop_last() =~= front + seq!['.'] + extension.drop_last());
        assert forall|i: int| 0 <= i < extension.drop_last().len() implies
            #[trigger] extension.drop_last()[i] != '.' by {
            assert(extension.contains(extension[i]));
        }
        last_dot_is_found(front, extension.drop_last());
    } else {
        assert(text.last() == '.');
        assert(text.drop_last() =~= front);
    }
}

proof fn no_dot_is_found(text: Seq<char>)
    requires
        !text.contains('.'),
    ensures
        before_last_dot(text) is None,
    decreases text.len(),
{
    if text.len() > 0 {
        assert(text.contains(text[text.len() - 1]));
        assert forall|i: int| 0 <= i < text.drop_last().len() implies
            #[trigger] text.drop_last()[i] != '.' by {
            assert(text.contains(text[i]));
        }
        no_dot_is_found(text.drop_last());
    }
}

/// The last segment of a path is what follows its last separator or colon.
pub proof fn segments_follow_the_last_separator(front: Seq<char>, mark: char, name: Seq<char>)
    requires
        mark == '/' || mark == '\\' || mark == ':',
        forall|i: int|
            0 <= i < name.len() ==> #[trigger] name[i] != '/' && name[i] != '\\' && name[i] != ':',
    ensures
        last_segment(front + seq![mark] + name) == name,
        last_segment(name) == name,
    decreases name.len(),
{
    let path = front + seq![mark] + name;
    if name.len() > 0 {
        let shorter = name.drop_last();
        assert forall|i: int| 0 <= i < shorter.len() implies #[trigger] shorter[i] != '/'
            && shorter[i] != '\\' && shorter[i] != ':' by {
            assert(name[i] != '/');
        }
        segments_follow_the_last_separator(front, mark, shorter);
        assert(path.last() == name[name.len() - 1]);
        assert(path.drop_last() =~= front + seq![mark] + shorter);
        assert(shorter.push(name.last()) =~= name);
    } else {
        assert(path.last() == mark);
        assert(name =~= Seq::empty());
    }
}

/// Without a parent the current directory counts.
pub proof fn the_current_directory_is_a_dot(parent: Option<String>)
    ensures
        parent is Some ==> directory_text(parent) == (parent->0)@,
        parent is None ==> directory_text(parent) == seq!['.'],
{
    reveal_strlit(".");
    assert("."@ =~= seq!['.']);
}

} // verus!
