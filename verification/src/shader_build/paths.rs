//! File names.

use crate::text::{optional_text, same_text};
use vstd::prelude::*;

verus! {

/// Whether every system reads the path in the same way: the only separator is `/`, and it starts
/// with no drive or server name.
pub open spec fn is_portable(path: Seq<char>) -> bool {
    &&& !path.contains('\\')
    &&& !path.contains(':')
    &&& !(path.len() >= 2 && path[0] == '/' && path[1] == '/')
}

/// The position after the last `/`.
pub open spec fn last_component_start(path: Seq<char>) -> int
    decreases path.len(),
{
    if path.len() == 0 || path.last() == '/' {
        path.len() as int
    } else {
        last_component_start(path.drop_last())
    }
}

/// What follows the last `/`.
pub open spec fn last_component(path: Seq<char>) -> Seq<char> {
    path.skip(last_component_start(path))
}

/// Whether a path ends in the name of a file or a directory: not in a separator, and in neither
/// `.` nor `..`.
pub open spec fn ends_in_name(path: Seq<char>) -> bool {
    &&& last_component(path).len() > 0
    &&& last_component(path) != "."@
    &&& last_component(path) != ".."@
}

/// The position of the last dot.
pub open spec fn last_dot(name: Seq<char>) -> Option<int>
    decreases name.len(),
{
    if name.len() == 0 {
        None
    } else if name.last() == '.' {
        Some(name.len() - 1)
    } else {
        last_dot(name.drop_last())
    }
}

/// The part of a file name before the final dot, or all of it where it has no dot but a leading
/// one.
pub open spec fn stem_of(name: Seq<char>) -> Seq<char> {
    match last_dot(name) {
        Some(dot) => if dot == 0 {
            name
        } else {
            name.take(dot)
        },
        None => name,
    }
}

/// The part of a file name after the final dot, where it has one but a leading one.
pub open spec fn extension_of(name: Seq<char>) -> Option<Seq<char>> {
    match last_dot(name) {
        Some(dot) => if dot == 0 {
            None
        } else {
            Some(name.skip(dot + 1))
        },
        None => None,
    }
}

/// The names along a portable path. Separators that follow each other count as one, and `.` is a
/// name only where the path starts with it.
pub open spec fn path_names(path: Seq<char>) -> Seq<Seq<char>>
    decreases path.len(),
{
    let start = last_component_start(path);
    let last = last_component(path);
    if 0 < start <= path.len() {
        let before = path_names(path.take(start - 1));
        if last.len() == 0 || last == "."@ {
            before
        } else {
            before.push(last)
        }
    } else if last.len() == 0 {
        Seq::empty()
    } else {
        seq![last]
    }
}

/// The components of a portable path: its names, after the root where the path starts there.
pub open spec fn path_components(path: Seq<char>) -> Seq<Seq<char>> {
    if path.len() > 0 && path[0] == '/' {
        seq!["/"@] + path_names(path)
    } else {
        path_names(path)
    }
}

/// Whether a portable path starts with all components of another.
pub open spec fn begins_with(path: Seq<char>, base: Seq<char>) -> bool {
    path_components(base).is_prefix_of(path_components(path))
}

/// The file name of a portable path: its last name, where that is neither `.` nor `..`.
pub open spec fn file_name_of(path: Seq<char>) -> Option<Seq<char>> {
    let names = path_names(path);
    if names.len() == 0 || names.last() == "."@ || names.last() == ".."@ {
        None
    } else {
        Some(names.last())
    }
}

/// The stem of a portable path's file name, if there is one.
pub open spec fn portable_stem(path: Seq<char>) -> Option<Seq<char>> {
    match file_name_of(path) {
        Some(name) => Some(stem_of(name)),
        None => None,
    }
}

/// The extension of a portable path's file name, if there is one.
pub open spec fn portable_extension(path: Seq<char>) -> Option<Seq<char>> {
    match file_name_of(path) {
        Some(name) => extension_of(name),
        None => None,
    }
}

/// What follows the last `/` of a path is its file name, where it is a name.
pub proof fn law_last_component_is_file_name(path: Seq<char>)
    requires
        ends_in_name(path),
    ensures
        file_name_of(path) == Some(last_component(path)),
{
}

/// The stem of a path's file name, if there is one, on one of the systems that paths are read on.
/// The systems are numbered.
pub uninterp spec fn stem_text(path: Seq<char>, system: nat) -> Option<Seq<char>>;

/// The extension of a path's file name, if there is one, on one of the systems.
pub uninterp spec fn extension_text(path: Seq<char>, system: nat) -> Option<Seq<char>>;

/// Whether a path starts with all components of another, on one of the systems.
pub uninterp spec fn path_starts_with(path: Seq<char>, base: Seq<char>, system: nat) -> bool;

/// Whether this is the path of a file in a directory on the system at hand.
pub uninterp spec fn joins_to(directory: Seq<char>, file: Seq<char>, path: Seq<char>) -> bool;

/// Whether some system finds this stem, and it is the portable one where the path is portable.
pub open spec fn is_stem(path: Seq<char>, stem: Option<Seq<char>>) -> bool {
    &&& exists|system: nat| #[trigger] stem_text(path, system) == stem
    &&& is_portable(path) ==> stem == portable_stem(path)
}

/// Whether some system finds this extension, and it is the portable one where the path is
/// portable.
pub open spec fn is_extension(path: Seq<char>, extension: Option<Seq<char>>) -> bool {
    &&& exists|system: nat| #[trigger] extension_text(path, system) == extension
    &&& is_portable(path) ==> extension == portable_extension(path)
}

/// Whether this is what some system says of a path starting with all components of another, and
/// what all say where both are portable.
pub open spec fn is_start_test(path: Seq<char>, base: Seq<char>, answer: bool) -> bool {
    &&& exists|system: nat| #[trigger] path_starts_with(path, base, system) == answer
    &&& is_portable(path) && is_portable(base) ==> answer == begins_with(path, base)
}

/// Whether a path begins with no server's name on any system.
pub open spec fn names_no_server(path: Seq<char>) -> bool {
    &&& !(path.len() >= 1 && path[0] == '\\')
    &&& !(path.len() >= 2 && path[0] == '/' && (path[1] == '/' || path[1] == '\\'))
}

/// Whether a name holds no separator and no drive on any system.
pub open spec fn is_file_name(name: Seq<char>) -> bool {
    !name.contains('/') && !name.contains('\\') && !name.contains(':')
}

/// The path of a file in a directory, where the two are separated as given unless the directory
/// is empty or ends in `/`.
pub open spec fn joined_with(
    directory: Seq<char>,
    separator: Seq<char>,
    file: Seq<char>,
) -> Seq<char> {
    if directory.len() == 0 || directory.last() == '/' {
        directory + file
    } else {
        directory + separator + file
    }
}

/// The portable path of a file in a directory.
pub open spec fn joined_path(directory: Seq<char>, file: Seq<char>) -> Seq<char> {
    joined_with(directory, "/"@, file)
}

/// What follows a separator is the last component, where it holds no further one.
proof fn lemma_last_component(before: Seq<char>, name: Seq<char>)
    requires
        !name.contains('/'),
        before.len() == 0 || before.last() == '/',
    ensures
        last_component_start(before + name) == before.len(),
    decreases name.len(),
{
    let path = before + name;
    if name.len() > 0 {
        assert(path.last() == name.last());
        assert(name[name.len() - 1] == name.last());
        let shorter = name.drop_last();
        assert(!shorter.contains('/')) by {
            if shorter.contains('/') {
                let i = choose|i: int| 0 <= i < shorter.len() && shorter[i] == '/';
                assert(name[i] == '/');
            }
        }
        lemma_last_component(before, shorter);
        assert(path.drop_last() =~= before + shorter);
    } else {
        assert(path =~= before);
    }
}

/// The path of a plain name in a directory starts with the directory.
pub proof fn law_file_below_its_directory(directory: Seq<char>, file: Seq<char>)
    requires
        is_file_name(file),
    ensures
        begins_with(joined_path(directory, file), directory),
{
    reveal_strlit("/");
    let path = joined_path(directory, file);
    if directory.len() == 0 {
        assert(path_components(directory) =~= Seq::empty());
    } else if directory.last() == '/' {
        lemma_last_component(directory, file);
        lemma_last_component(directory, Seq::empty());
        assert(directory + Seq::<char>::empty() =~= directory);
        assert(path.take(directory.len() - 1) =~= directory.take(directory.len() - 1));
        assert(path_names(directory) =~= path_names(directory.take(directory.len() - 1)));
        assert(path_names(directory).is_prefix_of(path_names(path)));
    } else {
        let before = directory + "/"@;
        lemma_last_component(before, file);
        assert(path =~= before + file);
        assert(path.take(directory.len() as int) =~= directory);
        assert(path_names(directory).is_prefix_of(path_names(path)));
    }
    if directory.len() > 0 {
        assert(path[0] == directory[0]);
    }
}

/// `camino::Utf8Path::file_stem`: the file name without its extension. The file name is the last
/// name along a path; the stem is all of it but for the final dot and what follows that, where
/// the dot is not the first character.
///
/// What comes of a path that is not portable depends on the system besides.
#[verifier::external_body]
pub(crate) fn file_stem(path: &str) -> (result: Option<String>)
    ensures
        exists|system: nat| #[trigger] stem_text(path@, system) == optional_text(result),
        is_portable(path@) ==> optional_text(result) == portable_stem(path@),
{
    camino::Utf8Path::new(path).file_stem().map(|stem| stem.to_owned())
}

/// `camino::Utf8Path::extension`: what follows the final dot of a path's file name, where there
/// is a dot that is not the first character.
///
/// What comes of a path that is not portable depends on the system besides.
#[verifier::external_body]
fn file_extension(path: &str) -> (result: Option<String>)
    ensures
        exists|system: nat| #[trigger] extension_text(path@, system) == optional_text(result),
        is_portable(path@) ==> optional_text(result) == portable_extension(path@),
{
    camino::Utf8Path::new(path).extension().map(|extension| extension.to_owned())
}

/// `camino::Utf8Path::join`: the path of a file in a directory. Between a portable directory and a
/// plain name stands the system's separator, which is `/` or a backslash, unless the directory
/// is empty or ends in `/`.
///
/// Other directories and names, of which an absolute one takes the directory's place, are left
/// open.
#[verifier::external_body]
pub(crate) fn join_file(directory: &str, file: &str) -> (result: String)
    ensures
        joins_to(directory@, file@, result@),
        is_portable(directory@) && is_file_name(file@) ==> result@ == joined_path(
            directory@,
            file@,
        ) || result@ == joined_with(directory@, "\\"@, file@),
{
    camino::Utf8Path::new(directory).join(file).into_string()
}

/// `camino::Utf8Path::starts_with`: whether a path starts with all components of another. Where
/// the path is that of a plain name in a portable directory, its components are the directory's
/// and the name, whatever the separator; and the path of a plain name in any directory starts
/// with the directory.
///
/// What comes of other paths that are not portable depends on the system besides. Server names,
/// which may take up several components, are left out of the last claim.
#[verifier::external_body]
pub(crate) fn starts_with(path: &str, base: &str) -> (result: bool)
    ensures
        exists|system: nat| #[trigger] path_starts_with(path@, base@, system) == result,
        is_portable(path@) && is_portable(base@) ==> result == begins_with(path@, base@),
        forall|directory: Seq<char>, file: Seq<char>| #[trigger]
            joins_to(directory, file, path@) && is_portable(directory) && is_file_name(file)
                && is_portable(base@) ==> result == begins_with(
                joined_path(directory, file),
                base@,
            ),
        forall|file: Seq<char>| #[trigger]
            joins_to(base@, file, path@) && is_file_name(file) && names_no_server(base@) ==> result,
{
    camino::Utf8Path::new(path).starts_with(base)
}

/// Whether a path's file name has the given extension.
pub fn has_extension(path: &str, extension: &str) -> (result: bool)
    ensures
        exists|found: Option<Seq<char>>|
            #[trigger] is_extension(path@, found) && result == (found == Some(extension@)),
        is_portable(path@) ==> result == (portable_extension(path@) == Some(extension@)),
        is_portable(path@) && ends_in_name(path@) ==> result == (extension_of(
            last_component(path@),
        ) == Some(extension@)),
{
    let found = file_extension(path);
    proof {
        assert(is_extension(path@, optional_text(found)));
        if ends_in_name(path@) {
            law_last_component_is_file_name(path@);
        }
    }
    match &found {
        Some(text) => same_text(text.as_str(), extension),
        None => false,
    }
}

/// A file name is its stem and its extension with a dot between them, where it has an extension,
/// and its stem alone otherwise. The extension holds no dot, and the stem is not empty.
pub proof fn law_stem_and_extension(name: Seq<char>)
    requires
        name.len() > 0,
    ensures
        stem_of(name).len() > 0,
        match extension_of(name) {
            Some(extension) => name == stem_of(name) + seq!['.'] + extension
                && !extension.contains('.'),
            None => stem_of(name) == name && forall|i: int|
                0 < i < name.len() ==> #[trigger] name[i] != '.',
        },
{
    lemma_last_dot(name);
    if let Some(dot) = last_dot(name) {
        if dot > 0 {
            assert(name =~= name.take(dot) + seq!['.'] + name.skip(dot + 1));
            let extension = name.skip(dot + 1);
            if extension.contains('.') {
                let i = choose|i: int| 0 <= i < extension.len() && extension[i] == '.';
                assert(name[dot + 1 + i] == '.');
            }
        }
    }
}

/// The last dot is a dot, and none follows it.
proof fn lemma_last_dot(name: Seq<char>)
    ensures
        match last_dot(name) {
            Some(dot) => 0 <= dot < name.len() && name[dot] == '.' && forall|i: int|
                dot < i < name.len() ==> #[trigger] name[i] != '.',
            None => forall|i: int| 0 <= i < name.len() ==> #[trigger] name[i] != '.',
        },
    decreases name.len(),
{
    if name.len() > 0 && name.last() != '.' {
        let shorter = name.drop_last();
        lemma_last_dot(shorter);
        assert forall|i: int| 0 <= i < name.len() - 1 implies #[trigger] name[i] == shorter[i] by {}
    }
}

/// What follows the last separator of a path holds none, and is the end of the path.
pub proof fn law_last_component(path: Seq<char>)
    ensures
        ({
            let start = last_component_start(path);
            &&& 0 <= start <= path.len()
            &&& start > 0 ==> path[start - 1] == '/'
            &&& path == path.take(start) + last_component(path)
            &&& forall|i: int|
                0 <= i < last_component(path).len() ==> #[trigger] last_component(path)[i] != '/'
        }),
{
    lemma_component_start(path);
    let start = last_component_start(path);
    assert(path =~= path.take(start) + path.skip(start));
    assert forall|i: int| 0 <= i < last_component(path).len() implies #[trigger] last_component(
        path,
    )[i] != '/' by {
        assert(path[start + i] != '/');
    }
}

/// No separator follows the position after the last one.
proof fn lemma_component_start(path: Seq<char>)
    ensures
        0 <= last_component_start(path) <= path.len(),
        last_component_start(path) > 0 ==> path[last_component_start(path) - 1] == '/',
        forall|i: int| last_component_start(path) <= i < path.len() ==> #[trigger] path[i] != '/',
    decreases path.len(),
{
    if path.len() > 0 && path.last() != '/' {
        let shorter = path.drop_last();
        lemma_component_start(shorter);
        assert forall|i: int| last_component_start(path) <= i < path.len() implies #[trigger] path[i]
            != '/' by {
            if i < shorter.len() {
                assert(shorter[i] == path[i]);
            }
        }
    }
}

} // verus!
