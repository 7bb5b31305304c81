//! What holds of file names and of the documents that they belong to.

use vstd::prelude::*;
use vstd::utf8::{decode_utf8, valid_utf8};

use crate::uri::{
    bytes_view, c_document, c_file_name, chosen_file_name, extension_start, file_extension,
    last_component, last_part_start, path_file_name, segments_view, uri_file_name, url_file_path,
    url_path_segments,
};

verus! {

// ---------------------------------------------------------------------------
// Kinds of files
// ---------------------------------------------------------------------------

/// A name with a dot has what stands behind its last dot for an extension, if
/// anything stands before that dot; and it is that of a C file exactly where the
/// extension is the letter `c` or `h`, small or capital.
pub proof fn c_files_are_told_by_their_extension(stem: Seq<char>, extension: Seq<char>)
    requires
        !extension.contains('.'),
    ensures
        c_file_name(stem + seq!['.'] + extension) <==> stem.len() > 0 && (extension == seq!['c']
            || extension == seq!['C'] || extension == seq!['h'] || extension == seq!['H']),
        stem.len() > 0 && extension.len() > 0 ==> file_extension(stem + seq!['.'] + extension)
            == Some(extension),
        stem.len() == 0 ==> file_extension(stem + seq!['.'] + extension) is None,
{
    let name = stem + seq!['.'] + extension;
    assert forall|i: int| 0 <= i < extension.len() implies #[trigger] extension[i] != '.' by {
        assert(extension.contains(extension[i]));
    }
    lemma_extension_start(stem + seq!['.'], extension);
    assert(name.skip(stem.len() as int + 1) =~= extension);
    if extension.len() == 1 {
        assert(extension =~= seq![extension[0]]);
    }
    if extension.len() > 0 && stem.len() == 1 {
        assert(name[1 + extension.len() as int] == extension[extension.len() - 1]);
        assert(name.len() > 2);
    }
}

/// A name without a dot is not that of a C file.
pub proof fn names_without_dots_are_no_c_files(name: Seq<char>)
    requires
        !name.contains('.'),
    ensures
        !c_file_name(name),
        file_extension(name) is None,
{
    assert forall|i: int| 0 <= i < name.len() implies #[trigger] name[i] != '.' by {
        assert(name.contains(name[i]));
    }
    lemma_extension_start(Seq::empty(), name);
    assert(Seq::<char>::empty() + name =~= name);
}

proof fn lemma_extension_start(head: Seq<char>, extension: Seq<char>)
    requires
        head.len() == 0 || head.last() == '.',
        forall|i: int| 0 <= i < extension.len() ==> #[trigger] extension[i] != '.',
    ensures
        extension_start(head + extension) == head.len(),
    decreases extension.len(),
{
    let name = head + extension;
    if extension.len() == 0 {
        assert(name =~= head);
    } else {
        assert(name.drop_last() =~= head + extension.drop_last());
        assert(name.last() == extension[extension.len() - 1]);
        lemma_extension_start(head, extension.drop_last());
    }
}

// ---------------------------------------------------------------------------
// Names of files
// ---------------------------------------------------------------------------

/// The name of a file stands behind the last slash of its path.
pub proof fn file_name_stands_behind_the_last_slash(directory: Seq<u8>, name: Seq<u8>)
    requires
        directory.len() == 0 || directory.last() == 0x2f,
        name.len() > 0,
        !name.contains(0x2f),
        name != seq![0x2eu8],
        name != seq![0x2eu8, 0x2eu8],
    ensures
        path_file_name(directory + name) == Some(name),
{
    lemma_last_component(directory, name);
}

/// A slash or a single dot at the end of a path does not change its file name.
pub proof fn trailing_slashes_do_not_count(path: Seq<u8>)
    ensures
        path_file_name(path + seq![0x2fu8]) == path_file_name(path),
        path.len() == 0 || path.last() == 0x2f ==> path_file_name(path + seq![0x2eu8])
            == path_file_name(path),
{
    assert((path + seq![0x2fu8]).drop_last() =~= path);
    if path.len() == 0 || path.last() == 0x2f {
        let dotted = path + seq![0x2eu8];
        assert forall|i: int| 0 <= i < 1 implies seq![0x2eu8][i] != 0x2f by {}
        lemma_last_part_start(path, seq![0x2eu8]);
        assert(dotted.skip(path.len() as int) =~= seq![0x2eu8]);
        assert(dotted.take(path.len() as int) =~= path);
        assert(dotted.last() == 0x2e);
    }
}

/// The empty path and one that leads upwards have no file name.
pub proof fn upward_paths_have_no_file_name(directory: Seq<u8>)
    requires
        directory.len() == 0 || directory.last() == 0x2f,
    ensures
        path_file_name(directory + seq![0x2eu8, 0x2eu8]) is None,
        path_file_name(Seq::empty()) is None,
{
    let dots = seq![0x2eu8, 0x2eu8];
    assert forall|i: int| 0 <= i < dots.len() implies #[trigger] dots[i] != 0x2f by {}
    assert(!dots.contains(0x2f));
    assert(dots.len() != seq![0x2eu8].len());
    lemma_last_component(directory, dots);
}

proof fn lemma_last_part_start(directory: Seq<u8>, name: Seq<u8>)
    requires
        directory.len() == 0 || directory.last() == 0x2f,
        forall|i: int| 0 <= i < name.len() ==> #[trigger] name[i] != 0x2f,
    ensures
        last_part_start(directory + name) == directory.len(),
    decreases name.len(),
{
    let path = directory + name;
    if name.len() == 0 {
        assert(path =~= directory);
    } else {
        assert(path.drop_last() =~= directory + name.drop_last());
        assert(path.last() == name[name.len() - 1]);
        lemma_last_part_start(directory, name.drop_last());
    }
}

proof fn lemma_last_component(directory: Seq<u8>, name: Seq<u8>)
    requires
        directory.len() == 0 || directory.last() == 0x2f,
        name.len() > 0,
        !name.contains(0x2f),
        name != seq![0x2eu8],
    ensures
        last_component(directory + name) == Some(name),
{
    let path = directory + name;
    assert forall|i: int| 0 <= i < name.len() implies #[trigger] name[i] != 0x2f by {
        assert(name.contains(name[i]));
    }
    lemma_last_part_start(directory, name);
    assert(path.skip(directory.len() as int) =~= name);
    assert(path.last() == name[name.len() - 1]);
}

/// A document has the file name of its path where it has one that is text, else
/// the last part of its URI where that is not empty, else none.
pub proof fn file_names_come_from_paths_first(uri: Seq<char>)
    ensures
        ({
            let path = url_file_path(uri);
            let parts = url_path_segments(uri);
            let by_path = path is Some && path_file_name(path->0) is Some && valid_utf8(
                path_file_name(path->0)->0,
            );
            let by_part = parts is Some && parts->0.len() > 0 && parts->0.last().len() > 0;
            &&& by_path ==> uri_file_name(uri) == Some(decode_utf8(path_file_name(path->0)->0))
            &&& !by_path && by_part ==> uri_file_name(uri) == Some(parts->0.last())
            &&& !by_path && !by_part ==> uri_file_name(uri) is None
        }),
        chosen_file_name(url_file_path(uri), url_path_segments(uri)) == uri_file_name(uri),
{
}

/// The same of a path and parts that are at hand.
pub proof fn chosen_names_come_from_paths_first(
    path: Option<Seq<u8>>,
    parts: Option<Seq<Seq<char>>>,
)
    ensures
        ({
            let by_path = path is Some && path_file_name(path->0) is Some && valid_utf8(
                path_file_name(path->0)->0,
            );
            let by_part = parts is Some && parts->0.len() > 0 && parts->0.last().len() > 0;
            &&& by_path ==> chosen_file_name(path, parts) == Some(
                decode_utf8(path_file_name(path->0)->0),
            )
            &&& !by_path && by_part ==> chosen_file_name(path, parts) == Some(parts->0.last())
            &&& !by_path && !by_part ==> chosen_file_name(path, parts) is None
        }),
{
}

/// A document is a C file exactly where its file name is that of one.
pub proof fn c_documents_are_told_by_their_name(uri: Seq<char>)
    ensures
        c_document(uri) <==> uri_file_name(uri) is Some && c_file_name(uri_file_name(uri)->0),
{
}

/// Paths and parts of URIs by what they hold.
pub proof fn paths_and_parts_by_what_they_hold(path: Option<Vec<u8>>, parts: Option<Vec<String>>)
    ensures
        bytes_view(path) is Some <==> path is Some,
        path is Some ==> bytes_view(path)->0 == path->0@,
        segments_view(parts) is Some <==> parts is Some,
        parts is Some ==> segments_view(parts)->0.len() == parts->0@.len(),
        parts is Some ==> forall|i: int|
            0 <= i < parts->0@.len() ==> #[trigger] segments_view(parts)->0[i] == parts->0@[i]@,
{
}

} // verus!
