//! Documents by their URI: file paths, file names and kinds of files.

use tower_lsp::lsp_types::Url;
use vstd::prelude::*;
use vstd::utf8::{decode_utf8, valid_utf8};

use crate::bytes::{bytes_between, utf8_text};
use crate::text::{chars_of, joined, string_view, views};

verus! {

/// A document, named by its URI as the client writes it.
#[derive(Debug, Clone, PartialEq, Eq)]
pub struct DocumentUri {
    pub text: String,
}

// ---------------------------------------------------------------------------
// What only the URL parser can tell
// ---------------------------------------------------------------------------

/// The normal form of a URL, as `Url::parse` gives it; none for a text that is
/// no URL.
pub uninterp spec fn url_normal_form(text: Seq<char>) -> Option<Seq<char>>;

/// The file path that a URL stands for, as `Url::to_file_path` gives it on a
/// Unix system; none for a URL that stands for no path.
pub uninterp spec fn url_file_path(uri: Seq<char>) -> Option<Seq<u8>>;

/// The parts of the path of a URL, as `Url::path_segments` gives them; none
/// for a URL that has no such path.
pub uninterp spec fn url_path_segments(uri: Seq<char>) -> Option<Seq<Seq<char>>>;

/// `Url::parse`, with the URL as its text. What it gives is left to the name
/// `url_normal_form`.
#[verifier::external_body]
fn parse_url(text: &str) -> (normal: Option<String>)
    ensures
        string_view(normal) == url_normal_form(text@),
{
    Url::parse(text).ok().map(String::from)
}

/// `Url::to_file_path`, with the URL and the path as plain values. What it
/// gives is left to the name `url_file_path`.
#[verifier::external_body]
fn file_path_of_url(uri: &str) -> (path: Option<Vec<u8>>)
    ensures
        bytes_view(path) == url_file_path(uri@),
{
    let url = Url::parse(uri).ok()?;
    let path = url.to_file_path().ok()?;
    Some(path.into_os_string().into_encoded_bytes())
}

/// `Url::path_segments`, with the URL and its parts as plain values. What it
/// gives is left to the name `url_path_segments`.
#[verifier::external_body]
fn path_segments_of_url(uri: &str) -> (segments: Option<Vec<String>>)
    ensures
        segments_view(segments) == url_path_segments(uri@),
{
    let url = Url::parse(uri).ok()?;
    let segments = url.path_segments()?;
    Some(segments.map(|segment| segment.to_string()).collect())
}

/// The bytes of a path that may be absent.
pub open spec fn bytes_view(path: Option<Vec<u8>>) -> Option<Seq<u8>> {
    match path {
        Some(bytes) => Some(bytes@),
        None => None,
    }
}

/// The characters of path segments that may be absent.
pub open spec fn segments_view(segments: Option<Vec<String>>) -> Option<Seq<Seq<char>>> {
    match segments {
        Some(parts) => Some(views(parts@)),
        None => None,
    }
}

impl DocumentUri {
    /// Reads a URI, and writes it in its normal form.
    pub fn parse(text: &str) -> (uri: Option<DocumentUri>)
        ensures
            match url_normal_form(text@) {
                Some(normal) => uri is Some && uri->0.text@ == normal,
                None => uri is None,
            },
    {
        match parse_url(text) {
            Some(text) => Some(DocumentUri { text }),
            None => None,
        }
    }
}

// ---------------------------------------------------------------------------
// File names
// ---------------------------------------------------------------------------

/// Where the last part of a path starts: behind its last slash.
pub open spec fn last_part_start(path: Seq<u8>) -> int
    decreases path.len(),
{
    if path.len() == 0 || path.last() == 0x2f {
        path.len() as int
    } else {
        last_part_start(path.drop_last())
    }
}

/// The last part of a path that says something: empty parts and parts that are
/// a single dot are passed over.
pub open spec fn last_component(path: Seq<u8>) -> Option<Seq<u8>>
    decreases path.len(),
{
    if path.len() == 0 {
        None
    } else if path.last() == 0x2f {
        last_component(path.drop_last())
    } else {
        let start = last_part_start(path);
        let part = path.skip(start);
        if part == seq![0x2eu8] && 0 <= start < path.len() {
            last_component(path.take(start))
        } else {
            Some(part)
        }
    }
}

/// The file name of a path: its last component, unless that leads upwards.
pub open spec fn path_file_name(path: Seq<u8>) -> Option<Seq<u8>> {
    match last_component(path) {
        Some(part) => if part == seq![0x2eu8, 0x2eu8] {
            None
        } else {
            Some(part)
        },
        None => None,
    }
}

/// The file name of a path, if it has one.
pub fn file_name_of_path(path: &[u8]) -> (name: Option<Vec<u8>>)
    ensures
        bytes_view(name) == path_file_name(path@),
{
    let mut end: usize = path.len();
    proof {
        assert(path@.take(end as int) =~= path@);
    }
    while end > 0
        invariant
            end <= path@.len(),
            last_component(path@) == last_component(path@.take(end as int)),
        decreases end,
    {
        let ghost left = path@.take(end as int);
        if path[end - 1] == 0x2f {
            proof {
                assert(left.drop_last() =~= path@.take(end - 1));
            }
            end -= 1;
        } else {
            let mut start: usize = end;
            while start > 0 && path[start - 1] != 0x2f
                invariant
                    start <= end <= path@.len(),
                    left == path@.take(end as int),
                    last_part_start(left) == last_part_start(path@.take(start as int)),
                decreases start,
            {
                proof {
                    assert(path@.take(start as int).drop_last() =~= path@.take(start - 1));
                }
                start -= 1;
            }
            let part = bytes_between(path, start, end);
            proof {
                assert(last_part_start(left) == start);
                assert(left.skip(start as int) =~= part@);
            }
            if part.len() == 1 && part[0] == 0x2e {
                proof {
                    assert(part@ =~= seq![0x2eu8]);
                    assert(left.take(start as int) =~= path@.take(start as int));
                }
                end = start;
            } else {
                proof {
                    assert(part@ != seq![0x2eu8]);
                }
                if part.len() == 2 && part[0] == 0x2e && part[1] == 0x2e {
                    assert(part@ =~= seq![0x2eu8, 0x2eu8]);
                    return None;
                }
                assert(part@ != seq![0x2eu8, 0x2eu8]);
                return Some(part);
            }
        }
    }
    None
}

/// The file name that a path and path segments give: that of the path, if
/// it has one and it is text, else the last segment, if it is not empty.
pub open spec fn chosen_file_name(
    path: Option<Seq<u8>>,
    segments: Option<Seq<Seq<char>>>,
) -> Option<Seq<char>> {
    if path is Some && path_file_name(path->0) is Some && valid_utf8(path_file_name(path->0)->0) {
        Some(decode_utf8(path_file_name(path->0)->0))
    } else if segments is Some && segments->0.len() > 0 && segments->0.last().len() > 0 {
        Some(segments->0.last())
    } else {
        None
    }
}

/// Chooses a file name, given the path and the path segments of a URI.
pub fn choose_file_name(path: &Option<Vec<u8>>, segments: &Option<Vec<String>>) -> (name: Option<
    String,
>)
    ensures
        string_view(name) == chosen_file_name(bytes_view(*path), segments_view(*segments)),
{
    if let Some(bytes) = path {
        if let Some(name) = file_name_of_path(bytes.as_slice()) {
            if let Ok(text) = utf8_text(name) {
                return Some(text);
            }
        }
    }
    if let Some(parts) = segments {
        if parts.len() > 0 {
            let last = &parts[parts.len() - 1];
            assert(views(parts@).last() == last@);
            if !last.as_str().is_empty() {
                return Some(last.clone());
            }
        }
    }
    None
}

/// The name of the file that a URI stands for.
pub open spec fn uri_file_name(uri: Seq<char>) -> Option<Seq<char>> {
    chosen_file_name(url_file_path(uri), url_path_segments(uri))
}

/// The name of the file that a URI stands for, if it gives one.
pub fn file_name_from_uri(uri: &DocumentUri) -> (name: Option<String>)
    ensures
        string_view(name) == uri_file_name(uri.text@),
{
    let path = file_path_of_url(uri.text.as_str());
    let segments = path_segments_of_url(uri.text.as_str());
    choose_file_name(&path, &segments)
}

/// The path of the file that a URI stands for, or what is said of a URI that
/// stands for none.
pub fn uri_to_path(uri: &DocumentUri) -> (path: Result<Vec<u8>, String>)
    ensures
        match url_file_path(uri.text@) {
            Some(bytes) => path is Ok && path->Ok_0@ == bytes,
            None => path is Err && path->Err_0@ == "unsupported non-file URI: "@ + uri.text@,
        },
{
    match file_path_of_url(uri.text.as_str()) {
        Some(bytes) => Ok(bytes),
        None => Err(joined("unsupported non-file URI: ", uri.text.as_str())),
    }
}

// ---------------------------------------------------------------------------
// Kinds of files
// ---------------------------------------------------------------------------

/// Where the extension of a file name starts: behind its last dot; zero for a
/// name without a dot.
pub open spec fn extension_start(name: Seq<char>) -> int
    decreases name.len(),
{
    if name.len() == 0 || name.last() == '.' {
        name.len() as int
    } else {
        extension_start(name.drop_last())
    }
}

/// The extension of a file name: what stands behind its last dot. A name
/// without a dot has none, and neither has one whose only dot comes first, nor
/// the name of the directory above.
pub open spec fn file_extension(name: Seq<char>) -> Option<Seq<char>> {
    if extension_start(name) <= 1 || name == seq!['.', '.'] {
        None
    } else {
        Some(name.skip(extension_start(name)))
    }
}

/// The name of a C source or header file, in small or capital letters.
pub open spec fn c_file_name(name: Seq<char>) -> bool {
    match file_extension(name) {
        Some(extension) => extension.len() == 1 && (extension[0] == 'c' || extension[0] == 'C'
            || extension[0] == 'h' || extension[0] == 'H'),
        None => false,
    }
}

/// Tells whether a file name is that of a C source or header file.
pub fn is_c_file_name(name: &str) -> (b: bool)
    ensures
        b == c_file_name(name@),
{
    let chars = chars_of(name);
    let n = chars.len();
    if n == 2 && chars[0] == '.' && chars[1] == '.' {
        assert(name@ =~= seq!['.', '.']);
        return false;
    }
    assert(name@ != seq!['.', '.']);
    let mut start: usize = n;
    proof {
        assert(name@.take(n as int) =~= name@);
    }
    while start > 0 && chars[start - 1] != '.'
        invariant
            start <= n,
            n == chars.len(),
            chars@ == name@,
            extension_start(name@) == extension_start(name@.take(start as int)),
        decreases start,
    {
        proof {
            assert(name@.take(start as int).drop_last() =~= name@.take(start - 1));
        }
        start -= 1;
    }
    if start <= 1 || n - start != 1 {
        return false;
    }
    let letter = chars[start];
    letter == 'c' || letter == 'C' || letter == 'h' || letter == 'H'
}

/// The URI of a C source or header file.
pub open spec fn c_document(uri: Seq<char>) -> bool {
    match uri_file_name(uri) {
        Some(name) => c_file_name(name),
        None => false,
    }
}

/// Tells whether a document is a C source or header file.
pub fn is_supported_c_document(uri: &DocumentUri) -> (b: bool)
    ensures
        b == c_document(uri.text@),
{
    match file_name_from_uri(uri) {
        Some(name) => is_c_file_name(name.as_str()),
        None => false,
    }
}

} // verus!
