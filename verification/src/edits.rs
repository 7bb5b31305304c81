//! Edits of documents, as they are sent to the editor.

use vstd::prelude::*;

use crate::clock::{clock_text, current_timestamp};
use crate::header::{
    build_header_block, build_updated_line, has_42_header, has_header, header_block, updated_line,
    HEADER_UPDATED_LINE_INDEX,
};
use crate::lines::lemma_raw_lines;
use crate::settings::{author_domain, author_login, mail_address, AuthorIdentity, HeaderSettings};
use crate::text::{
    chars_of, document_line, joined3, line_break, line_ending, lines_of, str_view, utf16_len,
    utf16_units, utf16_width,
};
use crate::uri::{file_name_from_uri, uri_file_name, DocumentUri};

verus! {

/// A place in a document: a line, and how many UTF-16 code units stand before
/// the place in that line.
#[derive(Debug, Clone, Copy, PartialEq, Eq, Structural)]
pub struct Position {
    pub line: u32,
    pub character: u32,
}

/// What stands between two places.
#[derive(Debug, Clone, Copy, PartialEq, Eq, Structural)]
pub struct Range {
    pub start: Position,
    pub end: Position,
}

/// A range of a document, and the text that takes its place.
#[derive(Debug, Clone, PartialEq, Eq)]
pub struct TextEdit {
    pub range: Range,
    pub new_text: String,
}

/// The edits of each of several documents.
#[derive(Debug, Clone, PartialEq, Eq)]
pub struct WorkspaceEdit {
    pub changes: Option<Vec<(DocumentUri, Vec<TextEdit>)>>,
}

impl Position {
    pub fn new(line: u32, character: u32) -> (position: Self)
        ensures
            position == (Position { line, character }),
    {
        Position { line, character }
    }
}

impl Range {
    pub fn new(start: Position, end: Position) -> (range: Self)
        ensures
            range == (Range { start, end }),
    {
        Range { start, end }
    }
}

// ---------------------------------------------------------------------------
// The end of a document
// ---------------------------------------------------------------------------

/// How many lines stand before the place behind `s`.
pub open spec fn end_line(s: Seq<char>) -> nat
    decreases s.len(),
{
    if s.len() == 0 {
        0
    } else if s.last() == '\n' {
        end_line(s.drop_last()) + 1
    } else {
        end_line(s.drop_last())
    }
}

/// How many UTF-16 code units stand before the place behind `s` in its line.
/// Carriage returns are not counted.
pub open spec fn end_character(s: Seq<char>) -> nat
    decreases s.len(),
{
    if s.len() == 0 || s.last() == '\n' {
        0
    } else if s.last() == '\r' {
        end_character(s.drop_last())
    } else {
        end_character(s.drop_last()) + utf16_width(s.last())
    }
}

/// The places in the document can be numbered.
pub open spec fn positions_fit(s: Seq<char>) -> bool {
    forall|i: int|
        0 <= i <= s.len() ==> end_line(#[trigger] s.take(i)) <= u32::MAX && end_character(s.take(i))
            <= u32::MAX
}

/// Tells whether the places in a document can be numbered.
pub fn has_numbered_positions(text: &str) -> (b: bool)
    ensures
        b == positions_fit(text@),
{
    let chars = chars_of(text);
    let n = chars.len();
    let mut line: u32 = 0;
    let mut character: u32 = 0;
    let mut i: usize = 0;
    while i < n
        invariant
            i <= n,
            n == chars.len(),
            chars@ == text@,
            forall|k: int|
                0 <= k <= i ==> end_line(#[trigger] text@.take(k)) <= u32::MAX && end_character(
                    text@.take(k),
                ) <= u32::MAX,
            line == end_line(text@.take(i as int)),
            character == end_character(text@.take(i as int)),
        decreases n - i,
    {
        let ch = chars[i];
        let ghost seen = text@.take(i + 1);
        proof {
            assert(seen.drop_last() =~= text@.take(i as int));
            assert(seen.last() == ch);
        }
        if ch == '\n' {
            if line == u32::MAX {
                assert(end_line(seen) > u32::MAX);
                return false;
            }
            line += 1;
            character = 0;
        } else if ch != '\r' {
            let code: u32 = ch as u32;
            let width: u32 = if code >= 0x1_0000 {
                2
            } else {
                1
            };
            if character > u32::MAX - width {
                assert(end_character(seen) > u32::MAX);
                return false;
            }
            character += width;
        }
        i += 1;
    }
    true
}

/// The place behind a document.
pub fn document_end_position(text: &str) -> (position: Position)
    requires
        positions_fit(text@),
    ensures
        position.line == end_line(text@),
        position.character == end_character(text@),
{
    let chars = chars_of(text);
    let n = chars.len();
    let mut line: u32 = 0;
    let mut character: u32 = 0;
    let mut i: usize = 0;
    while i < n
        invariant
            i <= n,
            n == chars.len(),
            chars@ == text@,
            positions_fit(text@),
            line == end_line(text@.take(i as int)),
            character == end_character(text@.take(i as int)),
        decreases n - i,
    {
        let ch = chars[i];
        proof {
            let seen = text@.take(i + 1);
            assert(seen.drop_last() =~= text@.take(i as int));
            assert(seen.last() == ch);
            assert(end_line(seen) <= u32::MAX && end_character(seen) <= u32::MAX);
        }
        if ch == '\n' {
            line += 1;
            character = 0;
        } else if ch != '\r' {
            let code: u32 = ch as u32;
            character += if code >= 0x1_0000 { 2 } else { 1 };
        }
        i += 1;
    }
    proof {
        assert(text@.take(n as int) =~= text@);
    }
    Position::new(line, character)
}

/// The edit that puts a text in the place of a whole document.
pub open spec fn is_full_document_edit(
    edit: TextEdit,
    source: Seq<char>,
    replacement: Seq<char>,
) -> bool {
    &&& edit.range.start == (Position { line: 0, character: 0 })
    &&& edit.range.end.line == end_line(source)
    &&& edit.range.end.character == end_character(source)
    &&& edit.new_text@ == replacement
}

/// Puts a text in the place of a whole document.
pub fn full_document_edit(source: &str, replacement: String) -> (edit: TextEdit)
    requires
        positions_fit(source@),
    ensures
        is_full_document_edit(edit, source@, replacement@),
{
    TextEdit {
        range: Range::new(Position::new(0, 0), document_end_position(source)),
        new_text: replacement,
    }
}

// ---------------------------------------------------------------------------
// Edits that bring a header up to date
// ---------------------------------------------------------------------------

/// The edit that brings the header of a document up to date: it writes the
/// update line anew, or puts a new header in front.
pub open spec fn is_header_edit(
    edit: TextEdit,
    source: Seq<char>,
    file_name: Seq<char>,
    login: Seq<char>,
    email: Seq<char>,
    timestamp: Seq<char>,
) -> bool {
    if has_header(source) {
        let line = HEADER_UPDATED_LINE_INDEX as int;
        &&& edit.range.start == (Position { line: line as u32, character: 0 })
        &&& edit.range.end.line == line
        &&& edit.range.end.character as int == utf16_units(lines_of(source)[line])
            % 0x1_0000_0000
        &&& edit.new_text@ == updated_line(login, timestamp)
    } else {
        &&& edit.range.start == (Position { line: 0, character: 0 })
        &&& edit.range.end == (Position { line: 0, character: 0 })
        &&& edit.new_text@ == header_block(
            file_name,
            login,
            email,
            timestamp,
            line_break(source),
        )
    }
}

/// Brings the header of a document up to date. It always can be done: a
/// document that starts with a header has its update line.
pub fn build_header_text_edit_with_identity(
    source: &str,
    file_name: &str,
    identity: &AuthorIdentity,
    timestamp: &str,
) -> (edit: Result<TextEdit, String>)
    ensures
        edit is Ok,
        is_header_edit(
            edit->Ok_0,
            source@,
            file_name@,
            identity.login@,
            identity.email@,
            timestamp@,
        ),
{
    if has_42_header(source) {
        let updated_line = build_updated_line(identity, timestamp);
        proof {
            lemma_raw_lines(source@);
        }
        match document_line(source, HEADER_UPDATED_LINE_INDEX) {
            Some(current_line) => {
                return Ok(
                    TextEdit {
                        range: Range::new(
                            Position::new(HEADER_UPDATED_LINE_INDEX as u32, 0),
                            Position::new(
                                HEADER_UPDATED_LINE_INDEX as u32,
                                utf16_len(current_line),
                            ),
                        ),
                        new_text: updated_line,
                    },
                );
            },
            None => {
                assert(false);
            },
        }
    }
    let header = build_header_block(file_name, identity, timestamp, line_ending(source));
    Ok(
        TextEdit {
            range: Range::new(Position::new(0, 0), Position::new(0, 0)),
            new_text: header,
        },
    )
}

/// What is said of a URI that gives no file name.
pub open spec fn no_file_name_text(uri: Seq<char>) -> Seq<char> {
    "could not resolve a file name from `"@ + uri + "`"@
}

/// What is said of a URI that gives no file name.
pub fn no_file_name_message(uri: &DocumentUri) -> (message: String)
    ensures
        message@ == no_file_name_text(uri.text@),
{
    joined3("could not resolve a file name from `", uri.text.as_str(), "`")
}

/// The edit that brings the header of the document `uri` up to date at the
/// time `timestamp`, signed as the settings and the environment say.
pub open spec fn is_signed_header_edit(
    edit: TextEdit,
    uri: Seq<char>,
    source: Seq<char>,
    settings: HeaderSettings,
    user: Option<Seq<char>>,
    username: Option<Seq<char>>,
    timestamp: Seq<char>,
) -> bool {
    let login = author_login(settings, user, username);
    is_header_edit(
        edit,
        source,
        uri_file_name(uri)->0,
        login,
        mail_address(login, author_domain(settings)),
        timestamp,
    )
}

/// Brings the header of a document up to date at the current time.
pub fn build_header_text_edit(
    uri: &DocumentUri,
    source: &str,
    header_settings: &HeaderSettings,
    user: Option<&str>,
    username: Option<&str>,
) -> (edit: Result<TextEdit, String>)
    ensures
        match uri_file_name(uri.text@) {
            Some(_) => edit is Ok && exists|timestamp: Seq<char>|
                clock_text(timestamp) && #[trigger] is_signed_header_edit(
                    edit->Ok_0,
                    uri.text@,
                    source@,
                    *header_settings,
                    str_view(user),
                    str_view(username),
                    timestamp,
                ),
            None => edit is Err && edit->Err_0@ == no_file_name_text(uri.text@),
        },
{
    let file_name = match file_name_from_uri(uri) {
        Some(file_name) => file_name,
        None => {
            return Err(no_file_name_message(uri));
        },
    };
    let identity = AuthorIdentity::from_settings(header_settings, user, username);
    let timestamp = current_timestamp();
    let edit = build_header_text_edit_with_identity(
        source,
        file_name.as_str(),
        &identity,
        timestamp.as_str(),
    );
    proof {
        assert(is_signed_header_edit(
            edit->Ok_0,
            uri.text@,
            source@,
            *header_settings,
            str_view(user),
            str_view(username),
            timestamp@,
        ));
    }
    edit
}

/// Brings the header of a document up to date at the current time, as an edit
/// of that document and no other.
pub fn build_header_workspace_edit(
    uri: &DocumentUri,
    source: &str,
    header_settings: &HeaderSettings,
    user: Option<&str>,
    username: Option<&str>,
) -> (edit: Result<WorkspaceEdit, String>)
    ensures
        match uri_file_name(uri.text@) {
            Some(_) => edit is Ok && edit->Ok_0.edits_only(uri.text@) && exists|
                timestamp: Seq<char>,
            |
                clock_text(timestamp) && #[trigger] is_signed_header_edit(
                    edit->Ok_0.changes->0@[0].1@[0],
                    uri.text@,
                    source@,
                    *header_settings,
                    str_view(user),
                    str_view(username),
                    timestamp,
                ),
            None => edit is Err && edit->Err_0@ == no_file_name_text(uri.text@),
        },
{
    match build_header_text_edit(uri, source, header_settings, user, username) {
        Ok(edit) => {
            let mut edits: Vec<TextEdit> = Vec::new();
            let ghost single = edit;
            edits.push(edit);
            let all = workspace_edit(uri, edits);
            assert(all.changes->0@[0].1@[0] == single);
            Ok(all)
        },
        Err(error) => Err(error),
    }
}

impl WorkspaceEdit {
    /// One edit of one document.
    pub open spec fn edits_only(self, uri: Seq<char>) -> bool {
        &&& self.changes is Some
        &&& self.changes->0@.len() == 1
        &&& self.changes->0@[0].0.text@ == uri
        &&& self.changes->0@[0].1@.len() == 1
    }
}

/// The edits of one document.
pub fn workspace_edit(uri: &DocumentUri, edits: Vec<TextEdit>) -> (edit: WorkspaceEdit)
    ensures
        edit.changes is Some,
        edit.changes->0@.len() == 1,
        edit.changes->0@[0].0.text@ == uri.text@,
        edit.changes->0@[0].1 == edits,
{
    let mut changes: Vec<(DocumentUri, Vec<TextEdit>)> = Vec::new();
    changes.push((DocumentUri { text: uri.text.clone() }, edits));
    WorkspaceEdit { changes: Some(changes) }
}

} // verus!
