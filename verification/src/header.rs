//! The 42 header: how it is written, recognised and brought up to date.

use vstd::prelude::*;

use crate::lines::{document_lines, ends_with_line_feed};
use crate::pattern::{
    created_line_form, header_created_line_matches, header_updated_line_matches, stamp_digit,
    updated_line_form,
};
use crate::settings::AuthorIdentity;
use crate::text::{
    chars_of, field, has_prefix, has_suffix, join_lines, joined, joined_lines, line_break,
    line_ending, same_text, split_lines, trim_or_pad, views, with_unix_newlines,
};

verus! {

/// How many lines a header has.
pub const HEADER_LINE_COUNT: usize = 11;

/// Which line of a header says when the file was last updated.
pub const HEADER_UPDATED_LINE_INDEX: usize = 8;

/// How many characters each line of a header has.
pub const HEADER_WIDTH: usize = 80;

pub const FILE_FIELD_WIDTH: usize = 51;
pub const AUTHOR_FIELD_WIDTH: usize = 43;
pub const CREATED_LOGIN_WIDTH: usize = 18;
pub const UPDATED_LOGIN_WIDTH: usize = 17;

pub const HEADER_TOP_BORDER: &'static str =
    "/* ************************************************************************** */";
pub const HEADER_EMPTY_LINE: &'static str =
    "/*                                                                            */";
pub const HEADER_FILE_HINT_LINE: &'static str =
    "/*                                                        :::      ::::::::   */";
pub const HEADER_KAA_LINE: &'static str =
    "/*                                                    +:+ +:+         +:+     */";
pub const HEADER_HASH_LINE: &'static str =
    "/*                                                +#+#+#+#+#+   +#+           */";

pub const FILE_LINE_START: &'static str = "/*   ";
pub const FILE_LINE_END: &'static str = ":+:      :+:    :+:   */";
pub const AUTHOR_LINE_START: &'static str = "/*   By: ";
pub const AUTHOR_LINE_END: &'static str = "#+#  +:+       +#+        */";
pub const CREATED_LINE_START: &'static str = "/*   Created: ";
pub const CREATED_LINE_END: &'static str = "#+#    #+#             */";
pub const UPDATED_LINE_START: &'static str = "/*   Updated: ";
pub const UPDATED_LINE_END: &'static str = "###   ########.fr       */";
pub const STAMP_SIGNER: &'static str = " by ";

// ---------------------------------------------------------------------------
// What a header is
// ---------------------------------------------------------------------------

/// The author as a header shows them: the login, and the mail address in
/// angle brackets.
pub open spec fn author_text(login: Seq<char>, email: Seq<char>) -> Seq<char> {
    login + " <"@ + email + ">"@
}

/// The line with the name of the file.
pub open spec fn file_line(file_name: Seq<char>) -> Seq<char> {
    FILE_LINE_START@ + field(file_name, FILE_FIELD_WIDTH as nat) + FILE_LINE_END@
}

/// The line with the author.
pub open spec fn author_line(login: Seq<char>, email: Seq<char>) -> Seq<char> {
    AUTHOR_LINE_START@ + field(author_text(login, email), AUTHOR_FIELD_WIDTH as nat)
        + AUTHOR_LINE_END@
}

/// The line with the time of creation.
pub open spec fn created_line(login: Seq<char>, timestamp: Seq<char>) -> Seq<char> {
    CREATED_LINE_START@ + timestamp + STAMP_SIGNER@ + field(login, CREATED_LOGIN_WIDTH as nat)
        + CREATED_LINE_END@
}

/// The line with the time of the last update.
pub open spec fn updated_line(login: Seq<char>, timestamp: Seq<char>) -> Seq<char> {
    UPDATED_LINE_START@ + timestamp + STAMP_SIGNER@ + field(login, UPDATED_LOGIN_WIDTH as nat)
        + UPDATED_LINE_END@
}

/// The lines of a new header.
pub open spec fn header_lines(
    file_name: Seq<char>,
    login: Seq<char>,
    email: Seq<char>,
    timestamp: Seq<char>,
) -> Seq<Seq<char>> {
    seq![
        HEADER_TOP_BORDER@,
        HEADER_EMPTY_LINE@,
        HEADER_FILE_HINT_LINE@,
        file_line(file_name),
        HEADER_KAA_LINE@,
        author_line(login, email),
        HEADER_HASH_LINE@,
        created_line(login, timestamp),
        updated_line(login, timestamp),
        HEADER_EMPTY_LINE@,
        HEADER_TOP_BORDER@,
    ]
}

/// The text of a new header: each line of it ends with `newline`.
pub open spec fn header_block(
    file_name: Seq<char>,
    login: Seq<char>,
    email: Seq<char>,
    timestamp: Seq<char>,
    newline: Seq<char>,
) -> Seq<char> {
    joined_lines(header_lines(file_name, login, email, timestamp), newline) + newline
}

/// These lines start with those of a header.
pub open spec fn header_stands_in(lines: Seq<Seq<char>>) -> bool {
    &&& lines.len() >= HEADER_LINE_COUNT
    &&& lines[0] == HEADER_TOP_BORDER@
    &&& lines[1] == HEADER_EMPTY_LINE@
    &&& lines[2] == HEADER_FILE_HINT_LINE@
    &&& FILE_LINE_START@.is_prefix_of(lines[3])
    &&& FILE_LINE_END@.is_suffix_of(lines[3])
    &&& lines[4] == HEADER_KAA_LINE@
    &&& AUTHOR_LINE_START@.is_prefix_of(lines[5])
    &&& AUTHOR_LINE_END@.is_suffix_of(lines[5])
    &&& lines[6] == HEADER_HASH_LINE@
    &&& created_line_form(lines[7], stamp_digit())
    &&& updated_line_form(lines[8], stamp_digit())
    &&& lines[9] == HEADER_EMPTY_LINE@
    &&& lines[10] == HEADER_TOP_BORDER@
    &&& forall|i: int| 0 <= i < HEADER_LINE_COUNT ==> #[trigger] lines[i].len() == HEADER_WIDTH
}

/// The document starts with a header.
pub open spec fn has_header(source: Seq<char>) -> bool {
    header_stands_in(document_lines(source))
}

/// The document with a header that is up to date: a new one in front of it, or
/// the update line of the header that it has written anew. In the second case
/// all lines of the document get the line break that it uses.
pub open spec fn rendered(
    source: Seq<char>,
    file_name: Seq<char>,
    login: Seq<char>,
    email: Seq<char>,
    timestamp: Seq<char>,
) -> Seq<char> {
    let newline = line_break(source);
    if has_header(source) {
        let lines = document_lines(source).update(
            HEADER_UPDATED_LINE_INDEX as int,
            updated_line(login, timestamp),
        );
        joined_lines(lines, newline) + (if ends_with_line_feed(source) {
            newline
        } else {
            seq![]
        })
    } else {
        header_block(file_name, login, email, timestamp, newline) + source
    }
}

// ---------------------------------------------------------------------------
// Writing and reading headers
// ---------------------------------------------------------------------------

/// Tells whether a line can be the one with the name of the file.
pub fn header_file_line_matches(line: &str) -> (b: bool)
    ensures
        b == (FILE_LINE_START@.is_prefix_of(line@) && FILE_LINE_END@.is_suffix_of(line@)),
{
    has_prefix(line, FILE_LINE_START) && has_suffix(line, FILE_LINE_END)
}

/// Tells whether a line can be the one with the author.
pub fn header_author_line_matches(line: &str) -> (b: bool)
    ensures
        b == (AUTHOR_LINE_START@.is_prefix_of(line@) && AUTHOR_LINE_END@.is_suffix_of(line@)),
{
    has_prefix(line, AUTHOR_LINE_START) && has_suffix(line, AUTHOR_LINE_END)
}

/// Tells whether each of the first lines is as wide as a header.
fn all_header_wide(lines: &Vec<String>) -> (b: bool)
    requires
        lines.len() >= HEADER_LINE_COUNT,
    ensures
        b == (forall|i: int|
            0 <= i < HEADER_LINE_COUNT ==> #[trigger] views(lines@)[i].len() == HEADER_WIDTH),
{
    let mut i: usize = 0;
    while i < HEADER_LINE_COUNT
        invariant
            i <= HEADER_LINE_COUNT,
            lines.len() >= HEADER_LINE_COUNT,
            forall|k: int| 0 <= k < i ==> #[trigger] views(lines@)[k].len() == HEADER_WIDTH,
        decreases HEADER_LINE_COUNT - i,
    {
        if lines[i].as_str().unicode_len() != HEADER_WIDTH {
            assert(views(lines@)[i as int].len() != HEADER_WIDTH);
            return false;
        }
        i += 1;
    }
    true
}

/// Tells whether these lines start with those of a header.
fn starts_with_header(lines: &Vec<String>) -> (b: bool)
    ensures
        b == header_stands_in(views(lines@)),
{
    if lines.len() < HEADER_LINE_COUNT {
        return false;
    }
    same_text(lines[0].as_str(), HEADER_TOP_BORDER)
        && same_text(lines[1].as_str(), HEADER_EMPTY_LINE)
        && same_text(lines[2].as_str(), HEADER_FILE_HINT_LINE)
        && same_text(lines[4].as_str(), HEADER_KAA_LINE)
        && same_text(lines[6].as_str(), HEADER_HASH_LINE)
        && same_text(lines[9].as_str(), HEADER_EMPTY_LINE)
        && same_text(lines[10].as_str(), HEADER_TOP_BORDER)
        && header_file_line_matches(lines[3].as_str())
        && header_author_line_matches(lines[5].as_str())
        && header_created_line_matches(lines[7].as_str())
        && header_updated_line_matches(lines[8].as_str())
        && all_header_wide(lines)
}

/// Tells whether a document starts with a header.
pub fn has_42_header(source: &str) -> (b: bool)
    ensures
        b == has_header(source@),
{
    let normalized = with_unix_newlines(source);
    let lines = split_lines(&normalized);
    starts_with_header(&lines)
}

/// The line that says when a file was last updated.
pub fn build_updated_line(identity: &AuthorIdentity, timestamp: &str) -> (line: String)
    ensures
        line@ == updated_line(identity.login@, timestamp@),
{
    let updated_login = trim_or_pad(identity.login.as_str(), UPDATED_LOGIN_WIDTH);
    let mut line = UPDATED_LINE_START.to_string();
    line.append(timestamp);
    line.append(STAMP_SIGNER);
    line.append(updated_login.as_str());
    line.append(UPDATED_LINE_END);
    line
}

/// The line that says when a file was created.
fn build_created_line(identity: &AuthorIdentity, timestamp: &str) -> (line: String)
    ensures
        line@ == created_line(identity.login@, timestamp@),
{
    let created_login = trim_or_pad(identity.login.as_str(), CREATED_LOGIN_WIDTH);
    let mut line = CREATED_LINE_START.to_string();
    line.append(timestamp);
    line.append(STAMP_SIGNER);
    line.append(created_login.as_str());
    line.append(CREATED_LINE_END);
    line
}

/// The line that names the author.
fn build_author_line(identity: &AuthorIdentity) -> (line: String)
    ensures
        line@ == author_line(identity.login@, identity.email@),
{
    let mut text = identity.login.clone();
    text.append(" <");
    text.append(identity.email.as_str());
    text.append(">");
    let author = trim_or_pad(text.as_str(), AUTHOR_FIELD_WIDTH);
    let mut line = AUTHOR_LINE_START.to_string();
    line.append(author.as_str());
    line.append(AUTHOR_LINE_END);
    line
}

/// The line that names the file.
fn build_file_line(file_name: &str) -> (line: String)
    ensures
        line@ == file_line(file_name@),
{
    let name = trim_or_pad(file_name, FILE_FIELD_WIDTH);
    let mut line = FILE_LINE_START.to_string();
    line.append(name.as_str());
    line.append(FILE_LINE_END);
    line
}

/// A new header.
pub fn build_header_block(
    file_name: &str,
    identity: &AuthorIdentity,
    timestamp: &str,
    newline: &str,
) -> (block: String)
    ensures
        block@ == header_block(
            file_name@,
            identity.login@,
            identity.email@,
            timestamp@,
            newline@,
        ),
{
    let mut lines: Vec<String> = Vec::new();
    lines.push(HEADER_TOP_BORDER.to_string());
    lines.push(HEADER_EMPTY_LINE.to_string());
    lines.push(HEADER_FILE_HINT_LINE.to_string());
    lines.push(build_file_line(file_name));
    lines.push(HEADER_KAA_LINE.to_string());
    lines.push(build_author_line(identity));
    lines.push(HEADER_HASH_LINE.to_string());
    lines.push(build_created_line(identity, timestamp));
    lines.push(build_updated_line(identity, timestamp));
    lines.push(HEADER_EMPTY_LINE.to_string());
    lines.push(HEADER_TOP_BORDER.to_string());
    proof {
        assert(views(lines@) =~= header_lines(
            file_name@,
            identity.login@,
            identity.email@,
            timestamp@,
        ));
    }
    let text = join_lines(&lines, newline);
    joined(text.as_str(), newline)
}

/// Tells whether a text ends with a line feed.
fn has_trailing_line_feed(source: &str) -> (b: bool)
    ensures
        b == ends_with_line_feed(source@),
{
    let chars = chars_of(source);
    chars.len() > 0 && chars[chars.len() - 1] == '\n'
}

/// The document with a header that is up to date. It always can be written:
/// a document that starts with a header has its update line.
pub fn render_document_with_header(
    source: &str,
    file_name: &str,
    identity: &AuthorIdentity,
    timestamp: &str,
) -> (output: Result<String, String>)
    ensures
        output is Ok,
        output->Ok_0@ == rendered(
            source@,
            file_name@,
            identity.login@,
            identity.email@,
            timestamp@,
        ),
{
    let newline = line_ending(source);
    if has_42_header(source) {
        let normalized = with_unix_newlines(source);
        let mut lines = split_lines(&normalized);
        let ghost before = views(lines@);
        lines.set(HEADER_UPDATED_LINE_INDEX, build_updated_line(identity, timestamp));
        proof {
            assert(views(lines@) =~= before.update(
                HEADER_UPDATED_LINE_INDEX as int,
                updated_line(identity.login@, timestamp@),
            ));
        }
        let text = join_lines(&lines, newline);
        if has_trailing_line_feed(source) {
            return Ok(joined(text.as_str(), newline));
        }
        proof {
            assert(text@ + Seq::<char>::empty() =~= text@);
        }
        return Ok(text);
    }
    let block = build_header_block(file_name, identity, timestamp, newline);
    Ok(joined(block.as_str(), source))
}

} // verus!
