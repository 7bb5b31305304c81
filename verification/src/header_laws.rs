//! What holds of headers and of the documents that carry them.

use vstd::prelude::*;

use crate::clock::clock_text;
use crate::header::{
    author_line, author_text, created_line, file_line, has_header, header_block, header_lines,
    header_stands_in, rendered, updated_line, AUTHOR_FIELD_WIDTH, AUTHOR_LINE_END,
    AUTHOR_LINE_START, CREATED_LINE_END, CREATED_LINE_START, CREATED_LOGIN_WIDTH, FILE_FIELD_WIDTH,
    FILE_LINE_END, FILE_LINE_START, HEADER_EMPTY_LINE, HEADER_FILE_HINT_LINE, HEADER_HASH_LINE,
    HEADER_KAA_LINE, HEADER_LINE_COUNT, HEADER_TOP_BORDER, HEADER_UPDATED_LINE_INDEX, HEADER_WIDTH,
    STAMP_SIGNER, UPDATED_LINE_END, UPDATED_LINE_START, UPDATED_LOGIN_WIDTH,
};
use crate::lines::{
    clean_breaks, document_lines, ends_with_cr, ends_with_line_feed, is_line_break,
    lemma_document_lines_block, lemma_document_lines_shape, lemma_document_lines_single,
    last_break, lemma_joined_lines_cut, lemma_unix_breaks, plain_line, terminated, uniform_breaks,
};
use crate::pattern::{created_line_form, is_stamp, stamp_digit, updated_line_form};
use crate::text::{
    blank, crlf_at, field, has_crlf, joined_lines, line_break, single_line, unix_newlines,
};

verus! {

// ---------------------------------------------------------------------------
// The fixed texts of a header
// ---------------------------------------------------------------------------

/// None of the first `n` characters is a line feed.
spec fn no_line_feed(s: Seq<char>, n: nat) -> bool
    decreases n,
{
    n == 0 || (s[n - 1] != '\n' && no_line_feed(s, (n - 1) as nat))
}

/// Each of the first `n` characters is a space.
spec fn only_spaces(s: Seq<char>, n: nat) -> bool
    decreases n,
{
    n == 0 || (s[n - 1] == ' ' && only_spaces(s, (n - 1) as nat))
}

proof fn lemma_no_line_feed(s: Seq<char>, n: nat)
    requires
        no_line_feed(s, n),
        n <= s.len(),
    ensures
        forall|i: int| 0 <= i < n ==> s[i] != '\n',
    decreases n,
{
    if n > 0 {
        lemma_no_line_feed(s, (n - 1) as nat);
    }
}

proof fn lemma_only_spaces(s: Seq<char>, n: nat)
    requires
        only_spaces(s, n),
        n <= s.len(),
    ensures
        forall|i: int| 0 <= i < n ==> s[i] == ' ',
    decreases n,
{
    if n > 0 {
        lemma_only_spaces(s, (n - 1) as nat);
    }
}

/// The fixed lines of a header are plain and as wide as a header.
proof fn lemma_fixed_lines()
    ensures
        HEADER_TOP_BORDER@.len() == HEADER_WIDTH,
        plain_line(HEADER_TOP_BORDER@),
        HEADER_EMPTY_LINE@.len() == HEADER_WIDTH,
        plain_line(HEADER_EMPTY_LINE@),
        HEADER_FILE_HINT_LINE@.len() == HEADER_WIDTH,
        plain_line(HEADER_FILE_HINT_LINE@),
        HEADER_KAA_LINE@.len() == HEADER_WIDTH,
        plain_line(HEADER_KAA_LINE@),
        HEADER_HASH_LINE@.len() == HEADER_WIDTH,
        plain_line(HEADER_HASH_LINE@),
{
    reveal_strlit(
        "/* ************************************************************************** */",
    );
    reveal_strlit(
        "/*                                                                            */",
    );
    reveal_strlit(
        "/*                                                        :::      ::::::::   */",
    );
    reveal_strlit(
        "/*                                                    +:+ +:+         +:+     */",
    );
    reveal_strlit(
        "/*                                                +#+#+#+#+#+   +#+           */",
    );
    reveal_with_fuel(no_line_feed, 81);
    lemma_no_line_feed(HEADER_TOP_BORDER@, 80);
    lemma_no_line_feed(HEADER_EMPTY_LINE@, 80);
    lemma_no_line_feed(HEADER_FILE_HINT_LINE@, 80);
    lemma_no_line_feed(HEADER_KAA_LINE@, 80);
    lemma_no_line_feed(HEADER_HASH_LINE@, 80);
}

/// The texts around the fields of a header hold no line feed, and the lines
/// end with a slash.
proof fn lemma_fixed_parts()
    ensures
        FILE_LINE_START@.len() == 5,
        single_line(FILE_LINE_START@),
        FILE_LINE_END@.len() == 24,
        single_line(FILE_LINE_END@),
        FILE_LINE_END@.last() == '/',
        AUTHOR_LINE_START@.len() == 9,
        single_line(AUTHOR_LINE_START@),
        AUTHOR_LINE_END@.len() == 28,
        single_line(AUTHOR_LINE_END@),
        AUTHOR_LINE_END@.last() == '/',
        CREATED_LINE_START@.len() == 14,
        single_line(CREATED_LINE_START@),
        CREATED_LINE_END@.len() == 25,
        single_line(CREATED_LINE_END@),
        CREATED_LINE_END@.last() == '/',
        UPDATED_LINE_START@.len() == 14,
        single_line(UPDATED_LINE_START@),
        UPDATED_LINE_END@.len() == 26,
        single_line(UPDATED_LINE_END@),
        UPDATED_LINE_END@.last() == '/',
        STAMP_SIGNER@.len() == 4,
        single_line(STAMP_SIGNER@),
{
    reveal_strlit("/*   ");
    reveal_strlit(":+:      :+:    :+:   */");
    reveal_strlit("/*   By: ");
    reveal_strlit("#+#  +:+       +#+        */");
    reveal_strlit("/*   Created: ");
    reveal_strlit("#+#    #+#             */");
    reveal_strlit("/*   Updated: ");
    reveal_strlit("###   ########.fr       */");
    reveal_strlit(" by ");
    reveal_with_fuel(no_line_feed, 29);
    lemma_no_line_feed(FILE_LINE_START@, 5);
    lemma_no_line_feed(FILE_LINE_END@, 24);
    lemma_no_line_feed(AUTHOR_LINE_START@, 9);
    lemma_no_line_feed(AUTHOR_LINE_END@, 28);
    lemma_no_line_feed(CREATED_LINE_START@, 14);
    lemma_no_line_feed(CREATED_LINE_END@, 25);
    lemma_no_line_feed(UPDATED_LINE_START@, 14);
    lemma_no_line_feed(UPDATED_LINE_END@, 26);
    lemma_no_line_feed(STAMP_SIGNER@, 4);
}

/// The end of the creation line has the shape that its pattern asks for.
proof fn lemma_created_line_end()
    ensures
        CREATED_LINE_END@.len() == 25,
        CREATED_LINE_END@.subrange(0, 3) == "#+#"@,
        blank(CREATED_LINE_END@.subrange(3, 7)),
        CREATED_LINE_END@.subrange(7, 10) == "#+#"@,
        blank(CREATED_LINE_END@.subrange(10, 23)),
        CREATED_LINE_END@.subrange(23, 25) == "*/"@,
{
    reveal_strlit("#+#    #+#             */");
    reveal_strlit("#+#");
    reveal_strlit("*/");
    let end = CREATED_LINE_END@;
    assert(end.subrange(0, 3) =~= "#+#"@);
    assert(end.subrange(7, 10) =~= "#+#"@);
    assert(end.subrange(23, 25) =~= "*/"@);
    reveal_with_fuel(only_spaces, 14);
    lemma_only_spaces(end.subrange(3, 7), 4);
    lemma_only_spaces(end.subrange(10, 23), 13);
}

/// The end of the update line has the shape that its pattern asks for.
proof fn lemma_updated_line_end()
    ensures
        UPDATED_LINE_END@.len() == 26,
        UPDATED_LINE_END@.subrange(0, 3) == "###"@,
        blank(UPDATED_LINE_END@.subrange(3, 6)),
        UPDATED_LINE_END@.subrange(6, 17) == "########.fr"@,
        blank(UPDATED_LINE_END@.subrange(17, 24)),
        UPDATED_LINE_END@.subrange(24, 26) == "*/"@,
{
    reveal_strlit("###   ########.fr       */");
    reveal_strlit("###");
    reveal_strlit("########.fr");
    reveal_strlit("*/");
    let end = UPDATED_LINE_END@;
    assert(end.subrange(0, 3) =~= "###"@);
    assert(end.subrange(6, 17) =~= "########.fr"@);
    assert(end.subrange(24, 26) =~= "*/"@);
    reveal_with_fuel(only_spaces, 8);
    lemma_only_spaces(end.subrange(3, 6), 3);
    lemma_only_spaces(end.subrange(17, 24), 7);
}

// ---------------------------------------------------------------------------
// The lines of a header
// ---------------------------------------------------------------------------

/// A concatenation holds no line feed exactly where its parts hold none.
proof fn lemma_single_line_concat(a: Seq<char>, b: Seq<char>)
    ensures
        single_line(a + b) == (single_line(a) && single_line(b)),
{
    let s = a + b;
    if a.contains('\n') {
        let i = a.index_of('\n');
        assert(s[i] == '\n');
    }
    if b.contains('\n') {
        let i = b.index_of('\n');
        assert(s[a.len() + i] == '\n');
    }
    if s.contains('\n') {
        let i = s.index_of('\n');
        if i < a.len() {
            assert(a[i] == '\n');
        } else {
            assert(b[i - a.len()] == '\n');
        }
    }
}

/// A timestamp holds no line feed.
proof fn lemma_stamp_single_line(timestamp: Seq<char>)
    requires
        is_stamp(timestamp),
    ensures
        single_line(timestamp),
        timestamp.len() == 19,
{
    if timestamp.contains('\n') {
        let i = timestamp.index_of('\n');
        assert(timestamp[i] == '\n');
        assert(i == 0 || i == 1 || i == 2 || i == 3 || i == 4 || i == 5 || i == 6 || i == 7 || i
            == 8 || i == 9 || i == 10 || i == 11 || i == 12 || i == 13 || i == 14 || i == 15 || i
            == 16 || i == 17 || i == 18);
    }
}

/// The update line of a timestamp has the shape that its pattern asks for.
proof fn lemma_updated_line(login: Seq<char>, timestamp: Seq<char>)
    requires
        is_stamp(timestamp),
        single_line(field(login, UPDATED_LOGIN_WIDTH as nat)),
    ensures
        updated_line_form(updated_line(login, timestamp), stamp_digit()),
        plain_line(updated_line(login, timestamp)),
{
    lemma_fixed_parts();
    lemma_updated_line_end();
    lemma_stamp_single_line(timestamp);
    reveal_strlit("/*   Updated: ");
    let signer = field(login, UPDATED_LOGIN_WIDTH as nat);
    let line = updated_line(login, timestamp);
    let end = UPDATED_LINE_END@;
    assert(signer.len() == 17);
    assert(line.subrange(0, 14) =~= UPDATED_LINE_START@);
    assert(line.subrange(14, 33) =~= timestamp);
    assert(line.subrange(33, 37) =~= STAMP_SIGNER@);
    assert(line.subrange(37, 54) =~= signer);
    assert(line.subrange(54, 57) =~= end.subrange(0, 3));
    assert(line.subrange(57, 60) =~= end.subrange(3, 6));
    assert(line.subrange(60, 71) =~= end.subrange(6, 17));
    assert(line.subrange(71, 78) =~= end.subrange(17, 24));
    assert(line.subrange(78, 80) =~= end.subrange(24, 26));
    lemma_updated_line_plain(login, timestamp);
}

/// The update line is plain, whatever the timestamp.
pub proof fn lemma_updated_line_plain(login: Seq<char>, timestamp: Seq<char>)
    requires
        single_line(timestamp),
        single_line(field(login, UPDATED_LOGIN_WIDTH as nat)),
    ensures
        plain_line(updated_line(login, timestamp)),
{
    lemma_fixed_parts();
    let signer = field(login, UPDATED_LOGIN_WIDTH as nat);
    let a = UPDATED_LINE_START@ + timestamp;
    lemma_single_line_concat(UPDATED_LINE_START@, timestamp);
    lemma_single_line_concat(a, STAMP_SIGNER@);
    lemma_single_line_concat(a + STAMP_SIGNER@, signer);
    lemma_single_line_concat(a + STAMP_SIGNER@ + signer, UPDATED_LINE_END@);
    assert(updated_line(login, timestamp).last() == UPDATED_LINE_END@.last());
}

/// The creation line of a timestamp has the shape that its pattern asks for.
proof fn lemma_created_line(login: Seq<char>, timestamp: Seq<char>)
    requires
        is_stamp(timestamp),
        single_line(field(login, CREATED_LOGIN_WIDTH as nat)),
    ensures
        created_line_form(created_line(login, timestamp), stamp_digit()),
        plain_line(created_line(login, timestamp)),
{
    lemma_fixed_parts();
    lemma_created_line_end();
    lemma_stamp_single_line(timestamp);
    let signer = field(login, CREATED_LOGIN_WIDTH as nat);
    let line = created_line(login, timestamp);
    let end = CREATED_LINE_END@;
    assert(signer.len() == 18);
    assert(line.subrange(0, 14) =~= CREATED_LINE_START@);
    assert(line.subrange(14, 33) =~= timestamp);
    assert(line.subrange(33, 37) =~= STAMP_SIGNER@);
    assert(line.subrange(37, 55) =~= signer);
    assert(line.subrange(55, 58) =~= end.subrange(0, 3));
    assert(line.subrange(58, 62) =~= end.subrange(3, 7));
    assert(line.subrange(62, 65) =~= end.subrange(7, 10));
    assert(line.subrange(65, 78) =~= end.subrange(10, 23));
    assert(line.subrange(78, 80) =~= end.subrange(23, 25));
    let a = CREATED_LINE_START@ + timestamp;
    lemma_single_line_concat(CREATED_LINE_START@, timestamp);
    lemma_single_line_concat(a, STAMP_SIGNER@);
    lemma_single_line_concat(a + STAMP_SIGNER@, signer);
    lemma_single_line_concat(a + STAMP_SIGNER@ + signer, end);
    assert(line.last() == end.last());
}

/// What of a name, a login and a mail address a header shows holds no line
/// feed.
pub open spec fn fits_header(
    file_name: Seq<char>,
    login: Seq<char>,
    email: Seq<char>,
) -> bool {
    &&& single_line(field(file_name, FILE_FIELD_WIDTH as nat))
    &&& single_line(field(author_text(login, email), AUTHOR_FIELD_WIDTH as nat))
    &&& single_line(field(login, CREATED_LOGIN_WIDTH as nat))
}

/// A field of a text is a field of each wider field of it.
proof fn lemma_narrower_field(s: Seq<char>, width: nat, wider: nat)
    requires
        width <= wider,
        single_line(field(s, wider)),
    ensures
        single_line(field(s, width)),
{
    let narrow = field(s, width);
    let wide = field(s, wider);
    if narrow.contains('\n') {
        let i = narrow.index_of('\n');
        assert(narrow[i] == '\n');
        assert(wide[i] == '\n');
    }
}

/// The lines of a new header are those of a header, and plain.
proof fn lemma_header_lines(
    file_name: Seq<char>,
    login: Seq<char>,
    email: Seq<char>,
    timestamp: Seq<char>,
    more: Seq<Seq<char>>,
)
    requires
        fits_header(file_name, login, email),
        is_stamp(timestamp),
    ensures
        header_stands_in(header_lines(file_name, login, email, timestamp) + more),
        forall|i: int|
            0 <= i < HEADER_LINE_COUNT ==> plain_line(
                #[trigger] header_lines(file_name, login, email, timestamp)[i],
            ),
{
    lemma_fixed_lines();
    lemma_fixed_parts();
    lemma_stamp_single_line(timestamp);
    lemma_narrower_field(login, UPDATED_LOGIN_WIDTH as nat, CREATED_LOGIN_WIDTH as nat);
    lemma_created_line(login, timestamp);
    lemma_updated_line(login, timestamp);
    let name = field(file_name, FILE_FIELD_WIDTH as nat);
    let file = file_line(file_name);
    lemma_single_line_concat(FILE_LINE_START@, name);
    lemma_single_line_concat(FILE_LINE_START@ + name, FILE_LINE_END@);
    assert(FILE_LINE_START@ =~= file.take(FILE_LINE_START@.len() as int));
    assert(FILE_LINE_END@ =~= file.skip(file.len() - FILE_LINE_END@.len()));
    assert(file.last() == FILE_LINE_END@.last());
    let shown = field(author_text(login, email), AUTHOR_FIELD_WIDTH as nat);
    let author = author_line(login, email);
    lemma_single_line_concat(AUTHOR_LINE_START@, shown);
    lemma_single_line_concat(AUTHOR_LINE_START@ + shown, AUTHOR_LINE_END@);
    assert(AUTHOR_LINE_START@ =~= author.take(AUTHOR_LINE_START@.len() as int));
    assert(AUTHOR_LINE_END@ =~= author.skip(author.len() - AUTHOR_LINE_END@.len()));
    assert(author.last() == AUTHOR_LINE_END@.last());
    let lines = header_lines(file_name, login, email, timestamp);
    let all = lines + more;
    assert forall|i: int| 0 <= i < HEADER_LINE_COUNT implies #[trigger] all[i].len()
        == HEADER_WIDTH by {
        assert(all[i] == lines[i]);
        assert(i == 0 || i == 1 || i == 2 || i == 3 || i == 4 || i == 5 || i == 6 || i == 7 || i
            == 8 || i == 9 || i == 10);
    }
    assert forall|i: int| 0 <= i < HEADER_LINE_COUNT implies plain_line(#[trigger] lines[i]) by {
        assert(i == 0 || i == 1 || i == 2 || i == 3 || i == 4 || i == 5 || i == 6 || i == 7 || i
            == 8 || i == 9 || i == 10);
    }
}

/// Whether lines start with a header rests on the first lines alone.
proof fn lemma_header_prefix(lines: Seq<Seq<char>>, others: Seq<Seq<char>>)
    requires
        header_stands_in(lines),
        others.len() >= HEADER_LINE_COUNT,
        others.take(HEADER_LINE_COUNT as int) == lines.take(HEADER_LINE_COUNT as int),
    ensures
        header_stands_in(others),
{
    assert forall|i: int| 0 <= i < HEADER_LINE_COUNT implies #[trigger] others[i] == lines[i] by {
        assert(others.take(HEADER_LINE_COUNT as int)[i] == lines.take(HEADER_LINE_COUNT as int)[i]);
    }
}

/// The lines of a header are plain.
pub proof fn lemma_header_plain(lines: Seq<Seq<char>>)
    requires
        header_stands_in(lines),
        forall|i: int| 0 <= i < lines.len() ==> single_line(#[trigger] lines[i]),
    ensures
        forall|i: int| 0 <= i < HEADER_LINE_COUNT ==> plain_line(#[trigger] lines[i]),
{
    lemma_fixed_lines();
    lemma_fixed_parts();
    reveal_strlit("*/");
    assert forall|i: int| 0 <= i < HEADER_LINE_COUNT implies plain_line(#[trigger] lines[i]) by {
        assert(i == 0 || i == 1 || i == 2 || i == 3 || i == 4 || i == 5 || i == 6 || i == 7 || i
            == 8 || i == 9 || i == 10);
        if i == 3 {
            assert(lines[3].last() == FILE_LINE_END@.last());
        } else if i == 5 {
            assert(lines[5].last() == AUTHOR_LINE_END@.last());
        } else if i == 7 {
            assert(lines[7].subrange(78, 80)[1] == '/');
        } else if i == 8 {
            assert(lines[8].subrange(78, 80)[1] == '/');
        }
    }
}

/// The lines of a document with its update line written anew.
spec fn with_update(source: Seq<char>, line: Seq<char>) -> Seq<Seq<char>> {
    document_lines(source).update(HEADER_UPDATED_LINE_INDEX as int, line)
}

/// A new update line keeps a header, and keeps the lines free of line feeds.
proof fn lemma_with_update(source: Seq<char>, login: Seq<char>, timestamp: Seq<char>)
    requires
        has_header(source),
        single_line(timestamp),
        single_line(field(login, UPDATED_LOGIN_WIDTH as nat)),
    ensures
        forall|i: int|
            0 <= i < document_lines(source).len() ==> single_line(
                #[trigger] with_update(source, updated_line(login, timestamp))[i],
            ),
        is_stamp(timestamp) ==> header_stands_in(
            with_update(source, updated_line(login, timestamp)),
        ),
        source.len() > 0,
        !ends_with_line_feed(source) ==> with_update(
            source,
            updated_line(login, timestamp),
        ).last().len() > 0,
{
    let line = updated_line(login, timestamp);
    let lines = document_lines(source);
    let new = with_update(source, line);
    lemma_document_lines_shape(source);
    lemma_updated_line_plain(login, timestamp);
    if source.len() == 0 {
        assert(unix_newlines(source) =~= source);
        assert(lines.len() == 0);
    }
    assert forall|i: int| 0 <= i < lines.len() implies single_line(#[trigger] new[i]) by {
        assert(single_line(lines[i]));
    }
    if is_stamp(timestamp) {
        lemma_updated_line(login, timestamp);
        assert forall|i: int| 0 <= i < HEADER_LINE_COUNT implies #[trigger] new[i].len()
            == HEADER_WIDTH by {
            assert(lines[i].len() == HEADER_WIDTH);
        }
    }
}

/// Carriage returns before line feeds do not come about where two texts meet,
/// unless the first ends with the one and the second starts with the other.
proof fn lemma_no_crlf_concat(a: Seq<char>, b: Seq<char>)
    requires
        !has_crlf(a),
        !has_crlf(b),
        !(ends_with_cr(a) && b.len() > 0 && b[0] == '\n'),
    ensures
        !has_crlf(a + b),
{
    let s = a + b;
    assert forall|i: int| !crlf_at(s, i) by {
        if crlf_at(s, i) {
            if i + 1 < a.len() {
                assert(crlf_at(a, i));
            } else if i >= a.len() {
                assert(crlf_at(b, i - a.len()));
            } else {
                assert(s[i] == a.last());
                assert(s[i + 1] == b[0]);
            }
        }
    }
}

/// A line without line feeds holds no carriage return before one.
proof fn lemma_single_line_no_crlf(line: Seq<char>)
    requires
        single_line(line),
    ensures
        !has_crlf(line),
{
    assert forall|i: int| !crlf_at(line, i) by {
        if crlf_at(line, i) {
            assert(line.contains(line[i + 1]));
        }
    }
}

/// Lines joined by line feeds hold no carriage return before one, if none of
/// them but the last ends with a carriage return.
proof fn lemma_joined_no_crlf(lines: Seq<Seq<char>>)
    requires
        forall|i: int| 0 <= i < lines.len() ==> single_line(#[trigger] lines[i]),
        forall|i: int| 0 <= i < lines.len() - 1 ==> !ends_with_cr(#[trigger] lines[i]),
    ensures
        !has_crlf(joined_lines(lines, seq!['\n'])),
        lines.len() > 0 && !ends_with_cr(lines.last()) ==> !ends_with_cr(
            joined_lines(lines, seq!['\n']),
        ),
    decreases lines.len(),
{
    let newline = seq!['\n'];
    if lines.len() == 0 {
        assert(forall|i: int| !crlf_at(joined_lines(lines, newline), i));
    } else if lines.len() == 1 {
        lemma_single_line_no_crlf(lines[0]);
    } else {
        let tail = lines.skip(1);
        assert forall|i: int| 0 <= i < tail.len() implies single_line(#[trigger] tail[i]) by {
            assert(tail[i] == lines[i + 1]);
        }
        assert forall|i: int| 0 <= i < tail.len() - 1 implies !ends_with_cr(#[trigger] tail[i]) by {
            assert(tail[i] == lines[i + 1]);
        }
        lemma_joined_no_crlf(tail);
        lemma_single_line_no_crlf(lines[0]);
        assert(forall|i: int| !crlf_at(newline, i));
        lemma_no_crlf_concat(lines[0], newline);
        assert(!ends_with_cr(lines[0] + newline));
        lemma_no_crlf_concat(lines[0] + newline, joined_lines(tail, newline));
        assert(tail.last() == lines.last());
        let all = joined_lines(lines, newline);
        if joined_lines(tail, newline).len() > 0 {
            assert(all.last() == joined_lines(tail, newline).last());
        } else {
            assert(all.last() == '\n');
        }
    }
}

// ---------------------------------------------------------------------------
// Laws
// ---------------------------------------------------------------------------

/// A new header is recognised as one, whatever stands behind it, and it adds
/// its lines in front of the others.
pub proof fn new_header_is_recognised(
    file_name: Seq<char>,
    login: Seq<char>,
    email: Seq<char>,
    timestamp: Seq<char>,
    newline: Seq<char>,
    rest: Seq<char>,
)
    requires
        fits_header(file_name, login, email),
        is_stamp(timestamp),
        is_line_break(newline),
    ensures
        has_header(header_block(file_name, login, email, timestamp, newline) + rest),
        document_lines(header_block(file_name, login, email, timestamp, newline) + rest)
            == header_lines(file_name, login, email, timestamp) + document_lines(rest),
{
    let lines = header_lines(file_name, login, email, timestamp);
    lemma_header_lines(file_name, login, email, timestamp, document_lines(rest));
    lemma_document_lines_block(lines, newline, rest);
}

/// Whether a document has a header is told by its first lines alone.
pub proof fn first_lines_decide(a: Seq<char>, b: Seq<char>)
    requires
        document_lines(a).len() >= HEADER_LINE_COUNT,
        document_lines(b).len() >= HEADER_LINE_COUNT,
        document_lines(a).take(HEADER_LINE_COUNT as int) == document_lines(b).take(
            HEADER_LINE_COUNT as int,
        ),
    ensures
        has_header(a) == has_header(b),
{
    if has_header(a) {
        lemma_header_prefix(document_lines(a), document_lines(b));
    }
    if has_header(b) {
        lemma_header_prefix(document_lines(b), document_lines(a));
    }
}

/// Whether a document has a header does not depend on its line breaks.
pub proof fn line_breaks_do_not_decide(lines: Seq<Seq<char>>, rest: Seq<char>)
    requires
        lines.len() > 0,
        forall|i: int| 0 <= i < lines.len() ==> plain_line(#[trigger] lines[i]),
    ensures
        has_header(joined_lines(lines, seq!['\n']) + seq!['\n'] + rest) == has_header(
            joined_lines(lines, seq!['\r', '\n']) + seq!['\r', '\n'] + rest,
        ),
{
    lemma_document_lines_block(lines, seq!['\n'], rest);
    lemma_document_lines_block(lines, seq!['\r', '\n'], rest);
}

/// Each line of a new header is 80 characters wide.
pub proof fn new_header_is_wide(
    file_name: Seq<char>,
    login: Seq<char>,
    email: Seq<char>,
    timestamp: Seq<char>,
)
    requires
        timestamp.len() == 19,
    ensures
        header_lines(file_name, login, email, timestamp).len() == HEADER_LINE_COUNT,
        forall|i: int|
            0 <= i < HEADER_LINE_COUNT ==> #[trigger] header_lines(
                file_name,
                login,
                email,
                timestamp,
            )[i].len() == HEADER_WIDTH,
{
    lemma_fixed_lines();
    lemma_fixed_parts();
    let lines = header_lines(file_name, login, email, timestamp);
    assert forall|i: int| 0 <= i < HEADER_LINE_COUNT implies #[trigger] lines[i].len()
        == HEADER_WIDTH by {
        assert(i == 0 || i == 1 || i == 2 || i == 3 || i == 4 || i == 5 || i == 6 || i == 7 || i
            == 8 || i == 9 || i == 10);
    }
}

/// A header shows the name of its file in full, if it has room for it.
pub proof fn new_header_names_its_file(
    file_name: Seq<char>,
    login: Seq<char>,
    email: Seq<char>,
    timestamp: Seq<char>,
)
    requires
        file_name.len() <= FILE_FIELD_WIDTH,
    ensures
        header_lines(file_name, login, email, timestamp)[3].subrange(
            FILE_LINE_START@.len() as int,
            (FILE_LINE_START@.len() + file_name.len()) as int,
        ) == file_name,
{
    let line = file_line(file_name);
    let start = FILE_LINE_START@.len() as int;
    assert(line.subrange(start, start + file_name.len()) =~= file_name);
}

/// What the clock shows in a year of four digits is a timestamp that the
/// patterns of a header accept.
pub proof fn clock_shows_stamps(timestamp: Seq<char>)
    requires
        clock_text(timestamp),
        timestamp.len() == 19,
    ensures
        is_stamp(timestamp),
{
    let year = timestamp.take(4);
    let after = timestamp.skip(4);
    assert forall|i: int| 0 <= i < 4 implies year[i] == timestamp[i] by {}
    assert forall|i: int| 0 <= i < 15 implies after[i] == #[trigger] timestamp[i + 4] by {}
    assert(year[0] == timestamp[0] && year[1] == timestamp[1] && year[2] == timestamp[2]
        && year[3] == timestamp[3]);
    assert(after[0] == timestamp[4] && after[1] == timestamp[5] && after[2] == timestamp[6]
        && after[3] == timestamp[7] && after[4] == timestamp[8] && after[5] == timestamp[9]
        && after[6] == timestamp[10] && after[7] == timestamp[11] && after[8] == timestamp[12]
        && after[9] == timestamp[13] && after[10] == timestamp[14] && after[11] == timestamp[15]
        && after[12] == timestamp[16] && after[13] == timestamp[17] && after[14]
        == timestamp[18]);
}

/// Bringing the header of a document up to date changes its update line and no
/// other line.
///
/// Documents are left out in which a line ends with a carriage return and has
/// a line break behind it: written again, that carriage return is taken for a
/// part of the line break.
pub proof fn update_changes_one_line(
    source: Seq<char>,
    file_name: Seq<char>,
    login: Seq<char>,
    email: Seq<char>,
    timestamp: Seq<char>,
)
    requires
        has_header(source),
        clean_breaks(source),
        single_line(timestamp),
        single_line(field(login, UPDATED_LOGIN_WIDTH as nat)),
    ensures
        document_lines(rendered(source, file_name, login, email, timestamp)) == document_lines(
            source,
        ).update(HEADER_UPDATED_LINE_INDEX as int, updated_line(login, timestamp)),
        ends_with_line_feed(rendered(source, file_name, login, email, timestamp))
            == ends_with_line_feed(source),
{
    let newline = line_break(source);
    let line = updated_line(login, timestamp);
    let old_lines = document_lines(source);
    let lines = with_update(source, line);
    let n = lines.len() as int;
    let output = rendered(source, file_name, login, email, timestamp);
    lemma_with_update(source, login, timestamp);
    lemma_updated_line_plain(login, timestamp);
    assert forall|i: int| 0 <= i < n && terminated(source, i) implies plain_line(
        #[trigger] lines[i],
    ) by {
        if i != HEADER_UPDATED_LINE_INDEX {
            assert(lines[i] == old_lines[i]);
        }
    }
    if ends_with_line_feed(source) {
        lemma_document_lines_block(lines, newline, seq![]);
        assert(output =~= joined_lines(lines, newline) + newline + Seq::<char>::empty());
        assert(document_lines(seq![]).len() == 0);
        assert(lines + document_lines(seq![]) =~= lines);
    } else {
        let last = lines.last();
        lemma_joined_lines_cut(lines, newline, n - 1);
        assert(lines.skip(n - 1) =~= seq![last]);
        assert(single_line(last)) by {
            assert(last == lines[n - 1]);
        }
        assert forall|i: int| 0 <= i < n - 1 implies plain_line(
            #[trigger] lines.take(n - 1)[i],
        ) by {
            assert(lines.take(n - 1)[i] == lines[i]);
            assert(terminated(source, i));
        }
        lemma_document_lines_block(lines.take(n - 1), newline, last);
        lemma_document_lines_single(last);
        assert(output =~= joined_lines(lines.take(n - 1), newline) + newline + last);
        assert(lines.take(n - 1) + seq![last] =~= lines);
        assert(output.last() == last.last());
        assert(last.contains(last.last()));
    }
}

/// A document with a header that was brought up to date has a header.
pub proof fn rendered_document_has_header(
    source: Seq<char>,
    file_name: Seq<char>,
    login: Seq<char>,
    email: Seq<char>,
    timestamp: Seq<char>,
)
    requires
        is_stamp(timestamp),
        if has_header(source) {
            single_line(field(login, UPDATED_LOGIN_WIDTH as nat))
        } else {
            fits_header(file_name, login, email)
        },
    ensures
        has_header(rendered(source, file_name, login, email, timestamp)),
{
    let newline = line_break(source);
    let output = rendered(source, file_name, login, email, timestamp);
    if !has_header(source) {
        new_header_is_recognised(file_name, login, email, timestamp, newline, source);
    } else {
        let count = HEADER_LINE_COUNT as int;
        let lines = with_update(source, updated_line(login, timestamp));
        let tail = last_break(source);
        lemma_stamp_single_line(timestamp);
        lemma_with_update(source, login, timestamp);
        lemma_header_plain(lines);
        if lines.len() > count {
            let head = lines.take(count);
            let rest = joined_lines(lines.skip(count), newline) + tail;
            lemma_joined_lines_cut(lines, newline, count);
            assert forall|i: int| 0 <= i < count implies plain_line(#[trigger] head[i]) by {
                assert(head[i] == lines[i]);
            }
            lemma_document_lines_block(head, newline, rest);
            assert(output =~= joined_lines(head, newline) + newline + rest);
            assert((head + document_lines(rest)).take(count) =~= head);
            lemma_header_prefix(lines, document_lines(output));
        } else if ends_with_line_feed(source) {
            lemma_document_lines_block(lines, newline, seq![]);
            assert(output =~= joined_lines(lines, newline) + newline + Seq::<char>::empty());
            assert((lines + document_lines(seq![])).take(count) =~= lines.take(count));
            lemma_header_prefix(lines, document_lines(output));
        } else {
            let head = lines.take(count - 1);
            let last = lines[count - 1];
            lemma_joined_lines_cut(lines, newline, count - 1);
            assert(lines.skip(count - 1) =~= seq![last]);
            assert forall|i: int| 0 <= i < count - 1 implies plain_line(#[trigger] head[i]) by {
                assert(head[i] == lines[i]);
            }
            assert(plain_line(last));
            lemma_document_lines_block(head, newline, last);
            lemma_document_lines_single(last);
            assert(output =~= joined_lines(head, newline) + newline + last);
            assert(head + seq![last] =~= lines);
            lemma_header_prefix(lines, document_lines(output));
        }
    }
}

/// Bringing the header of a document up to date keeps its line breaks.
pub proof fn update_keeps_line_breaks(
    source: Seq<char>,
    file_name: Seq<char>,
    login: Seq<char>,
    email: Seq<char>,
    timestamp: Seq<char>,
)
    requires
        has_header(source),
        single_line(timestamp),
        single_line(field(login, UPDATED_LOGIN_WIDTH as nat)),
    ensures
        line_break(rendered(source, file_name, login, email, timestamp)) == line_break(source),
{
    let newline = line_break(source);
    let lines = with_update(source, updated_line(login, timestamp));
    let output = rendered(source, file_name, login, email, timestamp);
    lemma_with_update(source, login, timestamp);
    lemma_updated_line_plain(login, timestamp);
    if has_crlf(source) {
        lemma_joined_lines_cut(lines, newline, 1);
        let at = joined_lines(lines.take(1), newline).len() as int;
        assert(crlf_at(output, at));
    } else {
        lemma_unix_breaks(source);
        assert forall|i: int| 0 <= i < lines.len() && terminated(source, i) implies !ends_with_cr(
            #[trigger] lines[i],
        ) by {
            if i != HEADER_UPDATED_LINE_INDEX {
                assert(lines[i] == document_lines(source)[i]);
            }
        }
        assert forall|i: int| 0 <= i < lines.len() - 1 implies !ends_with_cr(
            #[trigger] lines[i],
        ) by {
            assert(terminated(source, i));
        }
        lemma_joined_no_crlf(lines);
        let tail = last_break(source);
        assert(forall|i: int| !crlf_at(tail, i));
        if ends_with_line_feed(source) {
            let n = lines.len() as int;
            assert(terminated(source, n - 1));
            assert(!ends_with_cr(lines[n - 1]));
        }
        lemma_no_crlf_concat(joined_lines(lines, newline), tail);
    }
}

/// Of several updates of a header only the last one shows, whoever made them.
///
/// Documents are left out in which a line ends with a carriage return and has
/// a line break behind it, as in `update_changes_one_line`.
pub proof fn last_update_wins(
    source: Seq<char>,
    first_name: Seq<char>,
    first_login: Seq<char>,
    first_email: Seq<char>,
    first: Seq<char>,
    file_name: Seq<char>,
    login: Seq<char>,
    email: Seq<char>,
    timestamp: Seq<char>,
)
    requires
        has_header(source),
        clean_breaks(source),
        is_stamp(first),
        single_line(field(first_login, UPDATED_LOGIN_WIDTH as nat)),
    ensures
        rendered(
            rendered(source, first_name, first_login, first_email, first),
            file_name,
            login,
            email,
            timestamp,
        ) == rendered(source, file_name, login, email, timestamp),
{
    lemma_stamp_single_line(first);
    let between = rendered(source, first_name, first_login, first_email, first);
    rendered_document_has_header(source, first_name, first_login, first_email, first);
    update_changes_one_line(source, first_name, first_login, first_email, first);
    update_keeps_line_breaks(source, first_name, first_login, first_email, first);
    let at = HEADER_UPDATED_LINE_INDEX as int;
    let line = updated_line(login, timestamp);
    assert(document_lines(between).update(at, line) =~= document_lines(source).update(at, line));
}

/// A new header takes over the line break of the document.
pub proof fn new_header_keeps_line_breaks(
    source: Seq<char>,
    file_name: Seq<char>,
    login: Seq<char>,
    email: Seq<char>,
    timestamp: Seq<char>,
)
    requires
        !has_header(source),
        fits_header(file_name, login, email),
        is_stamp(timestamp),
    ensures
        line_break(rendered(source, file_name, login, email, timestamp)) == line_break(source),
{
    let newline = line_break(source);
    let lines = header_lines(file_name, login, email, timestamp);
    let block = header_block(file_name, login, email, timestamp, newline);
    let output = rendered(source, file_name, login, email, timestamp);
    if has_crlf(source) {
        let i = choose|i: int| crlf_at(source, i);
        assert(crlf_at(output, i + block.len()));
    } else {
        lemma_header_lines(file_name, login, email, timestamp, Seq::empty());
        assert forall|i: int| 0 <= i < lines.len() implies single_line(#[trigger] lines[i])
            && !ends_with_cr(lines[i]) by {
            assert(plain_line(lines[i]));
        }
        lemma_joined_no_crlf(lines);
        assert(forall|i: int| !crlf_at(newline, i));
        lemma_no_crlf_concat(joined_lines(lines, newline), newline);
        lemma_no_crlf_concat(block, source);
    }
}

/// Bringing the header of a document up to date once more, by the same author
/// at the same time, changes nothing.
///
/// Documents are left out that have no header and use different line breaks:
/// the first update leaves them, the second makes them one.
pub proof fn second_update_changes_nothing(
    source: Seq<char>,
    file_name: Seq<char>,
    login: Seq<char>,
    email: Seq<char>,
    timestamp: Seq<char>,
)
    requires
        is_stamp(timestamp),
        if has_header(source) {
            clean_breaks(source) && single_line(field(login, UPDATED_LOGIN_WIDTH as nat))
        } else {
            uniform_breaks(source) && fits_header(file_name, login, email)
        },
    ensures
        rendered(
            rendered(source, file_name, login, email, timestamp),
            file_name,
            login,
            email,
            timestamp,
        ) == rendered(source, file_name, login, email, timestamp),
{
    if has_header(source) {
        last_update_wins(
            source,
            file_name,
            login,
            email,
            timestamp,
            file_name,
            login,
            email,
            timestamp,
        );
    } else {
        let newline = line_break(source);
        let output = rendered(source, file_name, login, email, timestamp);
        let header = header_lines(file_name, login, email, timestamp);
        let rest = document_lines(source);
        let all = header + rest;
        new_header_is_recognised(file_name, login, email, timestamp, newline, source);
        new_header_keeps_line_breaks(source, file_name, login, email, timestamp);
        assert(all.update(HEADER_UPDATED_LINE_INDEX as int, updated_line(login, timestamp))
            =~= all);
        if source.len() == 0 {
            assert(unix_newlines(source) =~= source);
            assert(all =~= header);
            assert(output.last() == '\n');
            assert(output =~= joined_lines(all, newline) + newline);
        } else {
            lemma_document_lines_shape(source);
            lemma_joined_lines_cut(all, newline, HEADER_LINE_COUNT as int);
            assert(all.take(HEADER_LINE_COUNT as int) =~= header);
            assert(all.skip(HEADER_LINE_COUNT as int) =~= rest);
            assert(output.last() == source.last());
            assert(output =~= joined_lines(all, newline) + last_break(source));
        }
    }
}

} // verus!
