//! What an editor makes of the edits that it is sent.

use vstd::prelude::*;

use crate::edits::{
    end_character, end_line, is_full_document_edit, is_header_edit, is_signed_header_edit,
    no_file_name_text, positions_fit, Position, TextEdit, WorkspaceEdit,
};
use crate::header::{
    has_header, header_block, rendered, updated_line, HEADER_UPDATED_LINE_INDEX, HEADER_WIDTH,
    UPDATED_LOGIN_WIDTH,
};
use crate::header_laws::{lemma_header_plain, lemma_updated_line_plain};
use crate::lines::{
    document_lines, ends_with_cr, is_line_break, last_break, lemma_document_lines_shape,
    lemma_joined_lines_cut, lemma_raw_lines, plain_line, uniform_breaks,
};
use crate::settings::{author_domain, author_login, HeaderSettings};
use crate::text::{
    field, joined_lines, lemma_line_end, lemma_line_end_unique, line_break, line_end, lines_of,
    single_line, utf16_units, without_cr,
};
use crate::uri::uri_file_name;

verus! {

// ---------------------------------------------------------------------------
// What an edit does
// ---------------------------------------------------------------------------

/// What stands in `s` behind its last line feed.
pub open spec fn last_line(s: Seq<char>) -> Seq<char>
    decreases s.len(),
{
    if s.len() == 0 || s.last() == '\n' {
        seq![]
    } else {
        last_line(s.drop_last()).push(s.last())
    }
}

/// How many line feeds stand in `s`.
pub open spec fn line_feeds(s: Seq<char>) -> nat {
    s.filter(|c: char| c == '\n').len()
}

/// The place before the character with this index has this position: as many
/// line feeds stand before it, and as many UTF-16 code units in its line.
pub open spec fn stands_at(s: Seq<char>, index: int, position: Position) -> bool {
    &&& 0 <= index <= s.len()
    &&& line_feeds(s.take(index)) == position.line
    &&& utf16_units(last_line(s.take(index))) == position.character
}

/// The edit puts its text between these two places of the document.
pub open spec fn replaces(
    edit: TextEdit,
    source: Seq<char>,
    start: int,
    end: int,
    output: Seq<char>,
) -> bool {
    &&& start <= end
    &&& stands_at(source, start, edit.range.start)
    &&& stands_at(source, end, edit.range.end)
    &&& output == source.take(start) + edit.new_text@ + source.skip(end)
}

/// The edit turns the document into this one.
pub open spec fn gives(edit: TextEdit, source: Seq<char>, output: Seq<char>) -> bool {
    exists|start: int, end: int| replaces(edit, source, start, end, output)
}

// ---------------------------------------------------------------------------
// Places in documents
// ---------------------------------------------------------------------------

/// The lines before the end of a document are counted by its line feeds.
pub proof fn lines_are_counted_by_line_feeds(s: Seq<char>)
    ensures
        end_line(s) == line_feeds(s),
    decreases s.len(),
{
    reveal(Seq::filter);
    if s.len() > 0 {
        lines_are_counted_by_line_feeds(s.drop_last());
    }
}

/// The column of the end of a document is counted in UTF-16 code units behind
/// the last line feed, without carriage returns.
pub proof fn columns_are_counted_without_carriage_returns(s: Seq<char>)
    ensures
        end_character(s) == utf16_units(last_line(s).filter(|c: char| c != '\r')),
        last_line(s).len() <= s.len(),
        last_line(s) == s.skip(s.len() - last_line(s).len()),
        !last_line(s).contains('\n'),
        last_line(s).len() < s.len() ==> s[s.len() - last_line(s).len() - 1] == '\n',
    decreases s.len(),
{
    reveal(Seq::filter);
    if s.len() > 0 && s.last() != '\n' {
        let body = s.drop_last();
        columns_are_counted_without_carriage_returns(body);
        let line = last_line(s);
        let before = last_line(body);
        assert(line.drop_last() =~= before);
        assert(line =~= s.skip(s.len() - line.len()));
        let kept = line.filter(|c: char| c != '\r');
        if s.last() != '\r' {
            assert(kept.drop_last() =~= before.filter(|c: char| c != '\r'));
        }
        assert forall|i: int| 0 <= i < line.len() implies line[i] != '\n' by {
            if i < before.len() {
                assert(before.contains(before[i]));
            }
        }
    } else {
        assert(last_line(s) =~= s.skip(s.len() as int));
    }
}

/// Of two places in a document the later one has the later position.
proof fn lemma_places_grow(s: Seq<char>, i: int, j: int)
    requires
        0 <= i < j <= s.len(),
    ensures
        line_feeds(s.take(i)) < line_feeds(s.take(j)) || (line_feeds(s.take(i)) == line_feeds(
            s.take(j),
        ) && utf16_units(last_line(s.take(i))) < utf16_units(last_line(s.take(j)))),
    decreases j - i,
{
    let before = s.take(j - 1);
    let after = s.take(j);
    assert(after.drop_last() =~= before);
    assert(last_line(before).push(after.last()).drop_last() =~= last_line(before));
    lines_are_counted_by_line_feeds(before);
    lines_are_counted_by_line_feeds(after);
    if i < j - 1 {
        lemma_places_grow(s, i, j - 1);
    }
}

/// Only one place has a position.
proof fn lemma_place_unique(s: Seq<char>, i: int, j: int, position: Position)
    requires
        stands_at(s, i, position),
        stands_at(s, j, position),
    ensures
        i == j,
{
    if i < j {
        lemma_places_grow(s, i, j);
    } else if j < i {
        lemma_places_grow(s, j, i);
    }
}

/// The end of two texts, the first of which ends with a line feed.
proof fn lemma_end_behind_break(a: Seq<char>, b: Seq<char>)
    requires
        a.len() == 0 || a.last() == '\n',
    ensures
        end_line(a + b) == end_line(a) + end_line(b),
        last_line(a + b) == last_line(b),
    decreases b.len(),
{
    if b.len() == 0 {
        assert(a + b =~= a);
    } else {
        assert((a + b).drop_last() =~= a + b.drop_last());
        lemma_end_behind_break(a, b.drop_last());
    }
}

/// The end of a text without line feeds.
proof fn lemma_single_line_end(line: Seq<char>)
    requires
        single_line(line),
    ensures
        end_line(line) == 0,
        last_line(line) == line,
    decreases line.len(),
{
    if line.len() > 0 {
        let body = line.drop_last();
        assert(line.contains(line.last()));
        assert(single_line(body)) by {
            assert forall|i: int| 0 <= i < body.len() implies body[i] != '\n' by {
                assert(line.contains(line[i]));
            }
        }
        lemma_single_line_end(body);
        assert(body.push(line.last()) =~= line);
    }
}

/// The place behind a line break.
proof fn lemma_break_end(line: Seq<char>, newline: Seq<char>)
    requires
        single_line(line),
        is_line_break(newline),
    ensures
        end_line(line + newline) == 1,
        last_line(line + newline) == Seq::<char>::empty(),
{
    let s = line + newline;
    assert(s.last() == '\n');
    let body = s.drop_last();
    if newline == seq!['\n'] {
        assert(body =~= line);
    } else {
        assert(body =~= line.push('\r'));
    }
    assert(single_line(body)) by {
        assert forall|i: int| 0 <= i < body.len() implies body[i] != '\n' by {
            if i < line.len() {
                assert(line.contains(line[i]));
            }
        }
    }
    lemma_single_line_end(body);
}

/// The place behind several lines.
proof fn lemma_lines_end(lines: Seq<Seq<char>>, newline: Seq<char>)
    requires
        lines.len() > 0,
        forall|i: int| 0 <= i < lines.len() ==> single_line(#[trigger] lines[i]),
        is_line_break(newline),
    ensures
        end_line(joined_lines(lines, newline) + newline) == lines.len(),
        last_line(joined_lines(lines, newline) + newline) == Seq::<char>::empty(),
    decreases lines.len(),
{
    lemma_break_end(lines[0], newline);
    if lines.len() > 1 {
        let tail = lines.skip(1);
        assert forall|i: int| 0 <= i < tail.len() implies single_line(#[trigger] tail[i]) by {
            assert(tail[i] == lines[i + 1]);
        }
        lemma_lines_end(tail, newline);
        lemma_end_behind_break(lines[0] + newline, joined_lines(tail, newline) + newline);
        assert(joined_lines(lines, newline) + newline =~= (lines[0] + newline) + (joined_lines(
            tail,
            newline,
        ) + newline));
    }
}

/// A text has at most two UTF-16 code units for each character.
proof fn lemma_utf16_bound(s: Seq<char>)
    ensures
        utf16_units(s) <= 2 * s.len(),
    decreases s.len(),
{
    if s.len() > 0 {
        lemma_utf16_bound(s.drop_last());
    }
}

// ---------------------------------------------------------------------------
// Single lines of documents
// ---------------------------------------------------------------------------

/// Where a line starts.
spec fn line_start(s: Seq<char>, n: nat) -> int
    decreases n,
{
    if n == 0 {
        0
    } else {
        line_end(s) + 1 + line_start(s.skip(line_end(s) + 1), (n - 1) as nat)
    }
}

/// The lines of a document that starts with a line and its line break.
proof fn lemma_lines_of_break(line: Seq<char>, newline: Seq<char>, rest: Seq<char>)
    requires
        single_line(line),
        is_line_break(newline),
        newline == seq!['\n'] ==> !ends_with_cr(line),
    ensures
        lines_of(line + newline + rest) == seq![line] + lines_of(rest),
{
    let s = line + newline + rest;
    let end = line.len() + newline.len() - 1;
    assert forall|i: int| 0 <= i < end implies #[trigger] s[i] != '\n' by {
        if i < line.len() {
            assert(line.contains(line[i]));
            assert(s[i] == line[i]);
        }
    }
    assert(s[end] == '\n');
    lemma_line_end_unique(s, end);
    assert(without_cr(s.take(end)) =~= line) by {
        if newline == seq!['\n'] {
            assert(s.take(end) =~= line);
        } else {
            assert(s.take(end) =~= line.push('\r'));
        }
    }
    assert(s.skip(end + 1) =~= rest);
}

/// A line stands where it starts, behind as many line feeds as its number
/// says.
proof fn lemma_line_at(s: Seq<char>, n: nat)
    requires
        n < lines_of(s).len(),
    ensures
        ({
            let start = line_start(s, n);
            let line = lines_of(s)[n as int];
            let end = start + line.len();
            &&& 0 <= start <= end <= s.len()
            &&& single_line(line)
            &&& end_line(s.take(start)) == n
            &&& last_line(s.take(start)) == Seq::<char>::empty()
            &&& end_line(s.take(end)) == n
            &&& last_line(s.take(end)) == line
        }),
    decreases n,
{
    lemma_line_end(s);
    let end = line_end(s);
    let line = lines_of(s)[n as int];
    if n == 0 {
        assert(s.take(0) =~= Seq::<char>::empty());
        assert(s.take(line.len() as int) =~= line);
        assert(single_line(line));
        lemma_single_line_end(line);
    } else {
        let first = s.take(end + 1);
        let rest = s.skip(end + 1);
        let m = (n - 1) as nat;
        lemma_line_at(rest, m);
        assert(lines_of(rest)[m as int] == line);
        assert(first =~= s.take(end) + seq!['\n']);
        lemma_break_end(s.take(end), seq!['\n']);
        let start = line_start(rest, m);
        lemma_end_behind_break(first, rest.take(start));
        assert(first + rest.take(start) =~= s.take(end + 1 + start));
        lemma_end_behind_break(first, rest.take(start + line.len()));
        assert(first + rest.take(start + line.len()) =~= s.take(end + 1 + start + line.len()));
    }
}

/// Writing one line anew changes no other line.
proof fn lemma_replaced_line(s: Seq<char>, n: nat, new: Seq<char>)
    requires
        n < lines_of(s).len(),
        plain_line(new),
        new.len() > 0,
    ensures
        lines_of(
            s.take(line_start(s, n)) + new + s.skip(
                line_start(s, n) + lines_of(s)[n as int].len(),
            ),
        ) == lines_of(s).update(n as int, new),
    decreases n,
{
    lemma_line_end(s);
    lemma_line_at(s, n);
    let end = line_end(s);
    let line = lines_of(s)[n as int];
    let start = line_start(s, n);
    let output = s.take(start) + new + s.skip(start + line.len());
    if n == 0 {
        if end < s.len() {
            let rest = s.skip(end + 1);
            let newline = if ends_with_cr(s.take(end)) {
                seq!['\r', '\n']
            } else {
                seq!['\n']
            };
            assert(output =~= new + newline + rest);
            lemma_lines_of_break(new, newline, rest);
            assert(seq![new] + lines_of(rest) =~= lines_of(s).update(0, new));
        } else {
            assert(output =~= new);
            assert forall|i: int| 0 <= i < new.len() implies #[trigger] new[i] != '\n' by {
                assert(new.contains(new[i]));
            }
            lemma_line_end_unique(new, new.len() as int);
            assert(seq![new] =~= lines_of(s).update(0, new));
        }
    } else {
        let rest = s.skip(end + 1);
        let m = (n - 1) as nat;
        let behind = line_start(rest, m);
        lemma_line_at(rest, m);
        lemma_replaced_line(rest, m, new);
        let later = rest.take(behind) + new + rest.skip(behind + line.len());
        assert(output =~= s.take(end + 1) + later);
        assert forall|i: int| 0 <= i < end implies #[trigger] output[i] != '\n' by {
            assert(output[i] == s[i]);
        }
        assert(output[end] == s[end]);
        lemma_line_end_unique(output, end);
        assert(output.take(end) =~= s.take(end));
        assert(output.skip(end + 1) =~= later);
        assert(lines_of(output) =~= lines_of(s).update(n as int, new));
    }
}

// ---------------------------------------------------------------------------
// Laws
// ---------------------------------------------------------------------------

/// An edit leaves no choice to the editor.
pub proof fn edit_has_one_outcome(edit: TextEdit, source: Seq<char>, a: Seq<char>, b: Seq<char>)
    requires
        gives(edit, source, a),
        gives(edit, source, b),
    ensures
        a == b,
{
    let (i, j) = choose|i: int, j: int| replaces(edit, source, i, j, a);
    let (k, l) = choose|k: int, l: int| replaces(edit, source, k, l, b);
    lemma_place_unique(source, i, k, edit.range.start);
    lemma_place_unique(source, j, l, edit.range.end);
}

/// The edit for a document without a header puts a new one in front of it.
pub proof fn header_edit_inserts(
    edit: TextEdit,
    source: Seq<char>,
    file_name: Seq<char>,
    login: Seq<char>,
    email: Seq<char>,
    timestamp: Seq<char>,
)
    requires
        is_header_edit(edit, source, file_name, login, email, timestamp),
        !has_header(source),
    ensures
        gives(edit, source, rendered(source, file_name, login, email, timestamp)),
{
    let output = rendered(source, file_name, login, email, timestamp);
    assert(source.take(0) =~= Seq::<char>::empty());
    assert(output =~= source.take(0) + edit.new_text@ + source.skip(0));
    assert(replaces(edit, source, 0, 0, output));
}

/// The raw update line of a document, and where it stands.
proof fn lemma_update_place(
    edit: TextEdit,
    source: Seq<char>,
    file_name: Seq<char>,
    login: Seq<char>,
    email: Seq<char>,
    timestamp: Seq<char>,
) -> (place: (int, int))
    requires
        is_header_edit(edit, source, file_name, login, email, timestamp),
        has_header(source),
    ensures
        place.0 == line_start(source, HEADER_UPDATED_LINE_INDEX as nat),
        place.1 == place.0 + lines_of(source)[HEADER_UPDATED_LINE_INDEX as int].len(),
        replaces(
            edit,
            source,
            place.0,
            place.1,
            source.take(place.0) + updated_line(login, timestamp) + source.skip(place.1),
        ),
{
    let n = HEADER_UPDATED_LINE_INDEX as nat;
    lemma_raw_lines(source);
    let line = lines_of(source)[n as int];
    assert(document_lines(source)[n as int].len() == HEADER_WIDTH);
    lemma_line_at(source, n);
    lemma_utf16_bound(line);
    let start = line_start(source, n);
    lines_are_counted_by_line_feeds(source.take(start));
    lines_are_counted_by_line_feeds(source.take(start + line.len()));
    (start, start + line.len() as int)
}

/// The edit for a document with a header can be made in it.
pub proof fn header_edit_can_be_made(
    edit: TextEdit,
    source: Seq<char>,
    file_name: Seq<char>,
    login: Seq<char>,
    email: Seq<char>,
    timestamp: Seq<char>,
)
    requires
        is_header_edit(edit, source, file_name, login, email, timestamp),
        has_header(source),
    ensures
        exists|output: Seq<char>| gives(edit, source, output),
{
    let place = lemma_update_place(edit, source, file_name, login, email, timestamp);
    assert(gives(
        edit,
        source,
        source.take(place.0) + updated_line(login, timestamp) + source.skip(place.1),
    ));
}

/// The edit for a document with a header changes its update line and nothing
/// else.
pub proof fn header_edit_changes_one_line(
    edit: TextEdit,
    source: Seq<char>,
    file_name: Seq<char>,
    login: Seq<char>,
    email: Seq<char>,
    timestamp: Seq<char>,
    output: Seq<char>,
)
    requires
        is_header_edit(edit, source, file_name, login, email, timestamp),
        has_header(source),
        single_line(timestamp),
        single_line(field(login, UPDATED_LOGIN_WIDTH as nat)),
        gives(edit, source, output),
    ensures
        lines_of(output) == lines_of(source).update(
            HEADER_UPDATED_LINE_INDEX as int,
            updated_line(login, timestamp),
        ),
{
    let place = lemma_update_place(edit, source, file_name, login, email, timestamp);
    let line = updated_line(login, timestamp);
    let replaced = source.take(place.0) + line + source.skip(place.1);
    assert(gives(edit, source, replaced));
    edit_has_one_outcome(edit, source, output, replaced);
    lemma_updated_line_plain(login, timestamp);
    lemma_raw_lines(source);
    lemma_replaced_line(source, HEADER_UPDATED_LINE_INDEX as nat, line);
}

/// Lines joined again after one of them was written anew.
proof fn lemma_joined_update(lines: Seq<Seq<char>>, newline: Seq<char>, n: int, new: Seq<char>)
    requires
        0 < n < lines.len() - 1,
    ensures
        joined_lines(lines.update(n, new), newline) == joined_lines(lines.take(n), newline)
            + newline + new + newline + joined_lines(lines.skip(n + 1), newline),
{
    let updated = lines.update(n, new);
    lemma_joined_lines_cut(updated, newline, n);
    assert(updated.take(n) =~= lines.take(n));
    assert(updated.skip(n).skip(1) =~= lines.skip(n + 1));
    assert(joined_lines(updated, newline) =~= joined_lines(lines.take(n), newline) + newline + new
        + newline + joined_lines(lines.skip(n + 1), newline));
}

/// The edit for a header and the saving of a document do the same to it.
///
/// Documents are left out that have a header and use different line breaks:
/// saving makes them one.
pub proof fn header_edit_agrees_with_rendering(
    edit: TextEdit,
    source: Seq<char>,
    file_name: Seq<char>,
    login: Seq<char>,
    email: Seq<char>,
    timestamp: Seq<char>,
)
    requires
        is_header_edit(edit, source, file_name, login, email, timestamp),
        has_header(source) ==> uniform_breaks(source),
    ensures
        gives(edit, source, rendered(source, file_name, login, email, timestamp)),
{
    if !has_header(source) {
        header_edit_inserts(edit, source, file_name, login, email, timestamp);
    } else {
        let n = HEADER_UPDATED_LINE_INDEX as int;
        let place = lemma_update_place(edit, source, file_name, login, email, timestamp);
        let output = rendered(source, file_name, login, email, timestamp);
        let new = updated_line(login, timestamp);
        let newline = line_break(source);
        let lines = document_lines(source);
        let line = lines[n];
        let head = lines.take(n);
        let front = joined_lines(head, newline) + newline;
        let back = newline + joined_lines(lines.skip(n + 1), newline) + last_break(source);
        lemma_document_lines_shape(source);
        lemma_header_plain(lines);
        assert(plain_line(line));
        assert(lines.update(n, line) =~= lines);
        lemma_joined_update(lines, newline, n, line);
        lemma_joined_update(lines, newline, n, new);
        assert(source =~= front + line + back);
        assert(output =~= front + new + back);
        assert forall|i: int| 0 <= i < n implies single_line(#[trigger] head[i]) by {
            assert(head[i] == lines[i]);
        }
        lemma_lines_end(head, newline);
        lemma_whole_line_replaced(edit, source, front, line, newline, back, place, new);
        assert(replaces(edit, source, place.0, place.1, output));
    }
}

/// An edit of the line between `front` and `back` leaves both.
proof fn lemma_whole_line_replaced(
    edit: TextEdit,
    source: Seq<char>,
    front: Seq<char>,
    line: Seq<char>,
    newline: Seq<char>,
    back: Seq<char>,
    place: (int, int),
    new: Seq<char>,
)
    requires
        source == front + line + back,
        front.len() > 0,
        front.last() == '\n',
        plain_line(line),
        is_line_break(newline),
        newline.is_prefix_of(back),
        last_line(front) == Seq::<char>::empty(),
        edit.range.start.line == end_line(front),
        edit.range.start.character == 0,
        stands_at(source, place.0, edit.range.start),
        place.1 == place.0 + lines_of(source)[end_line(front) as int].len(),
    ensures
        source.take(place.0) + new + source.skip(place.1) == front + new + back,
{
    let start = front.len() as int;
    assert(source.take(start) =~= front);
    lines_are_counted_by_line_feeds(front);
    assert(stands_at(source, start, edit.range.start));
    lemma_place_unique(source, start, place.0, edit.range.start);
    lemma_lines_before(source, front, line, newline, back);
    assert(source.skip(place.1) =~= back);
}

/// The line behind a text that ends with a line feed, given its line break.
proof fn lemma_lines_before(
    s: Seq<char>,
    front: Seq<char>,
    line: Seq<char>,
    newline: Seq<char>,
    back: Seq<char>,
)
    requires
        s == front + line + back,
        front.len() > 0,
        front.last() == '\n',
        plain_line(line),
        is_line_break(newline),
        newline.is_prefix_of(back),
    ensures
        end_line(front) < lines_of(s).len(),
        lines_of(s)[end_line(front) as int] == line,
    decreases front.len(),
{
    lemma_line_end(s);
    lemma_line_end(front);
    let end = line_end(front);
    if end == front.len() {
        assert(front[front.len() - 1] != '\n');
    }
    assert forall|i: int| 0 <= i < end implies #[trigger] s[i] != '\n' by {
        assert(s[i] == front[i]);
    }
    assert(s[end] == front[end]);
    lemma_line_end_unique(s, end);
    let rest = s.skip(end + 1);
    let first = front.take(end + 1);
    let later = front.skip(end + 1);
    assert(front =~= first + later);
    assert(rest =~= later + line + back);
    assert(first =~= front.take(end) + seq!['\n']);
    assert(single_line(front.take(end)));
    lemma_break_end(front.take(end), seq!['\n']);
    lemma_end_behind_break(first, later);
    if later.len() > 0 {
        assert(later.last() == front.last());
        lemma_lines_before(rest, later, line, newline, back);
    } else {
        let behind = back.skip(newline.len() as int);
        assert(rest =~= line + newline + behind);
        lemma_lines_of_break(line, newline, behind);
        assert(end_line(later) == 0);
        assert(lines_of(rest)[0] == line);
    }
    assert(lines_of(s) =~= seq![without_cr(s.take(end))] + lines_of(rest));
}

/// In a line without carriage returns all code units are counted.
proof fn lemma_end_character(s: Seq<char>)
    requires
        !last_line(s).contains('\r'),
    ensures
        end_character(s) == utf16_units(last_line(s)),
    decreases s.len(),
{
    if s.len() > 0 && s.last() != '\n' {
        let body = s.drop_last();
        let line = last_line(body).push(s.last());
        assert(line[line.len() - 1] == s.last());
        assert(line.contains(s.last()));
        assert forall|i: int| 0 <= i < last_line(body).len() implies last_line(body)[i] != '\r' by {
            assert(line[i] == last_line(body)[i]);
            assert(line.contains(line[i]));
        }
        lemma_end_character(body);
        assert(line.drop_last() =~= last_line(body));
    }
}

/// The edit of a whole document leaves nothing of it.
///
/// Documents are left out whose last line holds a carriage return: it is not
/// counted, so the edit ends before the end of the document.
pub proof fn full_document_edit_replaces_all(
    edit: TextEdit,
    source: Seq<char>,
    replacement: Seq<char>,
)
    requires
        is_full_document_edit(edit, source, replacement),
        !last_line(source).contains('\r'),
    ensures
        gives(edit, source, replacement),
{
    let n = source.len() as int;
    lemma_end_character(source);
    lines_are_counted_by_line_feeds(source);
    lines_are_counted_by_line_feeds(Seq::empty());
    assert(source.take(0) =~= Seq::<char>::empty());
    assert(source.take(n) =~= source);
    assert(replacement =~= source.take(0) + edit.new_text@ + source.skip(n));
    assert(replaces(edit, source, 0, n, replacement));
}

/// A header edit that is signed carries the name of the file that the URI gives
/// and the login and mail address that the settings and the environment give.
pub proof fn signed_edit_is_signed(
    edit: TextEdit,
    uri: Seq<char>,
    source: Seq<char>,
    settings: HeaderSettings,
    user: Option<Seq<char>>,
    username: Option<Seq<char>>,
    timestamp: Seq<char>,
)
    requires
        is_signed_header_edit(edit, uri, source, settings, user, username, timestamp),
    ensures
        has_header(source) ==> edit.new_text@ == updated_line(
            author_login(settings, user, username),
            timestamp,
        ),
        !has_header(source) ==> edit.new_text@ == header_block(
            uri_file_name(uri)->0,
            author_login(settings, user, username),
            author_login(settings, user, username) + seq!['@'] + author_domain(settings),
            timestamp,
            line_break(source),
        ),
        is_header_edit(
            edit,
            source,
            uri_file_name(uri)->0,
            author_login(settings, user, username),
            author_login(settings, user, username) + seq!['@'] + author_domain(settings),
            timestamp,
        ),
{
    reveal_strlit("@");
    assert("@"@ =~= seq!['@']);
}

/// An edit of one document edits no other.
pub proof fn workspace_edit_is_of_one_document(edit: WorkspaceEdit, uri: Seq<char>)
    ensures
        edit.edits_only(uri) <==> {
            &&& edit.changes is Some
            &&& edit.changes->0@.len() == 1
            &&& edit.changes->0@[0].0.text@ == uri
            &&& edit.changes->0@[0].1@.len() == 1
        },
{
}

/// A message on a URI without a file name quotes the URI.
pub proof fn missing_file_name_is_told(uri: Seq<char>)
    ensures
        no_file_name_text(uri) == "could not resolve a file name from `"@ + uri + "`"@,
{
}

/// The places in a document can be numbered exactly where no line and no column
/// of it is beyond 32 bits.
pub proof fn places_are_numbered_by_32_bits(s: Seq<char>)
    ensures
        positions_fit(s) <==> forall|i: int|
            0 <= i <= s.len() ==> line_feeds(#[trigger] s.take(i)) <= 0xffff_ffff && utf16_units(
                last_line(s.take(i)).filter(|c: char| c != '\r'),
            ) <= 0xffff_ffff,
{
    assert forall|i: int| 0 <= i <= s.len() implies end_line(#[trigger] s.take(i)) == line_feeds(
        s.take(i),
    ) && end_character(s.take(i)) == utf16_units(
        last_line(s.take(i)).filter(|c: char| c != '\r'),
    ) by {
        lines_are_counted_by_line_feeds(s.take(i));
        columns_are_counted_without_carriage_returns(s.take(i));
    }
}

} // verus!
