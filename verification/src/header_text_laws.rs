//! What stands where in a header, and what becomes of the document around it,
//! character by character.

use vstd::prelude::*;

use crate::header::{
    has_header, header_block, header_lines, rendered, updated_line, HEADER_LINE_COUNT,
    HEADER_WIDTH,
};
use crate::lines::{document_lines, last_break, lemma_joined_lines_cut, uniform_breaks};
use crate::pattern::{created_line_form, stamp_digit, updated_line_form};
use crate::text::{blank, field, joined_lines, line_break, unix_newlines};

verus! {

// ---------------------------------------------------------------------------
// The lines of a header
// ---------------------------------------------------------------------------

/// The text stands in the line from this column on, as much of it as the field
/// holds, with spaces behind it.
pub open spec fn shows(line: Seq<char>, column: int, width: int, text: Seq<char>) -> bool {
    &&& 0 <= column
    &&& column + width <= line.len()
    &&& forall|i: int|
        0 <= i < width ==> #[trigger] line[column + i] == if i < text.len() {
            text[i]
        } else {
            ' '
        }
}

/// The drawing of a header, which is the same in each.
pub proof fn new_header_has_the_drawing(
    file_name: Seq<char>,
    login: Seq<char>,
    email: Seq<char>,
    timestamp: Seq<char>,
)
    ensures
        ({
            let lines = header_lines(file_name, login, email, timestamp);
            &&& lines.len() == 11
            &&& lines[0]
                == "/* ************************************************************************** */"@
            &&& lines[1]
                == "/*                                                                            */"@
            &&& lines[2]
                == "/*                                                        :::      ::::::::   */"@
            &&& lines[4]
                == "/*                                                    +:+ +:+         +:+     */"@
            &&& lines[6]
                == "/*                                                +#+#+#+#+#+   +#+           */"@
            &&& lines[9]
                == "/*                                                                            */"@
            &&& lines[10]
                == "/* ************************************************************************** */"@
        }),
{
}

/// The fourth line of a new header shows the name of the file, as much of it as
/// has room.
pub proof fn new_header_shows_its_file(
    file_name: Seq<char>,
    login: Seq<char>,
    email: Seq<char>,
    timestamp: Seq<char>,
)
    ensures
        ({
            let line = header_lines(file_name, login, email, timestamp)[3];
            &&& line.len() == 80
            &&& line.take(5) == "/*   "@
            &&& shows(line, 5, 51, file_name)
            &&& line.skip(56) == ":+:      :+:    :+:   */"@
        }),
{
    reveal_strlit("/*   ");
    reveal_strlit(":+:      :+:    :+:   */");
    let line = header_lines(file_name, login, email, timestamp)[3];
    let shown = field(file_name, 51);
    assert(line =~= "/*   "@ + shown + ":+:      :+:    :+:   */"@);
    lemma_shows("/*   "@, file_name, 51, ":+:      :+:    :+:   */"@);
}

/// The sixth line of a new header shows the login and, in angle brackets, the
/// mail address, as much of both as has room.
pub proof fn new_header_shows_its_author(
    file_name: Seq<char>,
    login: Seq<char>,
    email: Seq<char>,
    timestamp: Seq<char>,
)
    ensures
        ({
            let line = header_lines(file_name, login, email, timestamp)[5];
            &&& line.len() == 80
            &&& line.take(9) == "/*   By: "@
            &&& shows(line, 9, 43, login + seq![' ', '<'] + email + seq!['>'])
            &&& line.skip(52) == "#+#  +:+       +#+        */"@
        }),
{
    reveal_strlit("/*   By: ");
    reveal_strlit("#+#  +:+       +#+        */");
    reveal_strlit(" <");
    reveal_strlit(">");
    let line = header_lines(file_name, login, email, timestamp)[5];
    let text = login + seq![' ', '<'] + email + seq!['>'];
    assert(" <"@ =~= seq![' ', '<']);
    assert(">"@ =~= seq!['>']);
    assert(line =~= "/*   By: "@ + field(text, 43) + "#+#  +:+       +#+        */"@);
    lemma_shows("/*   By: "@, text, 43, "#+#  +:+       +#+        */"@);
}

/// The eighth line of a new header shows when the file was created, and the
/// login.
pub proof fn new_header_shows_its_creation(
    file_name: Seq<char>,
    login: Seq<char>,
    email: Seq<char>,
    timestamp: Seq<char>,
)
    ensures
        ({
            let line = header_lines(file_name, login, email, timestamp)[7];
            let n = timestamp.len() as int;
            &&& line.len() == 61 + n
            &&& line.take(14) == "/*   Created: "@
            &&& line.subrange(14, 14 + n) == timestamp
            &&& line.subrange(14 + n, 18 + n) == " by "@
            &&& shows(line, 18 + n, 18, login)
            &&& line.skip(36 + n) == "#+#    #+#             */"@
        }),
{
    reveal_strlit("/*   Created: ");
    reveal_strlit(" by ");
    reveal_strlit("#+#    #+#             */");
    let line = header_lines(file_name, login, email, timestamp)[7];
    let start = "/*   Created: "@ + timestamp + " by "@;
    let end = "#+#    #+#             */"@;
    assert(line =~= start + field(login, 18) + end);
    lemma_shows(start, login, 18, end);
    assert(line.take(14) =~= "/*   Created: "@);
    assert(line.subrange(14, 14 + timestamp.len() as int) =~= timestamp);
    assert(line.subrange(14 + timestamp.len() as int, 18 + timestamp.len() as int) =~= " by "@);
}

/// An update line shows when the file was updated, and the login.
pub proof fn update_line_shows_its_update(login: Seq<char>, timestamp: Seq<char>)
    ensures
        ({
            let line = updated_line(login, timestamp);
            let n = timestamp.len() as int;
            &&& line.len() == 61 + n
            &&& line.take(14) == "/*   Updated: "@
            &&& line.subrange(14, 14 + n) == timestamp
            &&& line.subrange(14 + n, 18 + n) == " by "@
            &&& shows(line, 18 + n, 17, login)
            &&& line.skip(35 + n) == "###   ########.fr       */"@
        }),
{
    reveal_strlit("/*   Updated: ");
    reveal_strlit(" by ");
    reveal_strlit("###   ########.fr       */");
    let line = updated_line(login, timestamp);
    let start = "/*   Updated: "@ + timestamp + " by "@;
    let end = "###   ########.fr       */"@;
    assert(line =~= start + field(login, 17) + end);
    lemma_shows(start, login, 17, end);
    assert(line.take(14) =~= "/*   Updated: "@);
    assert(line.subrange(14, 14 + timestamp.len() as int) =~= timestamp);
    assert(line.subrange(14 + timestamp.len() as int, 18 + timestamp.len() as int) =~= " by "@);
}

/// A new header is as good as created now and updated now.
pub proof fn new_header_was_just_updated(
    file_name: Seq<char>,
    login: Seq<char>,
    email: Seq<char>,
    timestamp: Seq<char>,
)
    ensures
        header_lines(file_name, login, email, timestamp)[8] == updated_line(login, timestamp),
{
}

/// A field between two texts shows its text.
proof fn lemma_shows(start: Seq<char>, text: Seq<char>, width: nat, end: Seq<char>)
    ensures
        ({
            let line = start + field(text, width) + end;
            &&& line.len() == start.len() + width + end.len()
            &&& line.take(start.len() as int) == start
            &&& shows(line, start.len() as int, width as int, text)
            &&& line.skip((start.len() + width) as int) == end
        }),
{
    let line = start + field(text, width) + end;
    assert(line.take(start.len() as int) =~= start);
    assert(line.skip((start.len() + width) as int) =~= end);
    assert forall|i: int| 0 <= i < width implies #[trigger] line[start.len() + i] == if i
        < text.len() {
        text[i]
    } else {
        ' '
    } by {
        assert(line[start.len() + i] == field(text, width)[i]);
    }
}

/// In the text of a new header each line has a line break behind it.
pub proof fn header_block_is_its_lines(
    file_name: Seq<char>,
    login: Seq<char>,
    email: Seq<char>,
    timestamp: Seq<char>,
    newline: Seq<char>,
)
    ensures
        ({
            let l = header_lines(file_name, login, email, timestamp);
            let n = newline;
            header_block(file_name, login, email, timestamp, newline) == (l[0] + n) + ((l[1] + n)
                + ((l[2] + n) + ((l[3] + n) + ((l[4] + n) + ((l[5] + n) + ((l[6] + n) + ((l[7] + n)
                + ((l[8] + n) + ((l[9] + n) + (l[10] + n))))))))))
        }),
{
    let l = header_lines(file_name, login, email, timestamp);
    assert(l.skip(0) =~= l);
    lemma_first_line(l, newline, 0);
    lemma_first_line(l, newline, 1);
    lemma_first_line(l, newline, 2);
    lemma_first_line(l, newline, 3);
    lemma_first_line(l, newline, 4);
    lemma_first_line(l, newline, 5);
    lemma_first_line(l, newline, 6);
    lemma_first_line(l, newline, 7);
    lemma_first_line(l, newline, 8);
    lemma_first_line(l, newline, 9);
    lemma_last_line(l, newline);
}

/// The lines from the one with index `n` on, each with a line break behind it.
spec fn ended_lines(l: Seq<Seq<char>>, newline: Seq<char>, n: int) -> Seq<char> {
    joined_lines(l.skip(n), newline) + newline
}

proof fn lemma_first_line(l: Seq<Seq<char>>, newline: Seq<char>, n: int)
    requires
        0 <= n < l.len() - 1,
    ensures
        ended_lines(l, newline, n) == (l[n] + newline) + ended_lines(l, newline, n + 1),
{
    assert(l.skip(n).skip(1) =~= l.skip(n + 1));
    assert(ended_lines(l, newline, n) =~= (l[n] + newline) + ended_lines(l, newline, n + 1));
}

proof fn lemma_last_line(l: Seq<Seq<char>>, newline: Seq<char>)
    requires
        l.len() > 0,
    ensures
        ended_lines(l, newline, l.len() - 1) == l.last() + newline,
{
    assert(l.skip(l.len() - 1) =~= seq![l.last()]);
}

// ---------------------------------------------------------------------------
// What is recognised
// ---------------------------------------------------------------------------

/// A document has a header exactly where its first eleven lines are the drawing
/// of one, with the file and the author where they belong and stamped lines of
/// the right shape, each 80 characters wide.
pub proof fn header_is_told_by_its_drawing(source: Seq<char>)
    ensures
        has_header(source) <==> {
            let l = document_lines(source);
            &&& l.len() >= 11
            &&& l[0]
                == "/* ************************************************************************** */"@
            &&& l[1]
                == "/*                                                                            */"@
            &&& l[2]
                == "/*                                                        :::      ::::::::   */"@
            &&& l[3].len() == 80
            &&& l[3].take(5) == "/*   "@
            &&& l[3].skip(56) == ":+:      :+:    :+:   */"@
            &&& l[4]
                == "/*                                                    +:+ +:+         +:+     */"@
            &&& l[5].len() == 80
            &&& l[5].take(9) == "/*   By: "@
            &&& l[5].skip(52) == "#+#  +:+       +#+        */"@
            &&& l[6]
                == "/*                                                +#+#+#+#+#+   +#+           */"@
            &&& created_line_form(l[7], stamp_digit())
            &&& updated_line_form(l[8], stamp_digit())
            &&& l[9]
                == "/*                                                                            */"@
            &&& l[10]
                == "/* ************************************************************************** */"@
        },
{
    reveal_strlit("/* ************************************************************************** */");
    reveal_strlit("/*                                                                            */");
    reveal_strlit("/*                                                        :::      ::::::::   */");
    reveal_strlit("/*                                                    +:+ +:+         +:+     */");
    reveal_strlit("/*                                                +#+#+#+#+#+   +#+           */");
    reveal_strlit("/*   ");
    reveal_strlit(":+:      :+:    :+:   */");
    reveal_strlit("/*   By: ");
    reveal_strlit("#+#  +:+       +#+        */");
    let l = document_lines(source);
    if has_header(source) {
        assert(l[3].len() == HEADER_WIDTH);
        assert(l[5].len() == HEADER_WIDTH);
        assert(l[3].take(5) =~= "/*   "@);
        assert(l[3].skip(56) =~= ":+:      :+:    :+:   */"@);
        assert(l[5].take(9) =~= "/*   By: "@);
        assert(l[5].skip(52) =~= "#+#  +:+       +#+        */"@);
    }
    if l.len() >= 11 && l[0]
        == "/* ************************************************************************** */"@ && l[1]
        == "/*                                                                            */"@ && l[2]
        == "/*                                                        :::      ::::::::   */"@
        && l[3].len() == 80 && l[3].take(5) == "/*   "@ && l[3].skip(56)
        == ":+:      :+:    :+:   */"@ && l[4]
        == "/*                                                    +:+ +:+         +:+     */"@
        && l[5].len() == 80 && l[5].take(9) == "/*   By: "@ && l[5].skip(52)
        == "#+#  +:+       +#+        */"@ && l[6]
        == "/*                                                +#+#+#+#+#+   +#+           */"@
        && created_line_form(l[7], stamp_digit()) && updated_line_form(l[8], stamp_digit()) && l[9]
        == "/*                                                                            */"@ && l[10]
        == "/* ************************************************************************** */"@ {
        assert forall|i: int| 0 <= i < HEADER_LINE_COUNT implies #[trigger] l[i].len()
            == HEADER_WIDTH by {
            assert(i == 0 || i == 1 || i == 2 || i == 3 || i == 4 || i == 5 || i == 6 || i == 7 || i
                == 8 || i == 9 || i == 10);
        }
        assert(has_header(source));
    }
}

/// Digits stand at these places of the line, and nothing else of a timestamp.
pub open spec fn stamped(line: Seq<char>, digit: spec_fn(char) -> bool) -> bool {
    &&& digit(line[14]) && digit(line[15]) && digit(line[16]) && digit(line[17])
    &&& line[18] == '/' && digit(line[19]) && digit(line[20])
    &&& line[21] == '/' && digit(line[22]) && digit(line[23])
    &&& line[24] == ' ' && digit(line[25]) && digit(line[26])
    &&& line[27] == ':' && digit(line[28]) && digit(line[29])
    &&& line[30] == ':' && digit(line[31]) && digit(line[32])
}

/// The shape of the two stamped lines, place by place.
pub proof fn stamped_lines_by_place(line: Seq<char>, digit: spec_fn(char) -> bool)
    ensures
        created_line_form(line, digit) <==> {
            &&& line.len() == 80
            &&& line.take(14) == "/*   Created: "@
            &&& stamped(line, digit)
            &&& line.subrange(33, 37) == " by "@
            &&& !line.subrange(37, 55).contains('\n')
            &&& line.subrange(55, 58) == "#+#"@
            &&& blank(line.subrange(58, 62))
            &&& line.subrange(62, 65) == "#+#"@
            &&& blank(line.subrange(65, 78))
            &&& line.skip(78) == "*/"@
        },
        updated_line_form(line, digit) <==> {
            &&& line.len() == 80
            &&& line.take(14) == "/*   Updated: "@
            &&& stamped(line, digit)
            &&& line.subrange(33, 37) == " by "@
            &&& !line.subrange(37, 54).contains('\n')
            &&& line.subrange(54, 57) == "###"@
            &&& blank(line.subrange(57, 60))
            &&& line.subrange(60, 71) == "########.fr"@
            &&& blank(line.subrange(71, 78))
            &&& line.skip(78) == "*/"@
        },
{
    if line.len() == 80 {
        let stamp = line.subrange(14, 33);
        assert(line.take(14) =~= line.subrange(0, 14));
        assert(line.skip(78) =~= line.subrange(78, 80));
        assert(stamp[0] == line[14] && stamp[1] == line[15] && stamp[2] == line[16] && stamp[3]
            == line[17] && stamp[4] == line[18] && stamp[5] == line[19] && stamp[6] == line[20]
            && stamp[7] == line[21] && stamp[8] == line[22] && stamp[9] == line[23] && stamp[10]
            == line[24] && stamp[11] == line[25] && stamp[12] == line[26] && stamp[13] == line[27]
            && stamp[14] == line[28] && stamp[15] == line[29] && stamp[16] == line[30] && stamp[17]
            == line[31] && stamp[18] == line[32]);
    }
}

// ---------------------------------------------------------------------------
// The document around a header
// ---------------------------------------------------------------------------

/// A document without a header gets a new one in front, with its own line
/// breaks, and stays as it is behind it.
pub proof fn new_header_stands_in_front(
    source: Seq<char>,
    file_name: Seq<char>,
    login: Seq<char>,
    email: Seq<char>,
    timestamp: Seq<char>,
)
    requires
        !has_header(source),
    ensures
        ({
            let output = rendered(source, file_name, login, email, timestamp);
            let front = output.len() - source.len();
            &&& front >= 0
            &&& output.skip(front) == source
            &&& output.take(front) == header_block(
                file_name,
                login,
                email,
                timestamp,
                line_break(source),
            )
        }),
{
    let output = rendered(source, file_name, login, email, timestamp);
    let front = output.len() - source.len();
    assert(output.skip(front) =~= source);
    assert(output.take(front) =~= header_block(
        file_name,
        login,
        email,
        timestamp,
        line_break(source),
    ));
}

/// Where a document has a header, its lines are written again with the one of
/// the update put anew, each with the line break of the document behind it; the
/// last one only if it had one. Who signs shows in that line alone.
pub proof fn update_writes_the_lines_again(
    source: Seq<char>,
    file_name: Seq<char>,
    login: Seq<char>,
    email: Seq<char>,
    timestamp: Seq<char>,
)
    requires
        has_header(source),
    ensures
        rendered(source, file_name, login, email, timestamp) == joined_lines(
            document_lines(source).take(8) + seq![updated_line(login, timestamp)]
                + document_lines(source).skip(9),
            line_break(source),
        ) + (if source.last() == '\n' {
            line_break(source)
        } else {
            seq![]
        }),
{
    let lines = document_lines(source);
    let new = updated_line(login, timestamp);
    if source.len() == 0 {
        assert(unix_newlines(source) =~= source);
        assert(lines.len() == 0);
    }
    assert(lines.update(8, new) =~= lines.take(8) + seq![new] + lines.skip(9));
}

/// Where all lines of a document with a header end with the same line break, an
/// update puts the update line anew and leaves every other character.
pub proof fn update_leaves_the_rest(
    source: Seq<char>,
    file_name: Seq<char>,
    login: Seq<char>,
    email: Seq<char>,
    timestamp: Seq<char>,
)
    requires
        has_header(source),
        uniform_breaks(source),
    ensures
        ({
            let place = 8 * (80 + line_break(source).len()) as int;
            &&& place + 80 <= source.len()
            &&& rendered(source, file_name, login, email, timestamp) == source.take(place)
                + updated_line(login, timestamp) + source.skip(place + 80)
        }),
{
    let lines = document_lines(source);
    let newline = line_break(source);
    let new = updated_line(login, timestamp);
    let front = joined_lines(lines.take(8), newline) + newline;
    let back = newline + joined_lines(lines.skip(9), newline) + last_break(source);
    assert forall|i: int| 0 <= i < 8 implies #[trigger] lines.take(8)[i].len() == 80 by {
        assert(lines[i].len() == HEADER_WIDTH);
    }
    assert(lines[8].len() == HEADER_WIDTH);
    lemma_line_written(lines, newline, 8, lines[8], last_break(source));
    lemma_line_written(lines, newline, 8, new, last_break(source));
    assert(lines.update(8, lines[8]) =~= lines);
    lemma_front_len(lines.take(8), newline);
    lemma_middle(front, lines[8], back);
}

proof fn lemma_middle(front: Seq<char>, middle: Seq<char>, back: Seq<char>)
    ensures
        (front + middle + back).take(front.len() as int) == front,
        (front + middle + back).skip((front.len() + middle.len()) as int) == back,
{
    assert((front + middle + back).take(front.len() as int) =~= front);
    assert((front + middle + back).skip((front.len() + middle.len()) as int) =~= back);
}

proof fn lemma_line_written(
    lines: Seq<Seq<char>>,
    newline: Seq<char>,
    n: int,
    new: Seq<char>,
    tail: Seq<char>,
)
    requires
        0 < n < lines.len() - 1,
    ensures
        joined_lines(lines.update(n, new), newline) + tail == (joined_lines(lines.take(n), newline)
            + newline) + new + (newline + joined_lines(lines.skip(n + 1), newline) + tail),
{
    let updated = lines.update(n, new);
    lemma_joined_lines_cut(updated, newline, n);
    assert(updated.take(n) =~= lines.take(n));
    assert(updated.skip(n).skip(1) =~= lines.skip(n + 1));
    assert(joined_lines(updated, newline) + tail =~= (joined_lines(lines.take(n), newline)
        + newline) + new + (newline + joined_lines(lines.skip(n + 1), newline) + tail));
}

proof fn lemma_front_len(l: Seq<Seq<char>>, newline: Seq<char>)
    requires
        l.len() == 8,
        forall|i: int| 0 <= i < 8 ==> #[trigger] l[i].len() == 80,
    ensures
        (joined_lines(l, newline) + newline).len() == 8 * (80 + newline.len()),
{
    assert(l.skip(0) =~= l);
    lemma_first_line(l, newline, 0);
    lemma_first_line(l, newline, 1);
    lemma_first_line(l, newline, 2);
    lemma_first_line(l, newline, 3);
    lemma_first_line(l, newline, 4);
    lemma_first_line(l, newline, 5);
    lemma_first_line(l, newline, 6);
    lemma_last_line(l, newline);
    assert(l[0].len() == 80 && l[1].len() == 80 && l[2].len() == 80 && l[3].len() == 80
        && l[4].len() == 80 && l[5].len() == 80 && l[6].len() == 80 && l[7].len() == 80);
}

/// Among the ASCII characters the digits of a timestamp are the ten digits.
pub proof fn ascii_digits_of_a_stamp(c: char)
    requires
        c as u32 <= 0x7f,
    ensures
        stamp_digit()(c) <==> 0x30 <= c as u32 <= 0x39,
{
}

} // verus!
