//! What holds of texts: white space, fields, widths and lines.

use vstd::prelude::*;

use crate::lines::{
    document_lines, lemma_document_lines_single, lemma_joined_lines_cut, lemma_unix_newlines_line,
};
use crate::text::{
    blank, crlf_at, field, has_crlf, joined_lines, lemma_line_end_unique, lemma_trim_end,
    lemma_trim_start, lemma_trimmed_blank, line_break, lines_of, meaningful, single_line, str_view,
    string_view, trim_start, trimmed, unix_newlines, utf16_units, views, white_space, without_cr,
};

verus! {

// ---------------------------------------------------------------------------
// White space and fields
// ---------------------------------------------------------------------------

/// White space is what Unicode gives the property `White_Space`, by the numbers
/// of the characters.
pub proof fn white_space_by_numbers(c: char)
    ensures
        white_space(c) <==> {
            ||| 0x9 <= c as u32 <= 0xd
            ||| c as u32 == 0x20
            ||| c as u32 == 0x85
            ||| c as u32 == 0xa0
            ||| c as u32 == 0x1680
            ||| 0x2000 <= c as u32 <= 0x200a
            ||| c as u32 == 0x2028
            ||| c as u32 == 0x2029
            ||| c as u32 == 0x202f
            ||| c as u32 == 0x205f
            ||| c as u32 == 0x3000
        },
{
}

/// A text is blank if each of its characters is white space.
pub proof fn blank_means_only_white_space(s: Seq<char>)
    ensures
        blank(s) <==> forall|i: int| 0 <= i < s.len() ==> white_space(#[trigger] s[i]),
{
}

/// Trimming takes white space away at both ends, all of it and nothing else.
pub proof fn trimming_takes_outer_white_space(s: Seq<char>)
    ensures
        exists|from: int, to: int|
            0 <= from <= to <= s.len() && trimmed(s) == #[trigger] s.subrange(from, to) && (forall|
                i: int,
            |
                0 <= i < from || to <= i < s.len() ==> white_space(#[trigger] s[i])),
        trimmed(s).len() > 0 ==> !white_space(trimmed(s)[0]) && !white_space(trimmed(s).last()),
{
    lemma_trim_start(s);
    let kept = trim_start(s);
    lemma_trim_end(kept);
    let from = s.len() - kept.len();
    let to = from + trimmed(s).len();
    assert(trimmed(s) =~= s.subrange(from, to));
    assert forall|i: int| 0 <= i < from || to <= i < s.len() implies white_space(
        #[trigger] s[i],
    ) by {
        if i >= to {
            assert(s[i] == kept[i - from]);
        }
    }
    if trimmed(s).len() > 0 {
        assert(trimmed(s)[0] == kept[0]);
    }
}

/// A text counts unless it is blank, and then without the white space at its
/// ends.
pub proof fn blank_texts_do_not_count(s: Seq<char>)
    ensures
        meaningful(s) is None <==> forall|i: int| 0 <= i < s.len() ==> white_space(#[trigger] s[i]),
        meaningful(s) is Some ==> meaningful(s)->0 == trimmed(s) && trimmed(s).len() > 0,
{
    lemma_trimmed_blank(s);
}

/// A field shows the start of its text, as much as has room, and spaces behind.
pub proof fn field_shows_its_text(s: Seq<char>, width: nat)
    ensures
        field(s, width).len() == width,
        forall|i: int|
            0 <= i < width ==> #[trigger] field(s, width)[i] == if i < s.len() {
                s[i]
            } else {
                ' '
            },
{
}

/// Several texts by their characters, in their order.
pub proof fn texts_by_their_characters(texts: Seq<String>)
    ensures
        views(texts).len() == texts.len(),
        forall|i: int| 0 <= i < texts.len() ==> #[trigger] views(texts)[i] == texts[i]@,
{
}

// ---------------------------------------------------------------------------
// Widths
// ---------------------------------------------------------------------------

/// The UTF-16 code units of a text are those of its characters: two for each
/// beyond the Basic Multilingual Plane, one for each other.
pub proof fn utf16_units_add_up(a: Seq<char>, b: Seq<char>, c: char)
    ensures
        utf16_units(a + b) == utf16_units(a) + utf16_units(b),
        utf16_units(Seq::empty()) == 0,
        utf16_units(seq![c]) == if c as u32 > 0xffff {
            2int
        } else {
            1
        },
    decreases b.len(),
{
    assert(seq![c].drop_last() =~= Seq::<char>::empty());
    assert(utf16_units(seq![c].drop_last()) == 0);
    if b.len() == 0 {
        assert(a + b =~= a);
    } else {
        assert((a + b).drop_last() =~= a + b.drop_last());
        utf16_units_add_up(a, b.drop_last(), c);
    }
}

// ---------------------------------------------------------------------------
// Lines
// ---------------------------------------------------------------------------

/// A document uses carriage returns in its line breaks if one stands before
/// any line feed.
pub proof fn one_carriage_return_decides(s: Seq<char>)
    ensures
        line_break(s) == (if exists|i: int|
            0 <= i < s.len() - 1 && #[trigger] s[i] == '\r' && s[i + 1] == '\n' {
            seq!['\r', '\n']
        } else {
            seq!['\n']
        }),
{
    if has_crlf(s) {
        let i = choose|i: int| crlf_at(s, i);
        assert(0 <= i < s.len() - 1 && s[i] == '\r' && s[i + 1] == '\n');
    } else {
        assert forall|i: int| 0 <= i < s.len() - 1 && #[trigger] s[i] == '\r' implies s[i + 1]
            != '\n' by {
            assert(!crlf_at(s, i));
        }
    }
}

/// A line ends at its line break. A carriage return before the line feed
/// belongs to the break; one more before it is left to the line.
pub proof fn lines_end_at_line_breaks(line: Seq<char>, rest: Seq<char>)
    requires
        !line.contains('\n'),
    ensures
        lines_of(line + seq!['\r', '\n'] + rest) == seq![line] + lines_of(rest),
        line.len() == 0 || line.last() != '\r' ==> lines_of(line + seq!['\n'] + rest) == seq![line]
            + lines_of(rest),
        lines_of(Seq::empty()) == Seq::<Seq<char>>::empty(),
        line.len() > 0 ==> lines_of(line) == seq![line],
{
    assert(single_line(line));
    lemma_break(line, seq!['\r', '\n'], rest);
    if line.len() == 0 || line.last() != '\r' {
        lemma_break(line, seq!['\n'], rest);
    }
    assert forall|i: int| 0 <= i < line.len() implies #[trigger] line[i] != '\n' by {
        assert(line.contains(line[i]));
    }
    lemma_line_end_unique(line, line.len() as int);
}

/// The lines of a document are the same with either line break. Where carriage
/// returns stand before the one of a line break, one of them is taken with it.
pub proof fn document_lines_end_at_line_breaks(line: Seq<char>, rest: Seq<char>)
    requires
        !line.contains('\n'),
    ensures
        line.len() == 0 || line.last() != '\r' ==> {
            &&& document_lines(line + seq!['\n'] + rest) == seq![line] + document_lines(rest)
            &&& document_lines(line + seq!['\r', '\n'] + rest) == seq![line] + document_lines(rest)
        },
        line.len() > 0 && line.last() == '\r' ==> document_lines(line + seq!['\r', '\n'] + rest)
            == seq![line.drop_last()] + document_lines(rest),
        document_lines(Seq::empty()) == Seq::<Seq<char>>::empty(),
        line.len() > 0 ==> document_lines(line) == seq![line],
{
    assert(single_line(line));
    let later = unix_newlines(rest);
    lemma_unix_newlines_line(line, seq!['\r', '\n'], rest);
    lemma_document_lines_single(line);
    lemma_document_lines_single(Seq::empty());
    if line.len() == 0 || line.last() != '\r' {
        lemma_unix_newlines_line(line, seq!['\n'], rest);
        lemma_break(line, seq!['\n'], later);
    } else {
        let kept = line.drop_last();
        assert(single_line(kept)) by {
            assert forall|i: int| 0 <= i < kept.len() implies kept[i] != '\n' by {
                assert(line.contains(line[i]));
            }
        }
        assert(line + seq!['\n'] + later =~= kept + seq!['\r', '\n'] + later);
        lemma_break(kept, seq!['\r', '\n'], later);
    }
}

proof fn lemma_break(line: Seq<char>, newline: Seq<char>, rest: Seq<char>)
    requires
        single_line(line),
        newline == seq!['\r', '\n'] || (newline == seq!['\n'] && (line.len() == 0 || line.last()
            != '\r')),
    ensures
        lines_of(line + newline + rest) == seq![line] + lines_of(rest),
{
    let s = line + newline + rest;
    let end = line.len() + newline.len() - 1;
    assert forall|i: int| 0 <= i < end implies #[trigger] s[i] != '\n' by {
        if i < line.len() {
            assert(line.contains(line[i]));
            assert(s[i] == line[i]);
        }
    }
    assert(s[end] == '\n');
    lemma_line_end_unique(s, end);
    assert(without_cr(s.take(end)) =~= line) by {
        if newline == seq!['\n'] {
            assert(s.take(end) =~= line);
        } else {
            assert(s.take(end) =~= line.push('\r'));
        }
    }
    assert(s.skip(end + 1) =~= rest);
}

/// Joined lines stand one behind the other, with the separator between each
/// two of them.
pub proof fn joined_lines_are_separated(
    a: Seq<Seq<char>>,
    b: Seq<Seq<char>>,
    line: Seq<char>,
    separator: Seq<char>,
)
    ensures
        joined_lines(Seq::empty(), separator) == Seq::<char>::empty(),
        joined_lines(seq![line], separator) == line,
        a.len() > 0 && b.len() > 0 ==> joined_lines(a + b, separator) == joined_lines(a, separator)
            + separator + joined_lines(b, separator),
{
    if a.len() > 0 && b.len() > 0 {
        lemma_joined_lines_cut(a + b, separator, a.len() as int);
        assert((a + b).take(a.len() as int) =~= a);
        assert((a + b).skip(a.len() as int) =~= b);
    }
}

/// A text that may be absent by its characters.
pub proof fn absent_texts_stay_absent(part: Option<&str>, text: Option<String>)
    ensures
        str_view(part) is Some <==> part is Some,
        part is Some ==> str_view(part)->0 == part->0@,
        string_view(text) is Some <==> text is Some,
        text is Some ==> string_view(text)->0 == text->0@,
{
}

} // verus!
