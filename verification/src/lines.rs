//! Facts about documents as sequences of lines.

use vstd::prelude::*;

use crate::text::{
    crlf_at, has_crlf, joined_lines, lemma_line_end, lemma_line_end_unique, line_break, line_end,
    lines_of, single_line, unix_newlines, without_cr,
};

verus! {

/// A line break: a line feed, with or without a carriage return before it.
pub open spec fn is_line_break(s: Seq<char>) -> bool {
    s == seq!['\n'] || s == seq!['\r', '\n']
}

/// The line ends with a carriage return.
pub open spec fn ends_with_cr(line: Seq<char>) -> bool {
    line.len() > 0 && line.last() == '\r'
}

/// A line that any line break ends where it is meant to: it holds no line feed
/// and does not end with a carriage return.
pub open spec fn plain_line(line: Seq<char>) -> bool {
    single_line(line) && !ends_with_cr(line)
}

/// The lines of a document, whatever line breaks it uses.
pub open spec fn document_lines(source: Seq<char>) -> Seq<Seq<char>> {
    lines_of(unix_newlines(source))
}

/// The document ends with a line feed.
pub open spec fn ends_with_line_feed(source: Seq<char>) -> bool {
    source.len() > 0 && source.last() == '\n'
}

/// The line with index `i` of a document has a line break behind it.
pub open spec fn terminated(source: Seq<char>, i: int) -> bool {
    i < document_lines(source).len() - 1 || ends_with_line_feed(source)
}

/// No line of the document ends with a carriage return that does not belong to
/// the line break behind it.
pub open spec fn clean_breaks(source: Seq<char>) -> bool {
    forall|i: int|
        0 <= i < document_lines(source).len() && terminated(source, i) ==> !ends_with_cr(
            #[trigger] document_lines(source)[i],
        )
}

/// The text behind the last line of a document.
pub open spec fn last_break(source: Seq<char>) -> Seq<char> {
    if ends_with_line_feed(source) {
        line_break(source)
    } else {
        seq![]
    }
}

/// All lines of the document end with the same line break.
pub open spec fn uniform_breaks(source: Seq<char>) -> bool {
    source == joined_lines(document_lines(source), line_break(source)) + last_break(source)
}

/// Leaving out carriage returns does not touch a line before its line break.
pub proof fn lemma_unix_newlines_line(line: Seq<char>, newline: Seq<char>, rest: Seq<char>)
    requires
        single_line(line),
        is_line_break(newline),
        newline == seq!['\n'] ==> !ends_with_cr(line),
    ensures
        unix_newlines(line + newline + rest) == line + seq!['\n'] + unix_newlines(rest),
    decreases line.len(),
{
    let s = line + newline + rest;
    let goal = line + seq!['\n'] + unix_newlines(rest);
    if line.len() == 0 {
        if newline == seq!['\n'] {
            assert(s[0] == '\n');
            assert(s.skip(1) =~= rest);
        } else {
            assert(crlf_at(s, 0));
            assert(s.skip(2) =~= rest);
        }
        assert(unix_newlines(s) =~= goal);
    } else {
        let tail = line.skip(1);
        assert(s[0] == line[0]);
        assert(line.contains(line[0]));
        if line.len() > 1 {
            assert(s[1] == line[1]);
            assert(line.contains(line[1]));
            assert(tail.last() == line.last());
        } else {
            assert(s[1] == newline[0]);
        }
        assert(!crlf_at(s, 0));
        assert(single_line(tail)) by {
            assert forall|i: int| 0 <= i < tail.len() implies tail[i] != '\n' by {
                assert(line.contains(line[i + 1]));
            }
        }
        lemma_unix_newlines_line(tail, newline, rest);
        assert(s.skip(1) =~= tail + newline + rest);
        assert(unix_newlines(s) =~= goal);
    }
}

/// A document without carriage returns before line feeds stays as it is.
pub proof fn lemma_unix_newlines_id(s: Seq<char>)
    requires
        !has_crlf(s),
    ensures
        unix_newlines(s) == s,
    decreases s.len(),
{
    if s.len() > 0 {
        assert(!crlf_at(s, 0));
        let tail = s.skip(1);
        assert forall|i: int| !crlf_at(tail, i) by {
            if crlf_at(tail, i) {
                assert(crlf_at(s, i + 1));
            }
        }
        lemma_unix_newlines_id(tail);
        assert(unix_newlines(s) =~= s);
    }
}

/// Leaving out carriage returns keeps whether a document is empty, and whether
/// it ends with a line feed.
pub proof fn lemma_unix_newlines_end(s: Seq<char>)
    ensures
        unix_newlines(s).len() == 0 <==> s.len() == 0,
        ends_with_line_feed(unix_newlines(s)) == ends_with_line_feed(s),
    decreases s.len(),
{
    if s.len() > 0 {
        if crlf_at(s, 0) {
            let tail = s.skip(2);
            lemma_unix_newlines_end(tail);
            if tail.len() > 0 {
                assert(tail.last() == s.last());
                assert(unix_newlines(s).last() == unix_newlines(tail).last());
            }
        } else {
            let tail = s.skip(1);
            lemma_unix_newlines_end(tail);
            if tail.len() > 0 {
                assert(tail.last() == s.last());
                assert(unix_newlines(s).last() == unix_newlines(tail).last());
            }
        }
    }
}

/// The first line of a document stands before the first line break.
pub proof fn lemma_lines_of_line(line: Seq<char>, rest: Seq<char>)
    requires
        plain_line(line),
    ensures
        lines_of(line + seq!['\n'] + rest) == seq![line] + lines_of(rest),
{
    let s = line + seq!['\n'] + rest;
    assert forall|i: int| 0 <= i < line.len() implies #[trigger] s[i] != '\n' by {
        assert(line.contains(line[i]));
        assert(s[i] == line[i]);
    }
    assert(s[line.len() as int] == '\n');
    lemma_line_end_unique(s, line.len() as int);
    assert(s.take(line.len() as int) =~= line);
    assert(s.skip(line.len() as int + 1) =~= rest);
}

/// The lines of a document that starts with a line and its line break.
pub proof fn lemma_document_lines_line(line: Seq<char>, newline: Seq<char>, rest: Seq<char>)
    requires
        plain_line(line),
        is_line_break(newline),
    ensures
        document_lines(line + newline + rest) == seq![line] + document_lines(rest),
{
    lemma_unix_newlines_line(line, newline, rest);
    lemma_lines_of_line(line, unix_newlines(rest));
}

/// The lines of a document that starts with several lines, each with its line
/// break.
pub proof fn lemma_document_lines_block(
    lines: Seq<Seq<char>>,
    newline: Seq<char>,
    rest: Seq<char>,
)
    requires
        lines.len() > 0,
        forall|i: int| 0 <= i < lines.len() ==> plain_line(#[trigger] lines[i]),
        is_line_break(newline),
    ensures
        document_lines(joined_lines(lines, newline) + newline + rest) == lines + document_lines(
            rest,
        ),
    decreases lines.len(),
{
    let s = joined_lines(lines, newline) + newline + rest;
    if lines.len() == 1 {
        lemma_document_lines_line(lines[0], newline, rest);
        assert(seq![lines[0]] =~= lines);
    } else {
        let tail = lines.skip(1);
        let later = joined_lines(tail, newline) + newline + rest;
        assert forall|i: int| 0 <= i < tail.len() implies plain_line(#[trigger] tail[i]) by {
            assert(tail[i] == lines[i + 1]);
        }
        lemma_document_lines_block(tail, newline, rest);
        assert(s =~= lines[0] + newline + later);
        lemma_document_lines_line(lines[0], newline, later);
        assert(seq![lines[0]] + (tail + document_lines(rest)) =~= lines + document_lines(rest));
    }
}

/// Joined lines can be cut between any two of them.
pub proof fn lemma_joined_lines_cut(lines: Seq<Seq<char>>, newline: Seq<char>, n: int)
    requires
        0 < n < lines.len(),
    ensures
        joined_lines(lines, newline) == joined_lines(lines.take(n), newline) + newline
            + joined_lines(lines.skip(n), newline),
    decreases n,
{
    let head = lines.take(n);
    let tail = lines.skip(n);
    if n == 1 {
        assert(head[0] == lines[0]);
    } else {
        let later = lines.skip(1);
        lemma_joined_lines_cut(later, newline, n - 1);
        assert(later.take(n - 1) =~= head.skip(1));
        assert(later.skip(n - 1) =~= tail);
        assert(head[0] == lines[0]);
        assert(joined_lines(lines, newline) =~= joined_lines(head, newline) + newline
            + joined_lines(tail, newline));
    }
}

/// A text that holds no line feed is one line, unless it is empty.
pub proof fn lemma_document_lines_single(line: Seq<char>)
    requires
        single_line(line),
    ensures
        document_lines(line) == if line.len() == 0 {
            Seq::<Seq<char>>::empty()
        } else {
            seq![line]
        },
{
    assert forall|i: int| !crlf_at(line, i) by {
        if crlf_at(line, i) {
            assert(line.contains(line[i + 1]));
        }
    }
    lemma_unix_newlines_id(line);
    assert forall|i: int| 0 <= i < line.len() implies #[trigger] line[i] != '\n' by {
        assert(line.contains(line[i]));
    }
    lemma_line_end_unique(line, line.len() as int);
}

/// No line holds a line feed, and the last line is not empty where no line
/// feed ends it.
pub proof fn lemma_lines_of_shape(s: Seq<char>)
    ensures
        forall|i: int| 0 <= i < lines_of(s).len() ==> single_line(#[trigger] lines_of(s)[i]),
        s.len() > 0 ==> lines_of(s).len() > 0,
        s.len() > 0 && !ends_with_line_feed(s) ==> lines_of(s).last().len() > 0,
    decreases s.len(),
{
    if s.len() > 0 {
        lemma_line_end(s);
        let end = line_end(s);
        if end < s.len() {
            let body = s.take(end);
            let rest = s.skip(end + 1);
            lemma_lines_of_shape(rest);
            assert(single_line(without_cr(body)));
            assert forall|i: int| 0 <= i < lines_of(s).len() implies single_line(
                #[trigger] lines_of(s)[i],
            ) by {
                if i > 0 {
                    assert(lines_of(s)[i] == lines_of(rest)[i - 1]);
                }
            }
            if !ends_with_line_feed(s) {
                assert(rest.len() > 0);
                assert(rest.last() == s.last());
                assert(lines_of(s).last() == lines_of(rest).last());
            }
        } else {
            assert(single_line(s));
        }
    }
}

/// What `lemma_lines_of_shape` says of a document.
pub proof fn lemma_document_lines_shape(s: Seq<char>)
    ensures
        forall|i: int|
            0 <= i < document_lines(s).len() ==> single_line(#[trigger] document_lines(s)[i]),
        s.len() > 0 ==> document_lines(s).len() > 0,
        s.len() > 0 && !ends_with_line_feed(s) ==> document_lines(s).last().len() > 0,
{
    lemma_unix_newlines_end(s);
    lemma_lines_of_shape(unix_newlines(s));
}

/// Splitting a document into lines loses nothing but its line breaks: joined
/// with line feeds they are the document again, if no carriage return stood
/// before one.
pub proof fn lemma_rejoined(s: Seq<char>)
    requires
        !has_crlf(s),
    ensures
        joined_lines(lines_of(s), seq!['\n']) + (if ends_with_line_feed(s) {
            seq!['\n']
        } else {
            seq![]
        }) == s,
        forall|i: int|
            0 <= i < lines_of(s).len() && (i < lines_of(s).len() - 1 || ends_with_line_feed(s))
                ==> !ends_with_cr(#[trigger] lines_of(s)[i]),
    decreases s.len(),
{
    let newline = seq!['\n'];
    let end = line_end(s);
    lemma_line_end(s);
    if s.len() > 0 && end < s.len() {
        let body = s.take(end);
        let rest = s.skip(end + 1);
        if ends_with_cr(body) {
            assert(crlf_at(s, end - 1));
        }
        assert forall|i: int| !crlf_at(rest, i) by {
            if crlf_at(rest, i) {
                assert(crlf_at(s, i + end + 1));
            }
        }
        lemma_rejoined(rest);
        let lines = lines_of(s);
        assert(lines =~= seq![body] + lines_of(rest));
        assert(lines.skip(1) =~= lines_of(rest));
        let tail = if ends_with_line_feed(rest) {
            newline
        } else {
            seq![]
        };
        if rest.len() > 0 {
            lemma_lines_of_shape(rest);
            assert(rest.last() == s.last());
            assert(joined_lines(lines, newline) + tail =~= body + newline + rest);
        } else {
            assert(s[end] == '\n');
            assert(lines.len() == 1);
        }
        assert(body + newline + rest =~= s);
        assert forall|i: int|
            0 <= i < lines.len() && (i < lines.len() - 1 || ends_with_line_feed(
                s,
            )) implies !ends_with_cr(#[trigger] lines[i]) by {
            if i > 0 {
                assert(lines[i] == lines_of(rest)[i - 1]);
            }
        }
    } else if s.len() > 0 {
        if ends_with_line_feed(s) {
            assert(s[s.len() - 1] != '\n');
        }
        assert(joined_lines(lines_of(s), newline) =~= s);
        assert(s + seq![] =~= s);
    } else {
        assert(s + seq![] =~= s);
    }
}

/// A line as it stands in a document is the line that its line break leaves,
/// or that with one more carriage return.
pub proof fn lemma_raw_lines(s: Seq<char>)
    ensures
        lines_of(s).len() == document_lines(s).len(),
        forall|i: int|
            0 <= i < lines_of(s).len() ==> {
                ||| #[trigger] lines_of(s)[i] == document_lines(s)[i]
                ||| lines_of(s)[i] == document_lines(s)[i].push('\r')
            },
    decreases s.len(),
{
    lemma_line_end(s);
    let end = line_end(s);
    if s.len() > 0 && end < s.len() {
        let body = s.take(end);
        let rest = s.skip(end + 1);
        let kept = without_cr(body);
        let newline = if ends_with_cr(body) {
            seq!['\r', '\n']
        } else {
            seq!['\n']
        };
        assert(single_line(kept));
        assert(s =~= kept + newline + rest);
        lemma_unix_newlines_line(kept, newline, rest);
        let first = without_cr(kept);
        let u = unix_newlines(s);
        assert forall|i: int| 0 <= i < kept.len() implies #[trigger] u[i] != '\n' by {
            assert(kept.contains(kept[i]));
            assert(u[i] == kept[i]);
        }
        assert(u[kept.len() as int] == '\n');
        lemma_line_end_unique(u, kept.len() as int);
        assert(u.take(kept.len() as int) =~= kept);
        assert(u.skip(kept.len() as int + 1) =~= unix_newlines(rest));
        lemma_raw_lines(rest);
        assert(lines_of(s) =~= seq![kept] + lines_of(rest));
        assert(document_lines(s) =~= seq![first] + document_lines(rest));
        assert(kept == first || kept =~= first.push('\r'));
        assert forall|i: int| 0 <= i < lines_of(s).len() implies {
            ||| #[trigger] lines_of(s)[i] == document_lines(s)[i]
            ||| lines_of(s)[i] == document_lines(s)[i].push('\r')
        } by {
            if i > 0 {
                assert(lines_of(s)[i] == lines_of(rest)[i - 1]);
                assert(document_lines(s)[i] == document_lines(rest)[i - 1]);
            }
        }
    } else if s.len() > 0 {
        assert forall|i: int| !crlf_at(s, i) by {
            if crlf_at(s, i) {
                assert(s[i + 1] != '\n');
            }
        }
        lemma_unix_newlines_id(s);
    } else {
        assert(unix_newlines(s) =~= s);
    }
}

/// A document with line feeds only has clean line breaks, all the same.
pub proof fn lemma_unix_breaks(s: Seq<char>)
    requires
        !has_crlf(s),
    ensures
        clean_breaks(s),
        uniform_breaks(s),
{
    lemma_unix_newlines_id(s);
    lemma_rejoined(s);
}

} // verus!
