//! Text as sequences of characters: line breaks, lines, blanks, fixed-width
//! fields and UTF-16 widths.

use vstd::prelude::*;

verus! {

// ---------------------------------------------------------------------------
// Characters
// ---------------------------------------------------------------------------

/// The characters with the Unicode property `White_Space`.
pub open spec fn white_space(c: char) -> bool {
    ||| '\u{9}' <= c <= '\u{d}'
    ||| c == ' '
    ||| c == '\u{85}'
    ||| c == '\u{a0}'
    ||| c == '\u{1680}'
    ||| '\u{2000}' <= c <= '\u{200a}'
    ||| c == '\u{2028}'
    ||| c == '\u{2029}'
    ||| c == '\u{202f}'
    ||| c == '\u{205f}'
    ||| c == '\u{3000}'
}

/// Tells whether `c` is white space.
pub fn is_white_space(c: char) -> (b: bool)
    ensures
        b == white_space(c),
{
    ('\u{9}' <= c && c <= '\u{d}') || c == ' ' || c == '\u{85}' || c == '\u{a0}' || c == '\u{1680}'
        || ('\u{2000}' <= c && c <= '\u{200a}') || c == '\u{2028}' || c == '\u{2029}'
        || c == '\u{202f}' || c == '\u{205f}' || c == '\u{3000}'
}

/// The characters of a text that may be absent.
pub open spec fn str_view(text: Option<&str>) -> Option<Seq<char>> {
    match text {
        Some(t) => Some(t@),
        None => None,
    }
}

/// The characters of an owned text that may be absent.
pub open spec fn string_view(text: Option<String>) -> Option<Seq<char>> {
    match text {
        Some(t) => Some(t@),
        None => None,
    }
}

/// How many UTF-16 code units encode `c`.
pub open spec fn utf16_width(c: char) -> nat {
    if c as u32 >= 0x1_0000 {
        2
    } else {
        1
    }
}

/// How many UTF-16 code units encode `s`.
pub open spec fn utf16_units(s: Seq<char>) -> nat
    decreases s.len(),
{
    if s.len() == 0 {
        0
    } else {
        utf16_units(s.drop_last()) + utf16_width(s.last())
    }
}

/// `String::push` appends one character.
pub assume_specification[ String::push ](s: &mut String, c: char)
    ensures
        final(s)@ == old(s)@.push(c),
;

/// The characters of `text`, in order.
pub fn chars_of(text: &str) -> (chars: Vec<char>)
    ensures
        chars@ == text@,
{
    let mut chars: Vec<char> = Vec::new();
    for c in it: text.chars()
        invariant
            it.seq() == text@,
            chars@ == text@.take(it.index() as int),
    {
        chars.push(c);
    }
    chars
}

/// The text made of `chars[from..to]`.
pub fn text_between(chars: &Vec<char>, from: usize, to: usize) -> (text: String)
    requires
        from <= to <= chars.len(),
    ensures
        text@ == chars@.subrange(from as int, to as int),
{
    let mut text = String::new();
    let mut i: usize = from;
    while i < to
        invariant
            from <= i <= to <= chars.len(),
            text@ == chars@.subrange(from as int, i as int),
        decreases to - i,
    {
        text.push(chars[i]);
        i += 1;
    }
    text
}

/// Tells whether two texts are equal.
pub fn same_text(a: &str, b: &str) -> (same: bool)
    ensures
        same == (a@ == b@),
{
    let left = a.to_string();
    let right = b.to_string();
    left == right
}

/// Tells whether `text` starts with `prefix`.
pub fn has_prefix(text: &str, prefix: &str) -> (b: bool)
    ensures
        b == prefix@.is_prefix_of(text@),
{
    let len = text.unicode_len();
    let width = prefix.unicode_len();
    if width > len {
        return false;
    }
    same_text(text.substring_char(0, width), prefix)
}

/// Tells whether `text` ends with `suffix`.
pub fn has_suffix(text: &str, suffix: &str) -> (b: bool)
    ensures
        b == suffix@.is_suffix_of(text@),
{
    let len = text.unicode_len();
    let width = suffix.unicode_len();
    if width > len {
        return false;
    }
    same_text(text.substring_char(len - width, len), suffix)
}

/// Two texts, one behind the other.
pub fn joined(a: &str, b: &str) -> (text: String)
    ensures
        text@ == a@ + b@,
{
    let mut text = a.to_string();
    text.append(b);
    text
}

/// Three texts, one behind the other.
pub fn joined3(a: &str, b: &str, c: &str) -> (text: String)
    ensures
        text@ == a@ + b@ + c@,
{
    let mut text = a.to_string();
    text.append(b);
    text.append(c);
    text
}

// ---------------------------------------------------------------------------
// Blanks
// ---------------------------------------------------------------------------

/// `s` without the white space at its start.
pub open spec fn trim_start(s: Seq<char>) -> Seq<char>
    decreases s.len(),
{
    if s.len() > 0 && white_space(s[0]) {
        trim_start(s.skip(1))
    } else {
        s
    }
}

/// `s` without the white space at its end.
pub open spec fn trim_end(s: Seq<char>) -> Seq<char>
    decreases s.len(),
{
    if s.len() > 0 && white_space(s.last()) {
        trim_end(s.drop_last())
    } else {
        s
    }
}

/// `s` without the white space at both ends.
pub open spec fn trimmed(s: Seq<char>) -> Seq<char> {
    trim_end(trim_start(s))
}

/// Nothing but white space.
pub open spec fn blank(s: Seq<char>) -> bool {
    forall|i: int| 0 <= i < s.len() ==> white_space(#[trigger] s[i])
}

/// Trimming leaves nothing exactly of a blank text.
pub proof fn lemma_trimmed_blank(s: Seq<char>)
    ensures
        trimmed(s).len() == 0 <==> blank(s),
{
    lemma_trim_start(s);
    lemma_trim_end(trim_start(s));
    let n = s.len() - trim_start(s).len();
    if blank(s) {
        if trim_start(s).len() > 0 {
            assert(white_space(s[n]));
        }
    } else {
        let j = choose|j: int| 0 <= j < s.len() && !white_space(#[trigger] s[j]);
        assert(j >= n);
        assert(trim_start(s)[j - n] == s[j]);
    }
}

/// What is left by `trim_start` is a suffix that does not start with white
/// space, behind white space only.
pub proof fn lemma_trim_start(s: Seq<char>)
    ensures
        trim_start(s).len() <= s.len(),
        trim_start(s) == s.skip(s.len() - trim_start(s).len()),
        trim_start(s).len() > 0 ==> !white_space(trim_start(s)[0]),
        forall|i: int| 0 <= i < s.len() - trim_start(s).len() ==> white_space(#[trigger] s[i]),
    decreases s.len(),
{
    if s.len() > 0 && white_space(s[0]) {
        let t = s.skip(1);
        lemma_trim_start(t);
        let n = s.len() - trim_start(s).len();
        assert(t.skip(t.len() - trim_start(t).len()) =~= s.skip(n));
        assert forall|i: int| 0 <= i < n implies white_space(#[trigger] s[i]) by {
            if i > 0 {
                assert(s[i] == t[i - 1]);
            }
        }
    } else {
        assert(s.skip(0) =~= s);
    }
}

/// What is left by `trim_end` is a prefix that does not end with white space,
/// before white space only.
pub proof fn lemma_trim_end(s: Seq<char>)
    ensures
        trim_end(s).len() <= s.len(),
        trim_end(s) == s.take(trim_end(s).len() as int),
        trim_end(s).len() > 0 ==> !white_space(trim_end(s).last()),
        forall|i: int| trim_end(s).len() <= i < s.len() ==> white_space(#[trigger] s[i]),
    decreases s.len(),
{
    if s.len() > 0 && white_space(s.last()) {
        let t = s.drop_last();
        lemma_trim_end(t);
        let n = trim_end(s).len() as int;
        assert(t.take(n) =~= s.take(n));
        assert forall|i: int| n <= i < s.len() implies white_space(#[trigger] s[i]) by {
            if i < s.len() - 1 {
                assert(s[i] == t[i]);
            }
        }
    } else {
        assert(s.take(s.len() as int) =~= s);
    }
}

/// `text` without the white space at both ends.
pub fn trim(text: &str) -> (part: &str)
    ensures
        part@ == trimmed(text@),
{
    let chars = chars_of(text);
    let n = chars.len();
    let mut from: usize = 0;
    proof {
        assert(text@.skip(0) =~= text@);
    }
    while from < n && is_white_space(chars[from])
        invariant
            from <= n,
            n == chars.len(),
            chars@ == text@,
            trim_start(text@) == trim_start(text@.skip(from as int)),
        decreases n - from,
    {
        proof {
            assert(text@.skip(from as int).skip(1) =~= text@.skip(from + 1));
        }
        from += 1;
    }
    let ghost kept = text@.skip(from as int);
    assert(trim_start(text@) == kept);
    let mut to: usize = n;
    proof {
        assert(kept =~= text@.subrange(from as int, to as int));
    }
    while to > from && is_white_space(chars[to - 1])
        invariant
            from <= to <= n,
            n == chars.len(),
            chars@ == text@,
            trim_end(kept) == trim_end(text@.subrange(from as int, to as int)),
        decreases to - from,
    {
        proof {
            let part = text@.subrange(from as int, to as int);
            assert(part.last() == text@[to - 1]);
            assert(part.drop_last() =~= text@.subrange(from as int, to - 1));
        }
        to -= 1;
    }
    proof {
        let part = text@.subrange(from as int, to as int);
        assert(part.len() > 0 ==> part.last() == text@[to - 1]);
    }
    text.substring_char(from, to)
}

/// The trimmed text, unless it is blank.
pub open spec fn meaningful(s: Seq<char>) -> Option<Seq<char>> {
    if blank(s) {
        None
    } else {
        Some(trimmed(s))
    }
}

/// The text without the white space at both ends, if anything is left of it.
pub fn trimmed_option(value: &str) -> (part: Option<&str>)
    ensures
        str_view(part) == meaningful(value@),
{
    let trimmed = trim(value);
    proof {
        lemma_trimmed_blank(value@);
    }
    if trimmed.is_empty() {
        None
    } else {
        Some(trimmed)
    }
}

// ---------------------------------------------------------------------------
// Fixed-width fields
// ---------------------------------------------------------------------------

/// `n` spaces.
pub open spec fn spaces(n: nat) -> Seq<char> {
    Seq::new(n, |i: int| ' ')
}

/// `s` cut to at most `width` characters, and filled up with spaces to `width`.
pub open spec fn field(s: Seq<char>, width: nat) -> Seq<char> {
    if s.len() >= width {
        s.take(width as int)
    } else {
        s + spaces((width - s.len()) as nat)
    }
}

/// Cuts or pads `input` to exactly `width` characters.
pub fn trim_or_pad(input: &str, width: usize) -> (text: String)
    ensures
        text@ == field(input@, width as nat),
        text@.len() == width,
{
    let chars = chars_of(input);
    let mut text = String::new();
    let mut i: usize = 0;
    while i < width
        invariant
            i <= width,
            chars@ == input@,
            text@ == field(input@, i as nat),
        decreases width - i,
    {
        if i < chars.len() {
            text.push(chars[i]);
        } else {
            text.push(' ');
        }
        proof {
            assert(text@ =~= field(input@, (i + 1) as nat));
        }
        i += 1;
    }
    text
}

/// A field that was cut or padded to a width is not changed by cutting or
/// padding it to that width again.
pub proof fn field_is_stable(s: Seq<char>, width: nat)
    ensures
        field(field(s, width), width) == field(s, width),
        field(s, width).len() == width,
{
    assert(field(s, width).take(width as int) =~= field(s, width));
}

/// How many UTF-16 code units encode `text`, modulo the range of the result.
pub fn utf16_len(text: &str) -> (units: u32)
    ensures
        units as int == utf16_units(text@) % 0x1_0000_0000,
{
    let mut units: u32 = 0;
    for c in it: text.chars()
        invariant
            it.seq() == text@,
            units as int == utf16_units(text@.take(it.index() as int)) % 0x1_0000_0000,
    {
        proof {
            let seen = text@.take(it.index() as int + 1);
            assert(seen.drop_last() =~= text@.take(it.index() as int));
            assert(seen.last() == c);
        }
        let code: u32 = c as u32;
        units = units.wrapping_add(if code >= 0x1_0000 { 2 } else { 1 });
    }
    proof {
        assert(text@.take(text@.len() as int) =~= text@);
    }
    units
}

// ---------------------------------------------------------------------------
// Line breaks
// ---------------------------------------------------------------------------

/// A carriage return with a line feed behind it stands at `i`.
pub open spec fn crlf_at(s: Seq<char>, i: int) -> bool {
    0 <= i < s.len() - 1 && s[i] == '\r' && s[i + 1] == '\n'
}

/// `s` holds a carriage return with a line feed behind it.
pub open spec fn has_crlf(s: Seq<char>) -> bool {
    exists|i: int| crlf_at(s, i)
}

/// The line break that a document uses: a carriage return and a line feed
/// where they occur in it, else a line feed.
pub open spec fn line_break(s: Seq<char>) -> Seq<char> {
    if has_crlf(s) {
        seq!['\r', '\n']
    } else {
        seq!['\n']
    }
}

/// `s` holds no line feed.
pub open spec fn single_line(s: Seq<char>) -> bool {
    !s.contains('\n')
}

/// `s` with each carriage return that has a line feed behind it left out.
pub open spec fn unix_newlines(s: Seq<char>) -> Seq<char>
    decreases s.len(),
{
    if s.len() == 0 {
        s
    } else if crlf_at(s, 0) {
        seq!['\n'] + unix_newlines(s.skip(2))
    } else {
        seq![s[0]] + unix_newlines(s.skip(1))
    }
}

/// Where the first line of `s` ends: the place of the first line feed, or the
/// end of `s`.
pub open spec fn line_end(s: Seq<char>) -> int
    decreases s.len(),
{
    if s.len() == 0 || s[0] == '\n' {
        0
    } else {
        1 + line_end(s.skip(1))
    }
}

/// A line without the carriage return at its end.
pub open spec fn without_cr(line: Seq<char>) -> Seq<char> {
    if line.len() > 0 && line.last() == '\r' {
        line.drop_last()
    } else {
        line
    }
}

/// The lines of `s`. A line feed ends a line and does not start another one;
/// a carriage return just before that line feed belongs to the line break.
pub open spec fn lines_of(s: Seq<char>) -> Seq<Seq<char>>
    decreases s.len(),
{
    if s.len() == 0 {
        seq![]
    } else {
        let end = line_end(s);
        if 0 <= end < s.len() {
            seq![without_cr(s.take(end))] + lines_of(s.skip(end + 1))
        } else {
            seq![s]
        }
    }
}

/// The lines with `separator` between each two of them.
pub open spec fn joined_lines(lines: Seq<Seq<char>>, separator: Seq<char>) -> Seq<char>
    decreases lines.len(),
{
    if lines.len() == 0 {
        seq![]
    } else if lines.len() == 1 {
        lines[0]
    } else {
        lines[0] + separator + joined_lines(lines.skip(1), separator)
    }
}

/// The characters of each of several texts.
pub open spec fn views(texts: Seq<String>) -> Seq<Seq<char>> {
    texts.map_values(|text: String| text@)
}

/// `line_end` is the first line feed, if there is one.
pub proof fn lemma_line_end(s: Seq<char>)
    ensures
        0 <= line_end(s) <= s.len(),
        line_end(s) < s.len() ==> s[line_end(s)] == '\n',
        forall|i: int| 0 <= i < line_end(s) ==> #[trigger] s[i] != '\n',
    decreases s.len(),
{
    if s.len() > 0 && s[0] != '\n' {
        let t = s.skip(1);
        lemma_line_end(t);
        assert forall|i: int| 0 <= i < line_end(s) implies #[trigger] s[i] != '\n' by {
            if i > 0 {
                assert(s[i] == t[i - 1]);
            }
        }
    }
}

/// Only one place is the first line feed.
pub proof fn lemma_line_end_unique(s: Seq<char>, end: int)
    requires
        0 <= end <= s.len(),
        end < s.len() ==> s[end] == '\n',
        forall|i: int| 0 <= i < end ==> #[trigger] s[i] != '\n',
    ensures
        line_end(s) == end,
{
    lemma_line_end(s);
    let found = line_end(s);
    if found < end {
        assert(s[found] != '\n');
    } else if found > end {
        assert(s[end] != '\n');
    }
}

/// Tells whether a carriage return with a line feed behind it occurs.
fn finds_crlf(chars: &Vec<char>) -> (b: bool)
    ensures
        b == has_crlf(chars@),
{
    let n = chars.len();
    let mut i: usize = 1;
    while i < n
        invariant
            1 <= i,
            i <= n || n == 0,
            n == chars.len(),
            forall|k: int| 0 <= k < i - 1 ==> !#[trigger] crlf_at(chars@, k),
        decreases n - i,
    {
        if chars[i - 1] == '\r' && chars[i] == '\n' {
            assert(crlf_at(chars@, i - 1));
            return true;
        }
        i += 1;
    }
    false
}

/// The line break that `text` uses.
pub fn line_ending(text: &str) -> (newline: &'static str)
    ensures
        newline@ == line_break(text@),
{
    let chars = chars_of(text);
    proof {
        reveal_strlit("\r\n");
        reveal_strlit("\n");
    }
    if finds_crlf(&chars) {
        assert("\r\n"@ =~= seq!['\r', '\n']);
        "\r\n"
    } else {
        assert("\n"@ =~= seq!['\n']);
        "\n"
    }
}

/// The characters of a text with line feeds for its line breaks.
pub fn with_unix_newlines(text: &str) -> (out: Vec<char>)
    ensures
        out@ == unix_newlines(text@),
{
    let chars = chars_of(text);
    let n = chars.len();
    let mut out: Vec<char> = Vec::new();
    let mut i: usize = 0;
    proof {
        assert(text@.skip(0) =~= text@);
    }
    while i < n
        invariant
            i <= n,
            n == chars.len(),
            chars@ == text@,
            unix_newlines(text@) == out@ + unix_newlines(text@.skip(i as int)),
        decreases n - i,
    {
        let ghost rest = text@.skip(i as int);
        let ghost before = out@;
        if chars[i] == '\r' && i + 1 < n && chars[i + 1] == '\n' {
            proof {
                assert(crlf_at(rest, 0));
                assert(rest.skip(2) =~= text@.skip(i + 2));
            }
            out.push('\n');
            proof {
                assert(out@ + unix_newlines(rest.skip(2)) =~= before + unix_newlines(rest));
            }
            i += 2;
        } else {
            proof {
                assert(!crlf_at(rest, 0));
                assert(rest.skip(1) =~= text@.skip(i + 1));
            }
            out.push(chars[i]);
            proof {
                assert(out@ + unix_newlines(rest.skip(1)) =~= before + unix_newlines(rest));
            }
            i += 1;
        }
    }
    proof {
        assert(out@ + unix_newlines(text@.skip(n as int)) =~= out@);
    }
    out
}

/// The place of the first line feed at or behind `from`, or the end.
fn find_line_end(chars: &Vec<char>, from: usize) -> (end: usize)
    requires
        from <= chars.len(),
    ensures
        from <= end <= chars.len(),
        end - from == line_end(chars@.skip(from as int)),
{
    let n = chars.len();
    let mut end: usize = from;
    let ghost rest = chars@.skip(from as int);
    while end < n && chars[end] != '\n'
        invariant
            from <= end <= n,
            n == chars.len(),
            rest == chars@.skip(from as int),
            forall|i: int| 0 <= i < end - from ==> #[trigger] rest[i] != '\n',
        decreases n - end,
    {
        end += 1;
    }
    proof {
        lemma_line_end_unique(rest, end - from);
    }
    end
}

/// The lines of a text.
pub fn split_lines(chars: &Vec<char>) -> (lines: Vec<String>)
    ensures
        views(lines@) == lines_of(chars@),
{
    let n = chars.len();
    let mut lines: Vec<String> = Vec::new();
    let mut from: usize = 0;
    proof {
        assert(chars@.skip(0) =~= chars@);
    }
    while from < n
        invariant
            from <= n,
            n == chars.len(),
            lines_of(chars@) == views(lines@) + lines_of(chars@.skip(from as int)),
        decreases n - from,
    {
        let ghost before = views(lines@);
        let ghost rest = chars@.skip(from as int);
        let end = find_line_end(chars, from);
        if end < n {
            let ghost body = chars@.subrange(from as int, end as int);
            proof {
                assert(rest.take(end - from) =~= body);
                assert(rest.skip(end - from + 1) =~= chars@.skip(end + 1));
            }
            let stop: usize = if end > from && chars[end - 1] == '\r' {
                end - 1
            } else {
                end
            };
            proof {
                assert(without_cr(body) =~= chars@.subrange(from as int, stop as int));
            }
            lines.push(text_between(chars, from, stop));
            proof {
                assert(views(lines@) =~= before.push(without_cr(body)));
                assert(views(lines@) + lines_of(chars@.skip(end + 1)) =~= before + lines_of(rest));
            }
            from = end + 1;
        } else {
            lines.push(text_between(chars, from, n));
            proof {
                assert(chars@.subrange(from as int, n as int) =~= rest);
                assert(views(lines@) =~= before.push(rest));
                assert(views(lines@) + lines_of(chars@.skip(n as int)) =~= before + lines_of(rest));
            }
            from = n;
        }
    }
    proof {
        assert(views(lines@) + lines_of(chars@.skip(n as int)) =~= views(lines@));
    }
    lines
}

/// The lines with `separator` between each two of them.
pub fn join_lines(lines: &Vec<String>, separator: &str) -> (text: String)
    ensures
        text@ == joined_lines(views(lines@), separator@),
{
    let n = lines.len();
    let ghost all = views(lines@);
    if n == 0 {
        let text = String::new();
        assert(text@ =~= joined_lines(all, separator@));
        return text;
    }
    let mut text = lines[0].clone();
    let mut i: usize = 1;
    proof {
        assert(all.skip(0) =~= all);
        assert(text@ + tail_text(all, 1, separator@) =~= joined_lines(all, separator@));
    }
    while i < n
        invariant
            1 <= i <= n,
            n == lines.len(),
            all == views(lines@),
            joined_lines(all, separator@) == text@ + tail_text(all, i as int, separator@),
        decreases n - i,
    {
        let ghost before = text@;
        text.append(separator);
        text.append(lines[i].as_str());
        proof {
            let rest = all.skip(i as int);
            assert(rest[0] == lines@[i as int]@);
            assert(rest.skip(1) =~= all.skip(i + 1));
            assert(text@ + tail_text(all, i + 1, separator@) =~= before + tail_text(
                all,
                i as int,
                separator@,
            ));
        }
        i += 1;
    }
    proof {
        assert(text@ + tail_text(all, n as int, separator@) =~= text@);
    }
    text
}

/// What stands behind the first `i` lines of the joined lines.
spec fn tail_text(lines: Seq<Seq<char>>, i: int, separator: Seq<char>) -> Seq<char> {
    if i < lines.len() {
        separator + joined_lines(lines.skip(i), separator)
    } else {
        seq![]
    }
}

/// The line of `text` with the given index, counted from zero.
pub fn document_line(text: &str, line_index: usize) -> (line: Option<&str>)
    ensures
        str_view(line) == if line_index < lines_of(text@).len() {
            Some(lines_of(text@)[line_index as int])
        } else {
            None
        },
{
    let chars = chars_of(text);
    let n = chars.len();
    let mut from: usize = 0;
    let mut index: usize = 0;
    let ghost all = lines_of(text@);
    proof {
        assert(text@.skip(0) =~= text@);
        assert(all =~= all.take(0) + all);
    }
    while from < n
        invariant
            from <= n,
            n == chars.len(),
            chars@ == text@,
            all == lines_of(text@),
            index <= line_index,
            index <= all.len(),
            all == all.take(index as int) + lines_of(text@.skip(from as int)),
        decreases n - from,
    {
        let ghost rest = text@.skip(from as int);
        let end = find_line_end(&chars, from);
        let stop: usize = if from < end && end < n && chars[end - 1] == '\r' {
            end - 1
        } else {
            end
        };
        proof {
            let body = text@.subrange(from as int, end as int);
            assert(rest.take(end - from) =~= body);
            assert(rest.len() == n - from);
            if end < n {
                assert(without_cr(body) =~= text@.subrange(from as int, stop as int));
            } else {
                assert(rest =~= text@.subrange(from as int, stop as int));
            }
            assert(lines_of(rest)[0] == text@.subrange(from as int, stop as int));
            assert(all[index as int] == lines_of(rest)[0]);
        }
        if index == line_index {
            return Some(text.substring_char(from, stop));
        }
        if end < n {
            proof {
                let later = text@.skip(end + 1);
                assert(rest.skip(end - from + 1) =~= later);
                assert(all.take(index + 1) =~= all.take(index as int).push(all[index as int]));
                assert(all =~= all.take(index + 1) + lines_of(later));
            }
            from = end + 1;
        } else {
            proof {
                assert(all.take(index + 1) =~= all);
                assert(lines_of(text@.skip(n as int)).len() == 0);
                assert(all =~= all.take(index + 1) + lines_of(text@.skip(n as int)));
            }
            from = n;
        }
        index += 1;
    }
    proof {
        assert(lines_of(text@.skip(n as int)).len() == 0);
    }
    None
}

} // verus!
