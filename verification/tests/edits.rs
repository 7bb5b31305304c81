use forty_two_tools::edits::{
    build_header_text_edit, build_header_text_edit_with_identity, build_header_workspace_edit,
    document_end_position, full_document_edit, has_numbered_positions, Position, TextEdit,
};
use forty_two_tools::header::{
    build_header_block, has_42_header, render_document_with_header, HEADER_UPDATED_LINE_INDEX,
};
use forty_two_tools::settings::{AuthorIdentity, HeaderSettings};
use forty_two_tools::text::{document_line, line_ending, trim_or_pad, utf16_len};
use forty_two_tools::uri::DocumentUri;

fn fixture_identity() -> AuthorIdentity {
    AuthorIdentity {
        login: "marvin".to_string(),
        email: "marvin@student.42istanbul.com.tr".to_string(),
    }
}

fn fixture_timestamp() -> &'static str {
    "2026/03/11 12:34:56"
}

fn fixture_uri() -> DocumentUri {
    DocumentUri::parse("file:///tmp/main.c").expect("valid URI")
}

/// The place of a position among the bytes of a text.
fn offset(text: &str, position: Position) -> usize {
    let mut line = 0;
    let mut character = 0;
    for (index, ch) in text.char_indices() {
        if line == position.line && character == position.character {
            return index;
        }
        if ch == '\n' {
            line += 1;
            character = 0;
        } else {
            character += ch.len_utf16() as u32;
        }
    }
    assert_eq!((line, character), (position.line, position.character));
    text.len()
}

/// What an editor makes of an edit.
fn applied(edit: &TextEdit, text: &str) -> String {
    let start = offset(text, edit.range.start);
    let end = offset(text, edit.range.end);
    format!("{}{}{}", &text[..start], edit.new_text, &text[end..])
}

#[test]
fn inserts_header_into_an_empty_document() {
    let edit = build_header_text_edit_with_identity(
        "",
        "main.c",
        &fixture_identity(),
        fixture_timestamp(),
    )
    .expect("header edit");

    assert_eq!(edit.range.start, Position::new(0, 0));
    assert_eq!(edit.range.end, Position::new(0, 0));
    assert!(edit.new_text.ends_with('\n'));
    assert!(has_42_header(&edit.new_text));
}

#[test]
fn updates_only_the_updated_line_when_header_exists() {
    let header = build_header_block("main.c", &fixture_identity(), fixture_timestamp(), "\n");
    let source = format!("{header}int main(void)\n{{\n\treturn (0);\n}}\n");
    let new_timestamp = "2026/03/11 13:00:00";
    let edit = build_header_text_edit_with_identity(
        &source,
        "main.c",
        &fixture_identity(),
        new_timestamp,
    )
    .expect("header edit");

    assert_eq!(
        edit.range.start,
        Position::new(HEADER_UPDATED_LINE_INDEX as u32, 0)
    );
    assert_eq!(edit.range.end.line, HEADER_UPDATED_LINE_INDEX as u32);
    assert_eq!(
        edit.new_text,
        "/*   Updated: 2026/03/11 13:00:00 by marvin           ###   ########.fr       */"
    );
    assert!(source.contains("Created: 2026/03/11 12:34:56 by marvin"));
}

#[test]
fn workspace_edit_targets_the_requested_uri() {
    let uri = fixture_uri();
    let edit = build_header_workspace_edit(&uri, "", &HeaderSettings::default(), None, None)
        .expect("workspace edit")
        .changes
        .expect("workspace changes");
    assert!(edit.iter().any(|(document, _)| document == &uri));
}

#[test]
fn workspace_edit_holds_one_edit_of_one_document() {
    let uri = fixture_uri();
    let changes =
        build_header_workspace_edit(&uri, "", &HeaderSettings::default(), Some("marvin"), None)
            .expect("workspace edit")
            .changes
            .expect("workspace changes");
    assert_eq!(changes.len(), 1);
    assert_eq!(changes[0].1.len(), 1);
    let text = &changes[0].1[0].new_text;
    assert!(has_42_header(text));
    assert!(text.contains("/*   main.c "));
    assert!(text.contains("/*   By: marvin <marvin@student.42istanbul.com.tr>"));
}

#[test]
fn no_file_name_means_no_edit() {
    let uri = DocumentUri::parse("untitled:").expect("valid URI");
    let message = build_header_text_edit(&uri, "", &HeaderSettings::default(), None, None)
        .expect_err("no file name");
    assert_eq!(message, "could not resolve a file name from `untitled:`");
    let message = build_header_workspace_edit(&uri, "", &HeaderSettings::default(), None, None)
        .expect_err("no file name");
    assert_eq!(message, "could not resolve a file name from `untitled:`");
}

#[test]
fn editors_insert_and_update_headers() {
    let identity = fixture_identity();
    for newline in ["\n", "\r\n"] {
        let source = format!("int main(void){newline}{{{newline}}}{newline}");
        let insert =
            build_header_text_edit_with_identity(&source, "main.c", &identity, fixture_timestamp())
                .expect("header edit");
        let with_header = applied(&insert, &source);
        assert_eq!(
            Ok(with_header.clone()),
            render_document_with_header(&source, "main.c", &identity, fixture_timestamp())
        );
        let update = build_header_text_edit_with_identity(
            &with_header,
            "main.c",
            &identity,
            "2026/03/11 13:00:00",
        )
        .expect("header edit");
        assert_eq!(update.range.start, Position::new(8, 0));
        assert_eq!(update.range.end, Position::new(8, 80));
        assert_eq!(
            Ok(applied(&update, &with_header)),
            render_document_with_header(&with_header, "main.c", &identity, "2026/03/11 13:00:00")
        );
    }
}

#[test]
fn an_update_leaves_mixed_line_breaks_alone() {
    let header = build_header_block("main.c", &fixture_identity(), fixture_timestamp(), "\n");
    let source = format!("{header}int a;\r\nint b;\n");
    let update = build_header_text_edit_with_identity(
        &source,
        "main.c",
        &fixture_identity(),
        "2026/03/11 13:00:00",
    )
    .expect("header edit");
    assert_eq!(
        applied(&update, &source),
        source.replace("Updated: 2026/03/11 12:34:56", "Updated: 2026/03/11 13:00:00")
    );
}

#[test]
fn ends_of_documents_are_counted_in_utf16() {
    assert_eq!(document_end_position(""), Position::new(0, 0));
    assert_eq!(document_end_position("abc"), Position::new(0, 3));
    assert_eq!(document_end_position("abc\n"), Position::new(1, 0));
    assert_eq!(document_end_position("abc\r\nde"), Position::new(1, 2));
    assert_eq!(document_end_position("a\u{1f600}é"), Position::new(0, 4));
    assert_eq!(document_end_position("ab\rc"), Position::new(0, 3));
    assert!(has_numbered_positions("abc\r\nde"));
}

#[test]
fn full_document_edits_replace_everything() {
    for source in ["", "abc", "abc\n", "abc\r\nde\u{1f600}", "\n\n"] {
        let edit = full_document_edit(source, "new text\n".to_string());
        assert_eq!(edit.range.start, Position::new(0, 0));
        assert_eq!(applied(&edit, source), "new text\n");
    }
}

#[test]
fn full_document_edits_do_not_count_carriage_returns() {
    let edit = full_document_edit("ab\r", "new".to_string());
    assert_eq!(applied(&edit, "ab\r"), "new\r");
}

#[test]
fn lines_widths_and_line_breaks() {
    assert_eq!(document_line("a\r\nb\nc", 0), Some("a"));
    assert_eq!(document_line("a\r\nb\nc", 2), Some("c"));
    assert_eq!(document_line("a\r\nb\nc\n", 3), None);
    assert_eq!(document_line("a\r", 0), Some("a\r"));
    assert_eq!(document_line("", 0), None);
    assert_eq!(line_ending("a\nb"), "\n");
    assert_eq!(line_ending("a\nb\r\n"), "\r\n");
    assert_eq!(line_ending("a\rb"), "\n");
    assert_eq!(utf16_len("a\u{1f600}é"), 4);
    assert_eq!(trim_or_pad("abc", 5), "abc  ");
    assert_eq!(trim_or_pad("abcdef", 5), "abcde");
    assert_eq!(trim_or_pad("éé", 3), "éé ");
    assert_eq!(trim_or_pad(&trim_or_pad("abcdef", 5), 5), "abcde");
    assert_eq!(trim_or_pad("abc", 0), "");
}
