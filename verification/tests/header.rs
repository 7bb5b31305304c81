use forty_two_tools::clock::current_timestamp;
use forty_two_tools::header::{
    build_header_block, build_updated_line, has_42_header, header_author_line_matches,
    header_file_line_matches, render_document_with_header,
};
use forty_two_tools::pattern::{header_created_line_matches, header_updated_line_matches};
use forty_two_tools::settings::AuthorIdentity;
use regex::Regex;

fn fixture_identity() -> AuthorIdentity {
    AuthorIdentity {
        login: "marvin".to_string(),
        email: "marvin@student.42istanbul.com.tr".to_string(),
    }
}

fn fixture_timestamp() -> &'static str {
    "2026/03/11 12:34:56"
}

fn fixture_header(newline: &str) -> String {
    build_header_block("main.c", &fixture_identity(), fixture_timestamp(), newline)
}

#[test]
fn generated_header_contains_the_file_name() {
    let header = build_header_block("libft.h", &fixture_identity(), fixture_timestamp(), "\n");
    assert!(header.contains("libft.h"));
    assert!(header.lines().all(|line| line.chars().count() == 80));
}

#[test]
fn detects_generated_headers() {
    let header = build_header_block("main.c", &fixture_identity(), fixture_timestamp(), "\n");
    assert!(has_42_header(&header));
}

#[test]
fn rejects_non_header_documents() {
    let source = "/* not a 42 header */\nint main(void)\n{\n\treturn (0);\n}\n";
    assert!(!has_42_header(source));
}

#[test]
fn timestamp_format_matches_42_style() {
    let regex =
        Regex::new(r"^\d{4}/\d{2}/\d{2} \d{2}:\d{2}:\d{2}$").expect("valid timestamp regex");
    assert!(regex.is_match(fixture_timestamp()));
}

#[test]
fn clock_is_written_in_42_style() {
    let regex =
        Regex::new(r"^\d{4}/\d{2}/\d{2} \d{2}:\d{2}:\d{2}$").expect("valid timestamp regex");
    assert!(regex.is_match(&current_timestamp()));
}

#[test]
fn clock_shows_a_time_of_the_calendar() {
    let timestamp = current_timestamp();
    let number = |from: usize, to: usize| timestamp[from..to].parse::<u32>().expect("a number");
    assert!((1969..=9999).contains(&number(0, 4)));
    assert!((1..=12).contains(&number(5, 7)));
    assert!((1..=31).contains(&number(8, 10)));
    assert!(number(11, 13) <= 23);
    assert!(number(14, 16) <= 59);
    assert!(number(17, 19) <= 60);
}

#[test]
fn first_eleven_lines_decide_on_a_header() {
    let header = fixture_header("\n");
    for rest in ["", "int a;\n", "\r\n\r\n", "no line break"] {
        assert!(has_42_header(&format!("{header}{rest}")));
    }
    assert!(!has_42_header(&header[..80 * 10 + 10]));
}

#[test]
fn header_has_the_expected_lines() {
    let expected = [
        "/* ************************************************************************** */",
        "/*                                                                            */",
        "/*                                                        :::      ::::::::   */",
        "/*   main.c                                             :+:      :+:    :+:   */",
        "/*                                                    +:+ +:+         +:+     */",
        "/*   By: marvin <marvin@student.42istanbul.com.tr>  #+#  +:+       +#+        */",
        "/*                                                +#+#+#+#+#+   +#+           */",
        "/*   Created: 2026/03/11 12:34:56 by marvin            #+#    #+#             */",
        "/*   Updated: 2026/03/11 12:34:56 by marvin           ###   ########.fr       */",
        "/*                                                                            */",
        "/* ************************************************************************** */",
        "",
    ];
    assert_eq!(fixture_header("\n"), expected.join("\n"));
    assert_eq!(fixture_header("\r\n"), expected.join("\r\n"));
}

#[test]
fn long_fields_are_cut() {
    let identity = AuthorIdentity {
        login: "a_login_that_is_much_too_long".to_string(),
        email: "a_login_that_is_much_too_long@student.42istanbul.com.tr".to_string(),
    };
    let name = "n".repeat(60);
    let header = build_header_block(&name, &identity, fixture_timestamp(), "\n");
    let lines: Vec<&str> = header.lines().collect();
    assert!(lines.iter().all(|line| line.chars().count() == 80));
    assert_eq!(lines[3], format!("/*   {}:+:      :+:    :+:   */", "n".repeat(51)));
    assert_eq!(
        lines[8],
        "/*   Updated: 2026/03/11 12:34:56 by a_login_that_is_m###   ########.fr       */"
    );
    assert!(has_42_header(&header));
}

#[test]
fn fields_are_counted_in_characters() {
    let identity = AuthorIdentity {
        login: "élève".to_string(),
        email: "élève@42.fr".to_string(),
    };
    assert_eq!(
        build_updated_line(&identity, fixture_timestamp()),
        "/*   Updated: 2026/03/11 12:34:56 by élève            ###   ########.fr       */"
    );
    assert!(has_42_header(&build_header_block("é.c", &identity, fixture_timestamp(), "\n")));
}

#[test]
fn header_is_found_with_either_line_break() {
    assert!(has_42_header(&fixture_header("\r\n")));
    assert!(has_42_header(&fixture_header("\n").replacen('\n', "\r\n", 3)));
    let without_last_break = fixture_header("\n").trim_end().to_string();
    assert!(has_42_header(&without_last_break));
}

#[test]
fn damaged_headers_are_not_headers() {
    let header = fixture_header("\n");
    assert!(!has_42_header(&header[81..]));
    assert!(!has_42_header(&format!("\n{header}")));
    assert!(!has_42_header(&header.replace("Created", "created")));
    assert!(!has_42_header(&header.replace("2026/03/11", "2026-03-11")));
    assert!(!has_42_header(&header.replace("By:", "by:")));
    assert!(!has_42_header(&header.replace("main.c ", "main.c")));
    assert!(!has_42_header(""));
}

#[test]
fn file_and_author_lines_are_told_by_their_ends() {
    assert!(header_file_line_matches("/*   x:+:      :+:    :+:   */"));
    assert!(!header_file_line_matches("/*  x:+:      :+:    :+:   */"));
    assert!(!header_file_line_matches("/*   x:+:      :+:    :+:  */"));
    assert!(header_author_line_matches("/*   By: x#+#  +:+       +#+        */"));
    assert!(!header_author_line_matches("/*   By x#+#  +:+       +#+        */"));
    assert!(!header_author_line_matches("/*   By: x#+#  +:+       +#+       */"));
}

#[test]
fn stamped_lines_follow_their_patterns() {
    let created = "/*   Created: 2026/03/11 12:34:56 by marvin            #+#    #+#             */";
    let updated = "/*   Updated: 2026/03/11 12:34:56 by marvin           ###   ########.fr       */";
    assert!(header_created_line_matches(created));
    assert!(header_updated_line_matches(updated));
    assert!(!header_created_line_matches(updated));
    assert!(!header_updated_line_matches(created));
    assert!(!header_created_line_matches(&format!("{created} ")));
    assert!(!header_updated_line_matches(&updated.replace("12:34:56", "12:34:5x")));
    // Digits of other scripts and other white space are digits and white space.
    assert!(header_updated_line_matches(&updated.replace("2026", "\u{662}\u{660}\u{662}\u{666}")));
    assert!(header_updated_line_matches(&updated.replace("###   #", "###\u{a0}\t\u{3000}#")));
    assert!(!header_updated_line_matches(&updated.replace("2026", "\u{b2}026")));
    assert!(!header_updated_line_matches(&updated.replace("marvin ", "marvin\n")));
}

#[test]
fn rendering_puts_a_header_in_front() {
    let source = "int main(void)\n";
    let output =
        render_document_with_header(source, "main.c", &fixture_identity(), fixture_timestamp())
            .expect("rendered document");
    assert_eq!(output, format!("{}{source}", fixture_header("\n")));
    let source = "int main(void)\r\n";
    let output =
        render_document_with_header(source, "main.c", &fixture_identity(), fixture_timestamp())
            .expect("rendered document");
    assert_eq!(output, format!("{}{source}", fixture_header("\r\n")));
    assert!(has_42_header(&output));
}

#[test]
fn rendering_updates_one_line() {
    let source = format!("{}int main(void)\n{{\n}}", fixture_header("\n"));
    let other = AuthorIdentity {
        login: "cadet".to_string(),
        email: "cadet@student.42lyon.fr".to_string(),
    };
    let output = render_document_with_header(&source, "other.c", &other, "2026/03/11 13:00:00")
        .expect("rendered document");
    let expected = source.replace(
        "Updated: 2026/03/11 12:34:56 by marvin",
        "Updated: 2026/03/11 13:00:00 by cadet ",
    );
    assert_eq!(output, expected);
}

#[test]
fn rendering_keeps_the_line_break_of_the_document() {
    let source = format!("{}int main(void)\r\n", fixture_header("\r\n"));
    let output =
        render_document_with_header(&source, "main.c", &fixture_identity(), "2026/03/11 13:00:00")
            .expect("rendered document");
    assert_eq!(output, source.replace("Updated: 2026/03/11 12:34:56", "Updated: 2026/03/11 13:00:00"));
    // Mixed line breaks become one.
    let mixed = format!("{}int a;\nint b;\r\n", fixture_header("\n"));
    let output =
        render_document_with_header(&mixed, "main.c", &fixture_identity(), fixture_timestamp())
            .expect("rendered document");
    assert_eq!(output, format!("{}int a;\r\nint b;\r\n", fixture_header("\r\n")));
}

#[test]
fn rendering_a_carriage_return_before_a_line_break_drops_it() {
    let source = format!("{}abc\r\r\r\n", fixture_header("\r\n"));
    let once =
        render_document_with_header(&source, "main.c", &fixture_identity(), fixture_timestamp())
            .expect("rendered document");
    assert_eq!(once, format!("{}abc\r\r\n", fixture_header("\r\n")));
    let twice =
        render_document_with_header(&once, "main.c", &fixture_identity(), fixture_timestamp())
            .expect("rendered document");
    assert_eq!(twice, format!("{}abc\r\n", fixture_header("\r\n")));
}

#[test]
fn last_update_shows() {
    let source = format!("{}int main(void)\n", fixture_header("\n"));
    let identity = fixture_identity();
    let first =
        render_document_with_header(&source, "main.c", &identity, "2026/03/11 13:00:00")
            .expect("first update");
    let second =
        render_document_with_header(&first, "main.c", &identity, "2026/03/11 14:00:00")
            .expect("second update");
    let direct =
        render_document_with_header(&source, "main.c", &identity, "2026/03/11 14:00:00")
            .expect("direct update");
    assert_eq!(second, direct);
    let again = render_document_with_header(&second, "main.c", &identity, "2026/03/11 14:00:00")
        .expect("same update");
    assert_eq!(again, second);
}
