use forty_two_tools::json::{command_uri, parse_command_uri};
use forty_two_tools::uri::{
    choose_file_name, file_name_from_uri, file_name_of_path, is_c_file_name,
    is_supported_c_document, uri_to_path, DocumentUri,
};
use serde_json::Value;

fn uri(text: &str) -> DocumentUri {
    DocumentUri::parse(text).expect("valid URI")
}

fn json(text: &str) -> Value {
    serde_json::from_str(text).expect("valid JSON")
}

#[test]
fn uris_are_normalised() {
    assert_eq!(uri("file:///tmp/../src/main.c").text, "file:///src/main.c");
    assert_eq!(uri("FILE:///tmp/a b.c").text, "file:///tmp/a%20b.c");
    assert_eq!(DocumentUri::parse("main.c"), None);
    assert_eq!(DocumentUri::parse(""), None);
}

#[test]
fn file_uris_have_paths() {
    assert_eq!(uri_to_path(&uri("file:///tmp/a%20b.c")), Ok(b"/tmp/a b.c".to_vec()));
    assert_eq!(
        uri_to_path(&uri("https://example.com/main.c")),
        Err("unsupported non-file URI: https://example.com/main.c".to_string())
    );
}

#[test]
fn file_names_come_from_paths_or_segments() {
    assert_eq!(
        file_name_from_uri(&uri("file:///tmp/a%20b.c")),
        Some("a b.c".to_string())
    );
    assert_eq!(
        file_name_from_uri(&uri("https://example.com/src/a%20b.c")),
        Some("a%20b.c".to_string())
    );
    assert_eq!(
        file_name_from_uri(&uri("file:///tmp/%ff.c")),
        Some("%ff.c".to_string())
    );
    assert_eq!(file_name_from_uri(&uri("https://example.com/")), None);
    assert_eq!(file_name_from_uri(&uri("untitled:main.c")), None);
    assert_eq!(file_name_from_uri(&uri("file:///")), None);
    assert_eq!(
        file_name_from_uri(&uri("file:///tmp/src/")),
        Some("src".to_string())
    );
}

#[test]
fn file_names_of_paths() {
    let name = |path: &str| {
        file_name_of_path(path.as_bytes()).map(|name| String::from_utf8(name).expect("UTF-8"))
    };
    assert_eq!(name("/tmp/main.c"), Some("main.c".to_string()));
    assert_eq!(name("main.c"), Some("main.c".to_string()));
    assert_eq!(name("/tmp/main.c//"), Some("main.c".to_string()));
    assert_eq!(name("/tmp/main.c/."), Some("main.c".to_string()));
    assert_eq!(name("/tmp/.."), None);
    assert_eq!(name("/"), None);
    assert_eq!(name(""), None);
    assert_eq!(
        choose_file_name(&Some(b"/tmp/..".to_vec()), &Some(vec!["x.h".to_string()])),
        Some("x.h".to_string())
    );
    assert_eq!(choose_file_name(&None, &Some(vec!["a".to_string(), String::new()])), None);
    assert_eq!(choose_file_name(&None, &None), None);
}

#[test]
fn c_files_are_told_by_their_extension() {
    for name in ["main.c", "libft.h", "MAIN.C", "a.b.H", "..c"] {
        assert!(is_c_file_name(name), "{name}");
    }
    for name in ["main.cpp", "main", ".c", "c", "main.", "main.c.txt", "..", "main.ç", ""] {
        assert!(!is_c_file_name(name), "{name}");
    }
    assert!(is_supported_c_document(&uri("file:///tmp/main.c")));
    assert!(is_supported_c_document(&uri("https://example.com/libft.H")));
    assert!(!is_supported_c_document(&uri("file:///tmp/main.rs")));
    assert!(!is_supported_c_document(&uri("untitled:main.c")));
}

#[test]
fn commands_name_documents_in_two_ways() {
    let expected = Some(uri("file:///tmp/main.c"));
    assert_eq!(parse_command_uri(&json("\"file:///tmp/main.c\"")), expected);
    assert_eq!(parse_command_uri(&json("{\"uri\": \"file:///tmp/main.c\"}")), expected);
    assert_eq!(parse_command_uri(&json("{\"url\": \"file:///tmp/main.c\"}")), None);
    assert_eq!(parse_command_uri(&json("{\"uri\": 3}")), None);
    assert_eq!(parse_command_uri(&json("\"main.c\"")), None);
    assert_eq!(parse_command_uri(&json("[\"file:///tmp/main.c\"]")), None);
    assert_eq!(parse_command_uri(&json("null")), None);
    assert_eq!(command_uri(None, Some("file:///tmp/main.c")), expected);
    assert_eq!(command_uri(Some("main.c"), Some("file:///tmp/main.c")), None);
    assert_eq!(command_uri(None, None), None);
}
