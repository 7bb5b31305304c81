use forty_two_tools::documents::{after_file_read, DocumentStore, ReadAction};
use forty_two_tools::uri::DocumentUri;

fn uri(text: &str) -> DocumentUri {
    DocumentUri::parse(text).expect("valid URI")
}

#[test]
fn opened_documents_are_read_back() {
    let main = uri("file:///tmp/main.c");
    let other = uri("file:///tmp/other.c");
    let mut store = DocumentStore::new();
    assert_eq!(store.text_of(&main), None);
    store.did_open(&main, "int a;".to_string());
    store.did_open(&other, "int b;".to_string());
    assert_eq!(store.text_of(&main), Some("int a;".to_string()));
    store.did_open(&main, "int c;".to_string());
    assert_eq!(store.text_of(&main), Some("int c;".to_string()));
    assert_eq!(store.text_of(&other), Some("int b;".to_string()));
}

#[test]
fn last_change_stands() {
    let main = uri("file:///tmp/main.c");
    let mut store = DocumentStore::new();
    store.did_open(&main, "int a;".to_string());
    store.did_change(&main, Vec::new());
    assert_eq!(store.text_of(&main), Some("int a;".to_string()));
    store.did_change(&main, vec!["int b;".to_string(), "int c;".to_string()]);
    assert_eq!(store.text_of(&main), Some("int c;".to_string()));
}

#[test]
fn closed_documents_are_forgotten() {
    let main = uri("file:///tmp/main.c");
    let other = uri("file:///tmp/other.c");
    let mut store = DocumentStore::new();
    store.did_open(&main, "int a;".to_string());
    store.did_open(&other, "int b;".to_string());
    store.did_close(&main);
    store.did_close(&uri("file:///tmp/unknown.c"));
    assert_eq!(store.text_of(&main), None);
    assert_eq!(store.text_of(&other), Some("int b;".to_string()));
}

#[test]
fn unopened_documents_are_read_from_disk() {
    let mut store = DocumentStore::new();
    let main = uri("file:///tmp/main.c");
    match store.read_document_text(&main) {
        ReadAction::ReadFile(path) => assert_eq!(path, b"/tmp/main.c".to_vec()),
        other => panic!("expected a file, got {other:?}"),
    }
    match store.read_document_text(&uri("untitled:main.c")) {
        ReadAction::Fail(error) => assert_eq!(error, "unsupported non-file URI: untitled:main.c"),
        other => panic!("expected a failure, got {other:?}"),
    }
    store.did_open(&main, "int a;".to_string());
    match store.read_document_text(&main) {
        ReadAction::Known(text) => assert_eq!(text, "int a;"),
        other => panic!("expected the text, got {other:?}"),
    }
}

#[test]
fn unreadable_files_are_reported() {
    assert_eq!(after_file_read("/tmp/main.c", Ok("int a;".to_string())), Ok("int a;".to_string()));
    assert_eq!(
        after_file_read("/tmp/main.c", Err("Permission denied".to_string())),
        Err("failed to read `/tmp/main.c` from disk: Permission denied".to_string())
    );
}
