//! The documents that the editor has open, and how the text of a document is
//! come by.

use vstd::prelude::*;

use crate::pairs::{
    distinct_keys, find_key, key_index, lemma_key_index, pair_views, upsert, upserted, Pair,
};
use crate::text::{joined, string_view};
use crate::uri::{uri_to_path, url_file_path, DocumentUri};

verus! {

/// The texts of the open documents.
pub struct DocumentStore {
    entries: Vec<(String, String)>,
}

/// The value of each key of a list without double keys.
pub open spec fn as_map(pairs: Seq<Pair>) -> Map<Seq<char>, Seq<char>> {
    Map::new(
        |key: Seq<char>| key_index(pairs, key) < pairs.len(),
        |key: Seq<char>| pairs[key_index(pairs, key)].1,
    )
}

impl View for DocumentStore {
    /// The text of each open document, by its URI.
    type V = Map<Seq<char>, Seq<char>>;

    closed spec fn view(&self) -> Map<Seq<char>, Seq<char>> {
        as_map(pair_views(self.entries@))
    }
}

/// The text of a document, if it is open.
pub open spec fn known_text(documents: Map<Seq<char>, Seq<char>>, uri: Seq<char>) -> Option<
    Seq<char>,
> {
    if documents.contains_key(uri) {
        Some(documents[uri])
    } else {
        None
    }
}

/// What was opened last under a URI is read back under it, and opening a
/// document changes no other one.
pub proof fn opened_text_is_read_back(
    documents: Map<Seq<char>, Seq<char>>,
    uri: Seq<char>,
    text: Seq<char>,
)
    ensures
        known_text(documents.insert(uri, text), uri) == Some(text),
        forall|other: Seq<char>|
            other != uri ==> #[trigger] known_text(documents.insert(uri, text), other)
                == known_text(documents, other),
{
}

/// A closed document is not known, and closing a document changes no other
/// one.
pub proof fn closed_document_is_forgotten(documents: Map<Seq<char>, Seq<char>>, uri: Seq<char>)
    ensures
        known_text(documents.remove(uri), uri) is None,
        forall|other: Seq<char>|
            other != uri ==> #[trigger] known_text(documents.remove(uri), other) == known_text(
                documents,
                other,
            ),
{
}

/// Giving a key a value changes the value of no other key.
proof fn lemma_upserted_map(pairs: Seq<Pair>, key: Seq<char>, value: Seq<char>)
    requires
        distinct_keys(pairs),
    ensures
        as_map(upserted(pairs, key, value)) == as_map(pairs).insert(key, value),
        distinct_keys(upserted(pairs, key, value)),
{
    let new = upserted(pairs, key, value);
    lemma_key_index(pairs, key);
    let place = key_index(pairs, key);
    assert forall|other: Seq<char>|
        #![trigger as_map(new).dom().contains(other)]
        as_map(new).dom().contains(other) == as_map(pairs).insert(key, value).dom().contains(other)
            && (as_map(new).dom().contains(other) ==> as_map(new)[other] == as_map(pairs).insert(
            key,
            value,
        )[other]) by {
        lemma_key_index(pairs, other);
        lemma_key_index(new, other);
        let was = key_index(pairs, other);
        let is = key_index(new, other);
        if other == key {
            if place < pairs.len() {
                assert(new[place].0 == key);
                if is < place {
                    assert(pairs[is].0 == key);
                }
            } else {
                assert(new[pairs.len() as int].0 == key);
                if is < pairs.len() {
                    assert(pairs[is].0 == key);
                }
            }
        } else {
            if was < pairs.len() {
                assert(new[was].0 == other);
                if is < was {
                    assert(new[is].0 == other);
                    assert(pairs[is].0 != other);
                }
            } else if is < new.len() {
                assert(new[is].0 == other);
                if is < pairs.len() {
                    assert(pairs[is].0 != other);
                }
            }
        }
    }
    assert(as_map(new) =~= as_map(pairs).insert(key, value));
    assert forall|i: int, j: int|
        0 <= i < new.len() && 0 <= j < new.len() && i != j implies #[trigger] new[i].0
        != #[trigger] new[j].0 by {
        if place < pairs.len() {
            assert(new[i].0 == pairs[i].0);
            assert(new[j].0 == pairs[j].0);
        } else {
            if i < pairs.len() {
                assert(pairs[i].0 != key);
            }
            if j < pairs.len() {
                assert(pairs[j].0 != key);
            }
        }
    }
}

/// Taking a key out changes the value of no other key.
proof fn lemma_removed_map(pairs: Seq<Pair>, key: Seq<char>)
    requires
        distinct_keys(pairs),
        key_index(pairs, key) < pairs.len(),
    ensures
        as_map(pairs.remove(key_index(pairs, key))) == as_map(pairs).remove(key),
        distinct_keys(pairs.remove(key_index(pairs, key))),
{
    lemma_key_index(pairs, key);
    let place = key_index(pairs, key);
    let new = pairs.remove(place);
    assert forall|other: Seq<char>|
        #![trigger as_map(new).dom().contains(other)]
        as_map(new).dom().contains(other) == as_map(pairs).remove(key).dom().contains(other) && (
        as_map(new).dom().contains(other) ==> as_map(new)[other] == as_map(pairs).remove(
            key,
        )[other]) by {
        lemma_key_index(pairs, other);
        lemma_key_index(new, other);
        let was = key_index(pairs, other);
        let is = key_index(new, other);
        if is < new.len() {
            assert(new[is].0 == other);
            if is < place {
                assert(pairs[is].0 == other);
            } else {
                assert(pairs[is + 1].0 == other);
            }
            if other == key {
                assert(pairs[place].0 == key);
                assert(false);
            }
            if was < pairs.len() && was != is && was != is + 1 {
                assert(pairs[was].0 == other);
            }
        } else if was < pairs.len() && other != key {
            if was < place {
                assert(new[was].0 == other);
            } else {
                assert(new[was - 1].0 == other);
            }
        }
    }
    assert(as_map(new) =~= as_map(pairs).remove(key));
    assert forall|i: int, j: int|
        0 <= i < new.len() && 0 <= j < new.len() && i != j implies #[trigger] new[i].0
        != #[trigger] new[j].0 by {
        let a = if i < place {
            i
        } else {
            i + 1
        };
        let b = if j < place {
            j
        } else {
            j + 1
        };
        assert(new[i].0 == pairs[a].0);
        assert(new[j].0 == pairs[b].0);
    }
}

impl DocumentStore {
    /// No document is held twice.
    #[verifier::type_invariant]
    spec fn well_formed(&self) -> bool {
        distinct_keys(pair_views(self.entries@))
    }

    /// No document is open.
    pub fn new() -> (store: Self)
        ensures
            store@ == Map::<Seq<char>, Seq<char>>::empty(),
    {
        let store = DocumentStore { entries: Vec::new() };
        assert(store@ =~= Map::<Seq<char>, Seq<char>>::empty());
        store
    }

    /// A document was opened.
    pub fn did_open(&mut self, uri: &DocumentUri, text: String)
        ensures
            final(self)@ == old(self)@.insert(uri.text@, text@),
    {
        proof {
            use_type_invariant(&*self);
            lemma_upserted_map(pair_views(self.entries@), uri.text@, text@);
        }
        let mut entries: Vec<(String, String)> = Vec::new();
        std::mem::swap(&mut entries, &mut self.entries);
        upsert(&mut entries, uri.text.clone(), text);
        self.entries = entries;
    }

    /// A document was changed: the last of its new texts stands.
    pub fn did_change(&mut self, uri: &DocumentUri, changes: Vec<String>)
        ensures
            final(self)@ == if changes@.len() == 0 {
                old(self)@
            } else {
                old(self)@.insert(uri.text@, changes@.last()@)
            },
    {
        if changes.len() > 0 {
            let text = changes[changes.len() - 1].clone();
            self.did_open(uri, text);
        }
    }

    /// A document was closed.
    pub fn did_close(&mut self, uri: &DocumentUri)
        ensures
            final(self)@ == old(self)@.remove(uri.text@),
    {
        proof {
            use_type_invariant(&*self);
        }
        let place = find_key(&self.entries, uri.text.as_str());
        let ghost before = pair_views(self.entries@);
        if place < self.entries.len() {
            proof {
                lemma_removed_map(before, uri.text@);
            }
            let mut entries: Vec<(String, String)> = Vec::new();
            std::mem::swap(&mut entries, &mut self.entries);
            let _ = entries.remove(place);
            proof {
                assert(pair_views(entries@) =~= before.remove(place as int));
            }
            self.entries = entries;
        } else {
            proof {
                assert(as_map(before).remove(uri.text@) =~= as_map(before));
            }
        }
    }

    /// The text of an open document.
    pub fn text_of(&self, uri: &DocumentUri) -> (text: Option<String>)
        ensures
            string_view(text) == known_text(self@, uri.text@),
    {
        let place = find_key(&self.entries, uri.text.as_str());
        if place < self.entries.len() {
            Some(self.entries[place].1.clone())
        } else {
            None
        }
    }

    /// Where the text of a document comes from: the editor where it has the
    /// document open, else the disk.
    pub fn read_document_text(&self, uri: &DocumentUri) -> (action: ReadAction)
        ensures
            if known_text(self@, uri.text@) is Some {
                action is Known && action->Known_0@ == known_text(self@, uri.text@)->0
            } else if url_file_path(uri.text@) is Some {
                action is ReadFile && action->ReadFile_0@ == url_file_path(uri.text@)->0
            } else {
                action is Fail && action->Fail_0@ == "unsupported non-file URI: "@ + uri.text@
            },
    {
        if let Some(text) = self.text_of(uri) {
            return ReadAction::Known(text);
        }
        match uri_to_path(uri) {
            Ok(path) => ReadAction::ReadFile(path),
            Err(error) => ReadAction::Fail(error),
        }
    }
}

/// How to come by the text of a document.
#[derive(Debug)]
pub enum ReadAction {
    /// It is known.
    Known(String),
    /// It stands in the file with this path.
    ReadFile(Vec<u8>),
    /// It cannot be had, and why.
    Fail(String),
}

/// The text of a document that was read from disk, or what is said where it
/// could not be read. `path` is the path as it is shown.
pub fn after_file_read(path: &str, outcome: Result<String, String>) -> (text: Result<
    String,
    String,
>)
    ensures
        match outcome {
            Ok(read) => text == Ok::<String, String>(read),
            Err(error) => text is Err && text->Err_0@ == "failed to read `"@ + path@
                + "` from disk: "@ + error@,
        },
{
    match outcome {
        Ok(read) => Ok(read),
        Err(error) => {
            let mut message = joined("failed to read `", path);
            message.append("` from disk: ");
            message.append(error.as_str());
            Err(message)
        },
    }
}

} // verus!
