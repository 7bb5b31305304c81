//! JSON values that the editor sends: settings and arguments of commands.

use serde_json::Value;
use vstd::prelude::*;

use crate::settings::RuntimeSettings;
use crate::text::str_view;
use crate::uri::{url_normal_form, DocumentUri};

verus! {

// ---------------------------------------------------------------------------
// What a JSON value holds
// ---------------------------------------------------------------------------

/// `serde_json::Value`: a JSON value. Nothing is claimed of what it holds but
/// what the names below say.
#[verifier::external_type_specification]
#[verifier::external_body]
pub struct ExValue(Value);

/// Whether a value is `null`, as `Value::is_null` tells it.
pub uninterp spec fn json_is_null(value: Value) -> bool;

/// The text of a value that is a string, as `Value::as_str` gives it.
pub uninterp spec fn json_str(value: Value) -> Option<Seq<char>>;

/// The member of a value that is an object, as `Value::get` gives it.
pub uninterp spec fn json_member(value: Value, key: Seq<char>) -> Option<Value>;

/// The compact JSON text of a value, as its `to_string` writes it.
pub uninterp spec fn json_text(value: Value) -> Seq<char>;

/// `Value::is_null` tells whether the value is `null`; which values are is
/// left to the name `json_is_null`.
pub assume_specification[ Value::is_null ](value: &Value) -> (b: bool)
    ensures
        b == json_is_null(*value),
;

/// `Value::as_str` gives the text of a string, and nothing for another value,
/// so nothing for `null`; what it gives is left to the name `json_str`.
pub assume_specification[ Value::as_str ](value: &Value) -> (text: Option<&str>)
    ensures
        str_view(text) == json_str(*value),
        json_is_null(*value) ==> text is None,
;

/// `Value::get` with a key gives that member of an object, and nothing for
/// another value, so nothing for `null` and for a string; what it gives is left
/// to the name `json_member`.
#[verifier::external_body]
fn member<'a>(value: &'a Value, key: &str) -> (member: Option<&'a Value>)
    ensures
        match member {
            Some(found) => json_member(*value, key@) == Some(*found),
            None => json_member(*value, key@) is None,
        },
        json_is_null(*value) || json_str(*value) is Some ==> member is None,
{
    value.get(key)
}

/// `to_string` of a value writes it as compact JSON; the text is left to the
/// name `json_text`.
#[verifier::external_body]
pub(crate) fn compact_text(value: &Value) -> (text: String)
    ensures
        text@ == json_text(*value),
{
    value.to_string()
}

// ---------------------------------------------------------------------------
// Settings
// ---------------------------------------------------------------------------

/// The settings that a value stands for: the defaults for `null`, else what
/// decoding it gave.
pub fn parse_runtime_settings(
    value: &Value,
    decoded: Result<RuntimeSettings, String>,
) -> (settings: Result<RuntimeSettings, String>)
    ensures
        if json_is_null(*value) {
            settings is Ok && settings->Ok_0.is_default()
        } else {
            settings == decoded
        },
{
    settings_or_default(value.is_null(), decoded)
}

/// The defaults where `null` was given, else what decoding gave.
pub fn settings_or_default(
    is_null: bool,
    decoded: Result<RuntimeSettings, String>,
) -> (settings: Result<RuntimeSettings, String>)
    ensures
        is_null ==> settings is Ok && settings->Ok_0.is_default(),
        !is_null ==> settings == decoded,
{
    if is_null {
        return Ok(RuntimeSettings::default());
    }
    decoded
}

/// Puts new settings in the place of the current ones, which stay where the
/// new ones are not valid.
pub fn apply_runtime_settings(
    current: &mut RuntimeSettings,
    value: &Value,
    decoded: Result<RuntimeSettings, String>,
) -> (outcome: Result<(), String>)
    ensures
        if json_is_null(*value) {
            outcome is Ok && final(current).is_default()
        } else {
            match decoded {
                Ok(settings) => outcome is Ok && *final(current) == settings,
                Err(error) => outcome == Err::<(), String>(error) && *final(current) == *old(
                    current,
                ),
            }
        },
{
    match parse_runtime_settings(value, decoded) {
        Ok(settings) => {
            *current = settings;
            Ok(())
        },
        Err(error) => Err(error),
    }
}

// ---------------------------------------------------------------------------
// Arguments of commands
// ---------------------------------------------------------------------------

/// The member of an argument that names a document.
pub const URI_MEMBER: &'static str = "uri";

/// The text that names a document: the argument itself where it is a string,
/// else its member for the URI where that is one.
pub open spec fn argument_text(argument: Value) -> Option<Seq<char>> {
    match json_str(argument) {
        Some(text) => Some(text),
        None => match json_member(argument, URI_MEMBER@) {
            Some(member) => json_str(member),
            None => None,
        },
    }
}

/// The URI in its normal form that a text stands for, if it does.
pub open spec fn normal_uri(text: Option<Seq<char>>) -> Option<Seq<char>> {
    match text {
        Some(text) => url_normal_form(text),
        None => None,
    }
}

/// The URI of a document.
pub open spec fn uri_view(uri: Option<DocumentUri>) -> Option<Seq<char>> {
    match uri {
        Some(uri) => Some(uri.text@),
        None => None,
    }
}

/// The document that an argument names, given its text where it is a string
/// and the text of its member for the URI.
pub fn command_uri(text: Option<&str>, member_text: Option<&str>) -> (uri: Option<DocumentUri>)
    ensures
        uri_view(uri) == normal_uri(
            if text is Some {
                str_view(text)
            } else {
                str_view(member_text)
            },
        ),
{
    match text {
        Some(text) => DocumentUri::parse(text),
        None => match member_text {
            Some(text) => DocumentUri::parse(text),
            None => None,
        },
    }
}

/// The document that the argument of a command names.
pub fn parse_command_uri(value: &Value) -> (uri: Option<DocumentUri>)
    ensures
        uri_view(uri) == normal_uri(argument_text(*value)),
        json_is_null(*value) ==> uri is None,
{
    let member_text = match member(value, URI_MEMBER) {
        Some(found) => found.as_str(),
        None => None,
    };
    command_uri(value.as_str(), member_text)
}

} // verus!
