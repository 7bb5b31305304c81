//! Headers, formatting and server decisions for C projects of the 42 school.

pub mod bytes;
pub mod clock;
pub mod documents;
pub mod edit_laws;
pub mod edits;
pub mod environment;
pub mod extension;
pub mod extension_laws;
pub mod formatter;
pub mod formatter_laws;
pub mod header;
pub mod header_laws;
pub mod header_text_laws;
pub mod json;
pub mod lines;
pub mod pairs;
pub mod pattern;
pub mod server;
pub mod server_laws;
pub mod settings;
pub mod settings_laws;
pub mod text;
pub mod text_laws;
pub mod uri;
pub mod uri_laws;
