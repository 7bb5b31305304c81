//! Settings of the language server, and what is taken where one is absent.

use vstd::prelude::*;

use crate::text::{
    blank, joined3, lemma_trimmed_blank, meaningful, str_view, string_view, trimmed, trimmed_option,
};

verus! {

/// The domain of an author's mail address where the settings name none.
pub const DEFAULT_EMAIL_DOMAIN: &'static str = "student.42istanbul.com.tr";

/// The login where neither the settings nor the environment name one.
pub const UNKNOWN_LOGIN: &'static str = "unknown";

/// Who signs a header.
#[derive(Debug, Clone, PartialEq, Eq)]
pub struct AuthorIdentity {
    pub login: String,
    pub email: String,
}

/// The settings of the server.
#[derive(Debug, Clone, PartialEq, Eq)]
pub struct RuntimeSettings {
    pub formatter: FormatterSettings,
    pub header: HeaderSettings,
}

/// Which formatter is run, and how.
#[derive(Debug, Clone, PartialEq, Eq)]
pub struct FormatterSettings {
    pub path: Option<String>,
    pub arguments: Vec<String>,
}

/// Who signs headers.
#[derive(Debug, Clone, PartialEq, Eq)]
pub struct HeaderSettings {
    pub login: Option<String>,
    pub email_domain: Option<String>,
}

impl FormatterSettings {
    /// Nothing is set.
    pub open spec fn is_default(self) -> bool {
        self.path is None && self.arguments@.len() == 0
    }
}

impl HeaderSettings {
    /// Nothing is set.
    pub open spec fn is_default(self) -> bool {
        self.login is None && self.email_domain is None
    }
}

impl RuntimeSettings {
    /// Nothing is set.
    pub open spec fn is_default(self) -> bool {
        self.formatter.is_default() && self.header.is_default()
    }
}

impl Default for FormatterSettings {
    fn default() -> (settings: Self)
        ensures
            settings.is_default(),
    {
        FormatterSettings { path: None, arguments: Vec::new() }
    }
}

impl Default for HeaderSettings {
    fn default() -> (settings: Self)
        ensures
            settings.is_default(),
    {
        HeaderSettings { login: None, email_domain: None }
    }
}

impl Default for RuntimeSettings {
    fn default() -> (settings: Self)
        ensures
            settings.is_default(),
    {
        RuntimeSettings {
            formatter: FormatterSettings::default(),
            header: HeaderSettings::default(),
        }
    }
}

/// A setting that counts: present and not blank, without the white space at
/// its ends.
pub open spec fn effective(setting: Option<String>) -> Option<Seq<char>> {
    match setting {
        Some(text) => meaningful(text@),
        None => None,
    }
}

/// The setting that counts, if there is one.
pub fn effective_setting(setting: &Option<String>) -> (part: Option<&str>)
    ensures
        str_view(part) == effective(*setting),
{
    match setting {
        Some(text) => trimmed_option(text.as_str()),
        None => None,
    }
}

/// The login that the environment gives: the first of two sources that is not
/// blank, or `unknown`.
pub open spec fn environment_login(
    user: Option<Seq<char>>,
    username: Option<Seq<char>>,
) -> Seq<char> {
    if user is Some && !blank(user->0) {
        trimmed(user->0)
    } else if username is Some && !blank(username->0) {
        trimmed(username->0)
    } else {
        UNKNOWN_LOGIN@
    }
}

/// Takes the login from the first source that is not blank.
pub fn resolve_login_from_sources(user: Option<&str>, username: Option<&str>) -> (login: String)
    ensures
        login@ == environment_login(str_view(user), str_view(username)),
{
    if let Some(value) = user {
        if let Some(login) = trimmed_option(value) {
            return login.to_string();
        }
    }
    if let Some(value) = username {
        if let Some(login) = trimmed_option(value) {
            return login.to_string();
        }
    }
    UNKNOWN_LOGIN.to_string()
}

/// The login that signs a header.
pub open spec fn author_login(
    settings: HeaderSettings,
    user: Option<Seq<char>>,
    username: Option<Seq<char>>,
) -> Seq<char> {
    match effective(settings.login) {
        Some(login) => login,
        None => environment_login(user, username),
    }
}

/// The mail domain that signs a header.
pub open spec fn author_domain(settings: HeaderSettings) -> Seq<char> {
    match effective(settings.email_domain) {
        Some(domain) => domain,
        None => DEFAULT_EMAIL_DOMAIN@,
    }
}

/// The mail address made of a login and a domain.
pub open spec fn mail_address(login: Seq<char>, domain: Seq<char>) -> Seq<char> {
    login + "@"@ + domain
}

/// A login in the settings hides those of the environment.
pub proof fn set_login_hides_environment(
    settings: HeaderSettings,
    user: Option<Seq<char>>,
    username: Option<Seq<char>>,
)
    requires
        effective(settings.login) is Some,
    ensures
        author_login(settings, user, username) == effective(settings.login)->0,
{
}

/// Who signs a header has a login.
pub proof fn author_has_login(
    settings: HeaderSettings,
    user: Option<Seq<char>>,
    username: Option<Seq<char>>,
)
    ensures
        author_login(settings, user, username).len() > 0,
{
    reveal_strlit("unknown");
    if settings.login is Some {
        lemma_trimmed_blank(settings.login->0@);
    }
    if user is Some {
        lemma_trimmed_blank(user->0);
    }
    if username is Some {
        lemma_trimmed_blank(username->0);
    }
}

impl AuthorIdentity {
    /// Who signs a header: what the settings say, else the login of the
    /// environment (`user` and `username` are what it holds) at the default
    /// domain.
    pub fn from_settings(
        settings: &HeaderSettings,
        user: Option<&str>,
        username: Option<&str>,
    ) -> (identity: Self)
        ensures
            identity.login@ == author_login(*settings, str_view(user), str_view(username)),
            identity.email@ == mail_address(identity.login@, author_domain(*settings)),
    {
        let login = match effective_setting(&settings.login) {
            Some(login) => login.to_string(),
            None => resolve_login_from_sources(user, username),
        };
        let email_domain = match effective_setting(&settings.email_domain) {
            Some(domain) => domain,
            None => DEFAULT_EMAIL_DOMAIN,
        };
        let email = joined3(login.as_str(), "@", email_domain);
        AuthorIdentity { login, email }
    }
}

/// The text of the settings that the server is started with, if any is given.
///
/// `variable` is what the environment holds.
pub fn initial_settings_text(variable: Option<&str>) -> (text: Option<String>)
    ensures
        string_view(text) == match variable {
            Some(value) => meaningful(value@),
            None => None,
        },
{
    let part = match variable {
        Some(value) => trimmed_option(value),
        None => None,
    };
    match part {
        Some(text) => Some(text.to_string()),
        None => None,
    }
}

/// The settings that the server starts with: those that were decoded, or the
/// defaults where none were given or the text was not valid.
pub fn load_initial_runtime_settings(
    decoded: Option<Result<RuntimeSettings, String>>,
) -> (settings: RuntimeSettings)
    ensures
        match decoded {
            Some(Ok(given)) => settings == given,
            _ => settings.is_default(),
        },
{
    match decoded {
        Some(Ok(given)) => given,
        _ => RuntimeSettings::default(),
    }
}

} // verus!
