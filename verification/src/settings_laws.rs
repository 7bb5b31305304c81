//! What holds of settings, and of who signs a header.

use vstd::prelude::*;

use crate::settings::{
    author_domain, author_login, effective, environment_login, mail_address, HeaderSettings,
    RuntimeSettings,
};
use crate::text::{lemma_trimmed_blank, trimmed, white_space};
use crate::text_laws::trimming_takes_outer_white_space;

verus! {

/// The setting is there, and something in it is no white space.
pub open spec fn is_set(setting: Option<String>) -> bool {
    setting is Some && has_substance(setting->0@)
}

/// Something in the text is no white space.
pub open spec fn has_substance(text: Seq<char>) -> bool {
    exists|i: int| 0 <= i < text.len() && !white_space(#[trigger] text[i])
}

/// A setting counts where something in it is no white space, and then without
/// the white space at its ends.
pub proof fn settings_count_where_they_are_set(setting: Option<String>)
    ensures
        effective(setting) is Some <==> is_set(setting),
        is_set(setting) ==> effective(setting)->0 == trimmed(setting->0@),
{
}

/// The mail address is the login at the domain of the settings, whether or not
/// they set a login too; at the domain of the school only where they set no
/// domain.
pub proof fn set_domain_is_in_the_address(settings: HeaderSettings, login: Seq<char>)
    ensures
        is_set(settings.email_domain) ==> mail_address(login, author_domain(settings)) == login
            + seq!['@'] + trimmed(settings.email_domain->0@),
        !is_set(settings.email_domain) ==> mail_address(login, author_domain(settings)) == login
            + seq!['@'] + "student.42istanbul.com.tr"@,
{
    reveal_strlit("@");
    assert("@"@ =~= seq!['@']);
    settings_count_where_they_are_set(settings.email_domain);
}

/// Settings with the same domain give the same domain, whatever else they say.
pub proof fn domain_depends_on_its_setting_alone(a: HeaderSettings, b: HeaderSettings)
    requires
        a.email_domain == b.email_domain,
    ensures
        author_domain(a) == author_domain(b),
{
}

/// The login is that of the settings, else that of the first variable that
/// gives one, else `unknown`.
pub proof fn login_comes_from_the_first_source(
    settings: HeaderSettings,
    user: Option<Seq<char>>,
    username: Option<Seq<char>>,
)
    ensures
        author_login(settings, user, username) == if is_set(settings.login) {
            trimmed(settings.login->0@)
        } else if user is Some && has_substance(user->0) {
            trimmed(user->0)
        } else if username is Some && has_substance(username->0) {
            trimmed(username->0)
        } else {
            "unknown"@
        },
        !is_set(settings.login) ==> author_login(settings, user, username) == environment_login(
            user,
            username,
        ),
{
    settings_count_where_they_are_set(settings.login);
}

/// A domain in the settings does not touch the login.
pub proof fn login_depends_on_its_setting_alone(
    a: HeaderSettings,
    b: HeaderSettings,
    user: Option<Seq<char>>,
    username: Option<Seq<char>>,
)
    requires
        a.login == b.login,
    ensures
        author_login(a, user, username) == author_login(b, user, username),
{
}

/// A login has no white space at its ends.
pub proof fn login_is_trimmed(
    settings: HeaderSettings,
    user: Option<Seq<char>>,
    username: Option<Seq<char>>,
)
    ensures
        ({
            let login = author_login(settings, user, username);
            &&& login.len() > 0
            &&& !white_space(login[0])
            &&& !white_space(login.last())
        }),
{
    reveal_strlit("unknown");
    if settings.login is Some {
        lemma_trimmed_ends(settings.login->0@);
    }
    if user is Some {
        lemma_trimmed_ends(user->0);
    }
    if username is Some {
        lemma_trimmed_ends(username->0);
    }
}

proof fn lemma_trimmed_ends(s: Seq<char>)
    ensures
        has_substance(s) ==> trimmed(s).len() > 0 && !white_space(trimmed(s)[0]) && !white_space(
            trimmed(s).last(),
        ),
{
    lemma_trimmed_blank(s);
    trimming_takes_outer_white_space(s);
}

/// The defaults set nothing.
pub proof fn defaults_set_nothing(settings: RuntimeSettings)
    ensures
        settings.is_default() <==> {
            &&& settings.formatter.path is None
            &&& settings.formatter.arguments@.len() == 0
            &&& settings.header.login is None
            &&& settings.header.email_domain is None
        },
        settings.formatter.is_default() <==> settings.formatter.path is None
            && settings.formatter.arguments@.len() == 0,
        settings.header.is_default() <==> settings.header.login is None
            && settings.header.email_domain is None,
{
}

} // verus!
