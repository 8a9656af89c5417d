//! Switching the interface language.
use crate::utils::i18n::{lang_tag, pick_supported, supported_lang, Lang};
use vstd::prelude::*;

verus! {

/// The language switch form: the wanted language and where to go next.
#[derive(Debug, Clone)]
pub struct I18nForm {
    pub lang: String,
    pub redirect: Option<String>,
}

/// The answer to a language switch: where to go, and the cookie to set.
#[derive(Debug, Clone)]
pub struct LangRedirect {
    pub location: String,
    pub cookie: Option<String>,
}

/// The cookie that remembers a language for a year.
pub open spec fn lang_cookie(l: Lang) -> Seq<char> {
    "lang="@ + lang_tag(l) + "; Path=/; Max-Age=31536000; SameSite=Lax"@
}

/// Switches the language. `referer` is the request's `Referer` header when
/// readable; the page goes back there (or home). A supported language is
/// remembered in a cookie and the form's `redirect`, when given, is
/// followed; an unsupported one changes nothing.
pub fn set_lang(referer: Option<&str>, form: I18nForm) -> (r: LangRedirect)
    ensures
        ({
            let back = match referer {
                Some(b) => b@,
                None => "/"@,
            };
            match supported_lang(form.lang@) {
                Some(l) => r.cookie.deep_view() == Some(lang_cookie(l)) && r.location@ == match form.redirect {
                    Some(to) => to@,
                    None => back,
                },
                None => r.cookie is None && r.location@ == back,
            }
        }),
{
    let back = match referer {
        Some(b) => String::from_str(b),
        None => String::from_str("/"),
    };
    match pick_supported(form.lang.as_str()) {
        Some(l) => {
            let mut cookie = String::from_str("lang=");
            cookie.append(l.tag());
            cookie.append("; Path=/; Max-Age=31536000; SameSite=Lax");
            let location = match form.redirect {
                Some(to) => to,
                None => back,
            };
            LangRedirect { location, cookie: Some(cookie) }
        },
        None => LangRedirect { location: back, cookie: None },
    }
}

} // verus!
