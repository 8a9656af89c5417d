//! The language a handler renders in.
use crate::utils::i18n::{default_lang, Lang};
use vstd::prelude::*;

verus! {

/// The language chosen for the request.
#[derive(Debug, Clone, Copy)]
pub struct Locale {
    pub lang: Lang,
}

/// The locale set by the locale middleware, or the default language.
pub fn locale_or_default(found: Option<Locale>) -> (r: Locale)
    ensures
        r.lang == match found {
            Some(l) => l.lang,
            None => Lang::ZhCn,
        },
{
    match found {
        Some(l) => l,
        None => Locale { lang: default_lang() },
    }
}

} // verus!
