//! Language detection for chunk tagging.
//!
//! The detector itself is an in-process routine of an outside crate; its
//! verdict is a pure function of the text, named here by
//! [`detected_lang_code`].  The verified part maps its ISO 639-3 code onto
//! the fixed set of languages the persistence layer's text search accepts,
//! falling back to [`Language::Simple`] whenever detection yields nothing
//! or a language outside that set: detection never fails.

use vstd::prelude::*;

verus! {

/// The languages the persistence layer's text-search configuration
/// accepts, plus the `Simple` fallback that applies no stemming.
#[derive(Clone, Copy, PartialEq, Eq, Structural, Debug)]
pub enum Language {
    Simple,
    Arabic,
    Armenian,
    Basque,
    Catalan,
    Danish,
    Dutch,
    English,
    Finnish,
    French,
    German,
    Greek,
    Hindi,
    Hungarian,
    Indonesian,
    Irish,
    Italian,
    Lithuanian,
    Nepali,
    Norwegian,
    Portuguese,
    Romanian,
    Russian,
    Serbian,
    Spanish,
    Swedish,
    Tamil,
    Turkish,
    Yiddish,
}

/// The ISO 639-3 code the detector reports for a text, if it reports
/// one.  Detection is deterministic: the same text always yields the
/// same code.
pub uninterp spec fn detected_lang_code(text: Seq<char>) -> Option<Seq<char>>;

/// Relies on `whatlang::detect_lang` and `whatlang::Lang::code`: the
/// verdict is a pure function of the text (script counts and trigram
/// statistics), reported as an ISO 639-3 code; text with no letters, in
/// particular empty text, detects nothing.
#[verifier::external_body]
fn whatlang_code(text: &str) -> (r: Option<String>)
    ensures
        r.deep_view() == detected_lang_code(text@),
        text@.len() == 0 ==> r is None,
{
    whatlang::detect_lang(text).map(|l| l.code().to_string())
}

/// The language a detector code stands for: one of the accepted set, or
/// `Simple` for no code or a code outside the set.
pub open spec fn spec_language_of(code: Option<Seq<char>>) -> Language {
    match code {
        None => Language::Simple,
        Some(c) => if c == "ara"@ {
            Language::Arabic
        } else if c == "hye"@ {
            Language::Armenian
        } else if c == "cat"@ {
            Language::Catalan
        } else if c == "dan"@ {
            Language::Danish
        } else if c == "eng"@ {
            Language::English
        } else if c == "fin"@ {
            Language::Finnish
        } else if c == "fra"@ {
            Language::French
        } else if c == "deu"@ {
            Language::German
        } else if c == "ell"@ {
            Language::Greek
        } else if c == "hin"@ {
            Language::Hindi
        } else if c == "hun"@ {
            Language::Hungarian
        } else if c == "ind"@ {
            Language::Indonesian
        } else if c == "ita"@ {
            Language::Italian
        } else if c == "lit"@ {
            Language::Lithuanian
        } else if c == "nep"@ {
            Language::Nepali
        } else if c == "nld"@ {
            Language::Dutch
        } else if c == "nob"@ {
            Language::Norwegian
        } else if c == "por"@ {
            Language::Portuguese
        } else if c == "ron"@ {
            Language::Romanian
        } else if c == "rus"@ {
            Language::Russian
        } else if c == "srp"@ {
            Language::Serbian
        } else if c == "spa"@ {
            Language::Spanish
        } else if c == "swe"@ {
            Language::Swedish
        } else if c == "tam"@ {
            Language::Tamil
        } else if c == "tur"@ {
            Language::Turkish
        } else if c == "yid"@ {
            Language::Yiddish
        } else {
            Language::Simple
        },
    }
}

/// Returns whether the string equals the literal.
fn str_is(s: &String, lit: &str) -> (r: bool)
    ensures
        r == (s@ == lit@),
{
    let t: String = lit.to_owned();
    s.eq(&t)
}

/// Maps a detector code onto the accepted language set.
pub fn language_of_code(code: &Option<String>) -> (r: Language)
    ensures
        r == spec_language_of(code.deep_view()),
{
    match code {
        None => Language::Simple,
        Some(c) => {
            if str_is(c, "ara") {
                Language::Arabic
            } else if str_is(c, "hye") {
                Language::Armenian
            } else if str_is(c, "cat") {
                Language::Catalan
            } else if str_is(c, "dan") {
                Language::Danish
            } else if str_is(c, "eng") {
                Language::English
            } else if str_is(c, "fin") {
                Language::Finnish
            } else if str_is(c, "fra") {
                Language::French
            } else if str_is(c, "deu") {
                Language::German
            } else if str_is(c, "ell") {
                Language::Greek
            } else if str_is(c, "hin") {
                Language::Hindi
            } else if str_is(c, "hun") {
                Language::Hungarian
            } else if str_is(c, "ind") {
                Language::Indonesian
            } else if str_is(c, "ita") {
                Language::Italian
            } else if str_is(c, "lit") {
                Language::Lithuanian
            } else if str_is(c, "nep") {
                Language::Nepali
            } else if str_is(c, "nld") {
                Language::Dutch
            } else if str_is(c, "nob") {
                Language::Norwegian
            } else if str_is(c, "por") {
                Language::Portuguese
            } else if str_is(c, "ron") {
                Language::Romanian
            } else if str_is(c, "rus") {
                Language::Russian
            } else if str_is(c, "srp") {
                Language::Serbian
            } else if str_is(c, "spa") {
                Language::Spanish
            } else if str_is(c, "swe") {
                Language::Swedish
            } else if str_is(c, "tam") {
                Language::Tamil
            } else if str_is(c, "tur") {
                Language::Turkish
            } else if str_is(c, "yid") {
                Language::Yiddish
            } else {
                Language::Simple
            }
        },
    }
}

/// Detects the language of a text; empty text always falls back to
/// `Simple`.
pub fn detect_language(text: &str) -> (r: Language)
    ensures
        r == spec_language_of(detected_lang_code(text@)),
        text@.len() == 0 ==> r == Language::Simple,
{
    let code = whatlang_code(text);
    language_of_code(&code)
}

/// Fallback: when detection reports nothing, the language is the fixed
/// fallback `Simple`, never an error; [`spec_language_of`] is total, so
/// every other verdict also maps to some accepted language.
pub proof fn lemma_language_fallback(code: Option<Seq<char>>)
    ensures
        code is None ==> spec_language_of(code) == Language::Simple,
{
}

/// The name under which the persistence layer knows each language.
pub open spec fn spec_pg_name(l: Language) -> Seq<char> {
    match l {
        Language::Simple => "Simple"@,
        Language::Arabic => "Arabic"@,
        Language::Armenian => "Armenian"@,
        Language::Basque => "Basque"@,
        Language::Catalan => "Catalan"@,
        Language::Danish => "danish"@,
        Language::Dutch => "dutch"@,
        Language::English => "english"@,
        Language::Finnish => "finnish"@,
        Language::French => "french"@,
        Language::German => "german"@,
        Language::Greek => "greek"@,
        Language::Hindi => "hindi"@,
        Language::Hungarian => "hungarian"@,
        Language::Indonesian => "indonesian"@,
        Language::Irish => "irish"@,
        Language::Italian => "italian"@,
        Language::Lithuanian => "lithuanian"@,
        Language::Nepali => "nepali"@,
        Language::Norwegian => "norwegian"@,
        Language::Portuguese => "portuguese"@,
        Language::Romanian => "romanian"@,
        Language::Russian => "russian"@,
        Language::Serbian => "serbian"@,
        Language::Spanish => "spanish"@,
        Language::Swedish => "swedish"@,
        Language::Tamil => "tamil"@,
        Language::Turkish => "turkish"@,
        Language::Yiddish => "yiddish"@,
    }
}

impl Language {
    /// The language's name as the persistence layer expects it.
    pub fn pg_name(&self) -> (r: String)
        ensures
            r@ == spec_pg_name(*self),
    {
        match self {
            Language::Simple => "Simple".to_owned(),
            Language::Arabic => "Arabic".to_owned(),
            Language::Armenian => "Armenian".to_owned(),
            Language::Basque => "Basque".to_owned(),
            Language::Catalan => "Catalan".to_owned(),
            Language::Danish => "danish".to_owned(),
            Language::Dutch => "dutch".to_owned(),
            Language::English => "english".to_owned(),
            Language::Finnish => "finnish".to_owned(),
            Language::French => "french".to_owned(),
            Language::German => "german".to_owned(),
            Language::Greek => "greek".to_owned(),
            Language::Hindi => "hindi".to_owned(),
            Language::Hungarian => "hungarian".to_owned(),
            Language::Indonesian => "indonesian".to_owned(),
            Language::Irish => "irish".to_owned(),
            Language::Italian => "italian".to_owned(),
            Language::Lithuanian => "lithuanian".to_owned(),
            Language::Nepali => "nepali".to_owned(),
            Language::Norwegian => "norwegian".to_owned(),
            Language::Portuguese => "portuguese".to_owned(),
            Language::Romanian => "romanian".to_owned(),
            Language::Russian => "russian".to_owned(),
            Language::Serbian => "serbian".to_owned(),
            Language::Spanish => "spanish".to_owned(),
            Language::Swedish => "swedish".to_owned(),
            Language::Tamil => "tamil".to_owned(),
            Language::Turkish => "turkish".to_owned(),
            Language::Yiddish => "yiddish".to_owned(),
        }
    }
}

} // verus!
