use vstd::prelude::*;

use unicode_normalization::UnicodeNormalization;

use crate::config::TranslitChoice;

verus! {

/// The canonical decomposition-then-composition (NFC) of a character sequence.
pub uninterp spec fn nfc_of(s: Seq<char>) -> Seq<char>;

/// The canonical decomposition (NFD) of a character sequence.
pub uninterp spec fn nfd_of(s: Seq<char>) -> Seq<char>;

/// The compatibility decomposition-then-composition (NFKC) of a character
/// sequence.
pub uninterp spec fn nfkc_of(s: Seq<char>) -> Seq<char>;

/// The compatibility decomposition (NFKD) of a character sequence.
pub uninterp spec fn nfkd_of(s: Seq<char>) -> Seq<char>;

/// Relies on `unicode_normalization`'s `nfc`, an implementation of Unicode
/// Standard Annex #15: the result depends on the characters alone, every
/// normalization form is idempotent, and no form maps a string to or from
/// the empty string.
#[verifier::external_body]
fn nfc(s: &str) -> (r: String)
    ensures
        r@ == nfc_of(s@),
        nfc_of(r@) == r@,
        s@.len() == 0 <==> r@.len() == 0,
{
    s.nfc().collect()
}

/// Relies on `unicode_normalization`'s `nfd`; see `nfc` for what is assumed
/// of the normalization forms.
#[verifier::external_body]
fn nfd(s: &str) -> (r: String)
    ensures
        r@ == nfd_of(s@),
        nfd_of(r@) == r@,
        s@.len() == 0 <==> r@.len() == 0,
{
    s.nfd().collect()
}

/// Relies on `unicode_normalization`'s `nfkc`; see `nfc` for what is assumed
/// of the normalization forms.
#[verifier::external_body]
fn nfkc(s: &str) -> (r: String)
    ensures
        r@ == nfkc_of(s@),
        nfkc_of(r@) == r@,
        s@.len() == 0 <==> r@.len() == 0,
{
    s.nfkc().collect()
}

/// Relies on `unicode_normalization`'s `nfkd`; see `nfc` for what is assumed
/// of the normalization forms.
#[verifier::external_body]
fn nfkd(s: &str) -> (r: String)
    ensures
        r@ == nfkd_of(s@),
        nfkd_of(r@) == r@,
        s@.len() == 0 <==> r@.len() == 0,
{
    s.nfkd().collect()
}

/// The text that `normalize` returns for the given form.
pub open spec fn normalize_spec(s: Seq<char>, form: Option<TranslitChoice>) -> Seq<char> {
    match form {
        Some(TranslitChoice::Nfc) => nfc_of(s),
        Some(TranslitChoice::Nfd) => nfd_of(s),
        Some(TranslitChoice::Nfkc) => nfkc_of(s),
        Some(TranslitChoice::Nfkd) => nfkd_of(s),
        None => s,
    }
}

/// The view of an optional borrowed form.
pub open spec fn form_view(form: Option<&TranslitChoice>) -> Option<TranslitChoice> {
    match form {
        Some(f) => Some(*f),
        None => None,
    }
}

/// Applies the configured Unicode normalization form. Normalizing an
/// already-normalized string under the same form yields the same string.
pub fn normalize(s: &str, form: Option<&TranslitChoice>) -> (r: String)
    ensures
        r@ == normalize_spec(s@, form_view(form)),
        normalize_spec(r@, form_view(form)) == r@,
        s@.len() == 0 <==> r@.len() == 0,
{
    match form {
        Some(TranslitChoice::Nfc) => nfc(s),
        Some(TranslitChoice::Nfd) => nfd(s),
        Some(TranslitChoice::Nfkc) => nfkc(s),
        Some(TranslitChoice::Nfkd) => nfkd(s),
        None => s.to_owned(),
    }
}

} // verus!
