//! Texts in quotation marks, as messages show them.

use vstd::prelude::*;

verus! {

/// A text in quotation marks, with what could not be shown in them escaped.
pub uninterp spec fn quoted_text(text: Seq<char>) -> Seq<char>;

/// `str`'s `Debug` quotes a text by the text alone. How it escapes single
/// characters is left to it.
#[verifier::external_body]
pub(crate) fn quoted(text: &str) -> (r: String)
    ensures
        r@ == quoted_text(text@),
{
    format!("{text:?}")
}

} // verus!
