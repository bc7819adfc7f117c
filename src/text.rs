use vstd::prelude::*;

verus! {

/// `text` with every line break turned into a space; the length is kept.
pub open spec fn newlines_as_spaces(text: Seq<char>) -> Seq<char> {
    text.map_values(|c: char| if c == '\n' { ' ' } else { c })
}

/// Relies on str::replace: every occurrence of the pattern is replaced.
#[verifier::external_body]
pub(crate) fn replace_newlines(text: &str) -> (r: String)
    ensures
        r@ == newlines_as_spaces(text@),
{
    text.replace("\n", " ")
}

/// What `str::to_uppercase` makes of a text.
pub uninterp spec fn upper_of(text: Seq<char>) -> Seq<char>;

/// Relies on str::to_uppercase: the result depends on the characters alone.
#[verifier::external_body]
pub(crate) fn uppercase(text: &str) -> (r: String)
    ensures
        r@ == upper_of(text@),
{
    text.to_uppercase()
}

} // verus!
