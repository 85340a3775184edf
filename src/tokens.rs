use vstd::prelude::*;

verus! {

/// The token buffer of `quote`, in which emitted items end.
#[verifier::external_type_specification]
#[verifier::external_body]
pub struct ExTokens(quote::Tokens);

/// The text that a token buffer holds.
pub uninterp spec fn tokens_text(t: quote::Tokens) -> Seq<char>;

/// What `quote::Tokens::append` leaves behind: the new text after the old,
/// with one space between them when both are non-empty.
pub open spec fn appended(old_text: Seq<char>, s: Seq<char>) -> Seq<char> {
    if old_text.len() > 0 && s.len() > 0 { old_text + " "@ + s } else { old_text + s }
}

/// Relies on `quote::Tokens::new`: a buffer with no text.
pub assume_specification[ quote::Tokens::new ]() -> (r: quote::Tokens)
    ensures
        tokens_text(r) == Seq::<char>::empty(),
;

/// Relies on `quote::Tokens::as_str`: the text the buffer holds.
pub assume_specification[ quote::Tokens::as_str ](t: &quote::Tokens) -> (r: &str)
    ensures
        r@ == tokens_text(*t),
;

/// Relies on `quote::Tokens::append`: a space when both sides are non-empty,
/// then the token's text.
#[verifier::external_body]
pub(crate) fn append(t: &mut quote::Tokens, s: &str)
    ensures
        tokens_text(*final(t)) == appended(tokens_text(*old(t)), s@),
{
    t.append(s)
}

/// A token buffer that holds exactly `s`.
pub fn tokens_of(s: &str) -> (r: quote::Tokens)
    ensures
        tokens_text(r) == s@,
{
    let mut t = quote::Tokens::new();
    append(&mut t, s);
    proof {
        assert(Seq::<char>::empty() + s@ =~= s@);
    }
    t
}

} // verus!
