//! The boundary to the Unicode compatibility-decomposition routine.
//!
//! The pipeline does not implement Unicode normalization itself: it relies on
//! an external, correctness-certified routine. The full decomposition of a
//! character sequence is named here by the bodiless spec function [`nfkd_of`];
//! the wrappers below state what the external calls return in terms of that
//! name, and everything the rest of the library proves rests on those
//! statements.

use unicode_normalization::IsNormalized;
use unicode_normalization::UnicodeNormalization;
use unicode_normalization::is_nfkd;
use unicode_normalization::is_nfkd_quick;
use vstd::prelude::*;

verus! {

/// The compatibility decomposition (NFKD) of a character sequence: every
/// compatibility-equivalent character expanded into its canonical sequence of
/// base characters and combining marks, in canonical order. The result is a
/// function of the input characters alone; its value is fixed only by the
/// trusted wrappers below.
pub uninterp spec fn nfkd_of(s: Seq<char>) -> Seq<char>;

/// Outcome of the table-driven quick check: a fast pre-test that classifies
/// text as already normalized, not normalized, or undecidable without running
/// the full decomposition.
#[derive(Clone, Copy, PartialEq, Eq, Structural, Debug)]
pub enum QuickCheckOutcome {
    /// The text is definitely in decomposed form.
    AlreadyNormalized,
    /// The text is definitely not in decomposed form.
    NotNormalized,
    /// The quick table cannot decide locally.
    Indeterminate,
}

/// Relies on `String::from(char)`: the returned string holds exactly the one
/// given character.
#[verifier::external_body]
pub(crate) fn char_to_string(c: char) -> (r: String)
    ensures
        r@ == seq![c],
{
    String::from(c)
}

/// Relies on `unicode_normalization::is_nfkd_quick`, the UAX #15 quick check:
/// a `Yes` answer means the text is certainly in NFKD form, a `No` answer
/// means it certainly is not, and ASCII text always passes as `Yes` (every
/// ASCII character is an allowed starter).
#[verifier::external_body]
pub(crate) fn quick_check_str(s: &str) -> (r: QuickCheckOutcome)
    ensures
        r is AlreadyNormalized ==> nfkd_of(s@) == s@,
        r is NotNormalized ==> nfkd_of(s@) != s@,
        vstd::utf8::is_ascii_chars(s@) ==> r is AlreadyNormalized,
{
    match is_nfkd_quick(s.chars()) {
        IsNormalized::Yes => QuickCheckOutcome::AlreadyNormalized,
        IsNormalized::No => QuickCheckOutcome::NotNormalized,
        IsNormalized::Maybe => QuickCheckOutcome::Indeterminate,
    }
}

/// Relies on `unicode_normalization::is_nfkd`: the authoritative check that a
/// string is in NFKD form, that is, equal to its own compatibility
/// decomposition.
#[verifier::external_body]
pub(crate) fn is_nfkd_str(s: &str) -> (r: bool)
    ensures
        r == (nfkd_of(s@) == s@),
{
    is_nfkd(s)
}

/// Relies on `UnicodeNormalization::nfkd` on `&str`: the returned string is
/// the compatibility decomposition of the input. NFKD is idempotent, so the
/// result is itself in NFKD form; and a decomposition is full (recursively
/// expanded), so every character of the result decomposes to itself.
#[verifier::external_body]
pub(crate) fn nfkd_str(s: &str) -> (r: String)
    ensures
        r@ == nfkd_of(s@),
        nfkd_of(r@) == r@,
        forall|i: int| 0 <= i < r@.len() ==> nfkd_of(seq![r@[i]]) == seq![r@[i]],
{
    s.nfkd().collect::<String>()
}

/// The lemma a per-character stage produces: the concatenation of the
/// decompositions of the individual characters, in order. It differs from
/// `nfkd_of` of the whole sequence only where canonical reordering would move
/// combining marks across the original character boundaries.
pub open spec fn nfkd_concat(s: Seq<char>) -> Seq<char>
    decreases s.len(),
{
    if s.len() == 0 {
        Seq::empty()
    } else {
        nfkd_of(seq![s[0]]) + nfkd_concat(s.drop_first())
    }
}

/// Extending the input by one character appends that character's
/// decomposition to the concatenated output.
pub proof fn lemma_nfkd_concat_push(s: Seq<char>, c: char)
    ensures
        nfkd_concat(s.push(c)) == nfkd_concat(s) + nfkd_of(seq![c]),
    decreases s.len(),
{
    if s.len() == 0 {
        assert(s.push(c)[0] == c);
        assert(s.push(c).drop_first() =~= Seq::<char>::empty());
        assert(nfkd_concat(s.push(c)) == nfkd_of(seq![c]) + nfkd_concat(Seq::<char>::empty()));
        assert(nfkd_of(seq![c]) + Seq::<char>::empty() =~= nfkd_of(seq![c]));
        assert(nfkd_concat(s) + nfkd_of(seq![c]) =~= nfkd_of(seq![c]));
    } else {
        assert(s.push(c)[0] == s[0]);
        assert(s.push(c).drop_first() =~= s.drop_first().push(c));
        lemma_nfkd_concat_push(s.drop_first(), c);
        assert(nfkd_concat(s.push(c)) =~= nfkd_concat(s) + nfkd_of(seq![c]));
    }
}

/// A sequence each of whose characters decomposes to itself is a fixed point
/// of per-character decomposition.
pub proof fn lemma_nfkd_concat_fixpoint(s: Seq<char>)
    requires
        forall|i: int| 0 <= i < s.len() ==> nfkd_of(seq![s[i]]) == seq![s[i]],
    ensures
        nfkd_concat(s) == s,
    decreases s.len(),
{
    if s.len() == 0 {
        assert(nfkd_concat(s) =~= s);
    } else {
        lemma_nfkd_concat_fixpoint(s.drop_first());
        assert(nfkd_of(seq![s[0]]) == seq![s[0]]);
        assert(nfkd_concat(s) =~= seq![s[0]] + s.drop_first());
        assert(seq![s[0]] + s.drop_first() =~= s);
    }
}

} // verus!
