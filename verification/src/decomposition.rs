//! The compatibility-decomposition stage, in its two shapes: the
//! per-character form (a character-level transform lifted over the whole
//! lemma) and the whole-lemma direct form.
//!
//! Both shapes resolve the indeterminate quick-check outcome the same way:
//! they run the full decomposition. Normalizing already-normalized text is
//! idempotent, whereas silently skipping a needed decomposition would break
//! downstream matching; this is a policy choice, stated here once and pinned
//! by the contracts below.

use crate::token::Language;
use crate::token::Script;
use crate::token::Token;
use crate::token::TokenView;
use crate::unicode::QuickCheckOutcome;
use crate::unicode::char_to_string;
use crate::unicode::is_nfkd_str;
use crate::unicode::lemma_nfkd_concat_fixpoint;
use crate::unicode::lemma_nfkd_concat_push;
use crate::unicode::nfkd_concat;
use crate::unicode::nfkd_of;
use crate::unicode::nfkd_str;
use crate::unicode::quick_check_str;
use vstd::prelude::*;
use vstd::utf8::encode_utf8;
use vstd::utf8::is_ascii_chars;

verus! {

/// The scripts for which compatibility decomposition is applied:
/// it is linguistically meaningful mainly for these in this pipeline's
/// intended use.
pub open spec fn allowed_script(s: Script) -> bool {
    ||| s is Latin
    ||| s is Cyrillic
    ||| s is Greek
    ||| s is Georgian
}

/// The per-character decomposition stage's gate, a three-stage
/// short-circuit from cheapest to costliest check: the script must be on the
/// allow-list, the lemma must contain a non-ASCII character (ASCII text is
/// always already decomposed), and the lemma must not already be in
/// decomposed form.
pub open spec fn spec_should_normalize(t: TokenView) -> bool {
    &&& allowed_script(t.script)
    &&& !is_ascii_chars(t.lemma)
    &&& nfkd_of(t.lemma) != t.lemma
}

/// The token that results from replacing a token's lemma by `s` and
/// recomputing both end offsets from the new lemma.
pub open spec fn with_lemma(t: TokenView, s: Seq<char>) -> TokenView {
    TokenView {
        lemma: s,
        char_end: s.len(),
        byte_end: encode_utf8(s).len(),
        script: t.script,
        language: t.language,
    }
}

/// What the per-character stage does to a token: where its gate holds, each
/// character is decomposed on its own and the fragments are concatenated;
/// elsewhere the token passes through unchanged.
pub open spec fn char_stage_spec(t: TokenView) -> TokenView {
    if spec_should_normalize(t) {
        with_lemma(t, nfkd_concat(t.lemma))
    } else {
        t
    }
}

/// What the whole-lemma stage does to a token: for an allow-listed script the
/// lemma is replaced by its full compatibility decomposition (a pass-through
/// of text that is already decomposed leaves the token equal to this value);
/// for any other script the token passes through unchanged.
pub open spec fn whole_stage_spec(t: TokenView) -> TokenView {
    if allowed_script(t.script) {
        with_lemma(t, nfkd_of(t.lemma))
    } else {
        t
    }
}

/// One output fragment of a character-level transform: a single character
/// where the input passed through, a string where it expanded.
pub enum CharOrStr {
    Char(char),
    Str(String),
}

impl View for CharOrStr {
    type V = Seq<char>;

    open spec fn view(&self) -> Seq<char> {
        match self {
            CharOrStr::Char(c) => seq![*c],
            CharOrStr::Str(s) => s@,
        }
    }
}

/// Compatibility decomposition as a per-character normalizer stage.
#[derive(Clone, Copy)]
pub struct CompatibilityDecompositionNormalizer;

impl CompatibilityDecompositionNormalizer {
    /// The stage gate, evaluated once per token before any per-character
    /// work: allow-listed script, at least one non-ASCII character, and not
    /// already in decomposed form.
    pub fn should_normalize(&self, token: &Token) -> (r: bool)
        ensures
            r == spec_should_normalize(token@),
    {
        (matches!(token.script, Script::Latin | Script::Cyrillic | Script::Greek | Script::Georgian))
            && !token.lemma().is_ascii() && !is_nfkd_str(token.lemma())
    }

    /// Decomposes one character: a quick check first, and the full
    /// decomposition where the quick check answers no or cannot decide. The
    /// fragment is always the character's full decomposition, and each of its
    /// characters decomposes to itself.
    pub fn normalize_char(&self, c: char) -> (r: Option<CharOrStr>)
        ensures
            r is Some,
            r matches Some(f) ==> f@ == nfkd_of(seq![c]) && (forall|i: int|
                0 <= i < f@.len() ==> nfkd_of(seq![f@[i]]) == seq![f@[i]]),
    {
        let cs = char_to_string(c);
        match quick_check_str(cs.as_str()) {
            QuickCheckOutcome::AlreadyNormalized => {
                proof {
                    assert(nfkd_of(seq![c]) == seq![c]);
                }
                Some(CharOrStr::Char(c))
            },
            QuickCheckOutcome::NotNormalized | QuickCheckOutcome::Indeterminate => {
                let d = nfkd_str(cs.as_str());
                Some(CharOrStr::Str(d))
            },
        }
    }

    /// Lifts [`Self::normalize_char`] over a whole token: where its gate
    /// holds, the per-character fragments are concatenated into one new lemma
    /// and exactly one output token is emitted with recomputed offsets;
    /// elsewhere the token passes through unchanged.
    ///
    /// The output token is a fixed point of the stage: applying the stage
    /// twice yields the same token as applying it once.
    pub fn normalize(&self, token: Token) -> (r: Vec<Token>)
        requires
            token@.wf(),
        ensures
            r@.len() == 1,
            r@[0]@ == char_stage_spec(token@),
            char_stage_spec(r@[0]@) == r@[0]@,
            r@[0]@.wf(),
    {
        if !self.should_normalize(&token) {
            let mut out: Vec<Token> = Vec::new();
            out.push(token);
            return out;
        }
        let ghost orig: Seq<char> = token.lemma@;
        let n = token.lemma.as_str().unicode_len();
        let mut acc = String::new();
        let mut i: usize = 0;
        while i < n
            invariant
                n == orig.len(),
                i <= n,
                token.lemma@ == orig,
                acc@ == nfkd_concat(orig.subrange(0, i as int)),
                forall|j: int| 0 <= j < acc@.len() ==> nfkd_of(seq![acc@[j]]) == seq![acc@[j]],
            decreases n - i,
        {
            let c = token.lemma.as_str().get_char(i);
            let ghost prev: Seq<char> = acc@;
            let f = self.normalize_char(c).unwrap();
            match f {
                CharOrStr::Char(ch) => {
                    let cs = char_to_string(ch);
                    acc.append(cs.as_str());
                },
                CharOrStr::Str(s) => {
                    acc.append(s.as_str());
                },
            }
            proof {
                lemma_nfkd_concat_push(orig.subrange(0, i as int), c);
                assert(orig.subrange(0, i as int).push(c) =~= orig.subrange(0, i + 1 as int));
                assert forall|j: int| 0 <= j < acc@.len() implies nfkd_of(seq![acc@[j]])
                    == seq![acc@[j]] by {
                    if j < prev.len() {
                        assert(acc@[j] == prev[j]);
                    } else {
                        assert(acc@[j] == nfkd_of(seq![c])[j - prev.len()]);
                    }
                }
            }
            i += 1;
        }
        proof {
            assert(orig.subrange(0, n as int) =~= orig);
            lemma_nfkd_concat_fixpoint(acc@);
        }
        let normalized = Token::new(acc, token.script, token.language);
        let mut out: Vec<Token> = Vec::new();
        out.push(normalized);
        out
    }
}

/// Compatibility decomposition as a whole-lemma normalizer stage: the same
/// quick-check plus full-decomposition logic applied to the entire string at
/// once instead of character by character.
#[derive(Clone, Copy)]
pub struct WholeLemmaDecompositionNormalizer;

impl WholeLemmaDecompositionNormalizer {
    /// The stage gate, evaluated against only the coarse labels: a static
    /// per-script policy, independent of the token's content. Decomposition
    /// is applied for the allow-listed scripts in every language.
    pub fn should_normalize(&self, script: Script, language: Option<Language>) -> (r: bool)
        ensures
            r == allowed_script(script),
    {
        matches!(script, Script::Latin | Script::Cyrillic | Script::Greek | Script::Georgian)
    }

    /// Transforms a whole token: a quick check over the entire lemma, the
    /// full decomposition where the quick check answers no or cannot decide,
    /// a pass-through where the lemma is already decomposed. Emits exactly
    /// one output token.
    ///
    /// The output token is a fixed point of the stage, and an ASCII-only
    /// lemma passes through as the identity, without reallocation.
    pub fn normalize(&self, token: Token) -> (r: Vec<Token>)
        requires
            token@.wf(),
        ensures
            r@.len() == 1,
            r@[0]@ == whole_stage_spec(token@),
            whole_stage_spec(r@[0]@) == r@[0]@,
            r@[0]@.wf(),
            is_ascii_chars(token@.lemma) ==> r@[0] == token,
    {
        if !self.should_normalize(token.script(), token.language()) {
            let mut out: Vec<Token> = Vec::new();
            out.push(token);
            return out;
        }
        match quick_check_str(token.lemma()) {
            QuickCheckOutcome::AlreadyNormalized => {
                let mut out: Vec<Token> = Vec::new();
                out.push(token);
                out
            },
            QuickCheckOutcome::NotNormalized | QuickCheckOutcome::Indeterminate => {
                let d = nfkd_str(token.lemma());
                let normalized = Token::new(d, token.script(), token.language());
                let mut out: Vec<Token> = Vec::new();
                out.push(normalized);
                out
            },
        }
    }
}

/// Gate correctness: a stage leaves every token whose gate does not hold
/// entirely unchanged.
pub proof fn lemma_gate_pass_through(t: TokenView)
    ensures
        !spec_should_normalize(t) ==> char_stage_spec(t) == t,
        !allowed_script(t.script) ==> whole_stage_spec(t) == t,
{
}

/// For an ASCII-only lemma the per-character decomposition stage is a pure
/// identity: its gate demands a non-ASCII character.
pub proof fn lemma_ascii_no_op(t: TokenView)
    requires
        is_ascii_chars(t.lemma),
    ensures
        char_stage_spec(t) == t,
{
}

/// The script allow-list: decomposition applies exactly for the Latin,
/// Cyrillic, Greek and Georgian scripts when the lemma has a non-ASCII
/// character and is not already decomposed; for every other script the token
/// passes through unchanged, whatever its content.
pub proof fn lemma_script_allow_list(t: TokenView)
    ensures
        spec_should_normalize(t) <==> (allowed_script(t.script) && !is_ascii_chars(t.lemma)
            && nfkd_of(t.lemma) != t.lemma),
        spec_should_normalize(t) ==> char_stage_spec(t).lemma == nfkd_concat(t.lemma),
        !allowed_script(t.script) ==> char_stage_spec(t) == t && whole_stage_spec(t) == t,
{
}

} // verus!
