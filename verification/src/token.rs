//! The token data model: one segmented unit of input text, with its lemma,
//! cumulative end offsets, and the script and language labels detected
//! upstream.

use vstd::prelude::*;
use vstd::utf8::encode_utf8;

verus! {

broadcast use vstd::slice::axiom_spec_len;

/// Coarse writing-system classification attached to a token by the upstream
/// segmenter. Read-only to normalizer stages.
#[derive(Clone, Copy, PartialEq, Eq, Structural, Debug)]
pub enum Script {
    Latin,
    Cyrillic,
    Greek,
    Georgian,
    Arabic,
    Hebrew,
    Other,
}

/// Identified natural language of a token, when the upstream tagger could
/// determine one. Read-only to normalizer stages.
#[derive(Clone, Copy, PartialEq, Eq, Structural, Debug)]
pub enum Language {
    Eng,
    Fra,
    Deu,
    Rus,
    Ell,
    Kat,
    Other,
}

/// The mathematical value of a [`Token`]: its lemma as a character sequence,
/// its offsets as unbounded naturals, and its labels.
pub ghost struct TokenView {
    pub lemma: Seq<char>,
    pub char_end: nat,
    pub byte_end: nat,
    pub script: Script,
    pub language: Option<Language>,
}

impl TokenView {
    /// Offset consistency: `char_end` is the character count of the lemma and
    /// `byte_end` its UTF-8 byte length. Constructors establish this and every
    /// normalizer stage preserves it.
    pub open spec fn wf(self) -> bool {
        &&& self.char_end == self.lemma.len()
        &&& self.byte_end == encode_utf8(self.lemma).len()
    }
}

/// One segmented unit of input text, after tokenization and before or during
/// normalization. The lemma is owned by the current pipeline stage; the
/// offsets must be recomputed whenever the lemma changes.
pub struct Token {
    /// Canonical text carried by the token through the pipeline.
    pub lemma: String,
    /// Cumulative end offset in characters.
    pub char_end: usize,
    /// Cumulative end offset in bytes. Never smaller than `char_end`.
    pub byte_end: usize,
    /// Writing system detected upstream; read-only to stages.
    pub script: Script,
    /// Natural language identified upstream, if any; read-only to stages.
    pub language: Option<Language>,
}

impl View for Token {
    type V = TokenView;

    open spec fn view(&self) -> TokenView {
        TokenView {
            lemma: self.lemma@,
            char_end: self.char_end as nat,
            byte_end: self.byte_end as nat,
            script: self.script,
            language: self.language,
        }
    }
}

/// The UTF-8 encoding of a character sequence is never shorter than the
/// sequence itself: every scalar encodes to at least one byte.
pub proof fn lemma_byte_len_ge_char_len(s: Seq<char>)
    ensures
        encode_utf8(s).len() >= s.len(),
    decreases s.len(),
{
    if s.len() > 0 {
        lemma_byte_len_ge_char_len(s.drop_first());
    }
}

/// A well-formed token's byte offset is at least its character offset.
pub proof fn lemma_wf_offsets(t: TokenView)
    requires
        t.wf(),
    ensures
        t.byte_end >= t.char_end,
{
    lemma_byte_len_ge_char_len(t.lemma);
}

impl Token {
    /// Builds a token from a lemma and its labels, computing both end offsets
    /// from the lemma itself.
    pub fn new(lemma: String, script: Script, language: Option<Language>) -> (t: Token)
        ensures
            t@.lemma == lemma@,
            t@.script == script,
            t@.language == language,
            t@.wf(),
    {
        let char_end = lemma.as_str().unicode_len();
        let byte_end = lemma.as_str().as_bytes().len();
        Token { lemma, char_end, byte_end, script, language }
    }

    /// Read access to the current lemma.
    pub fn lemma(&self) -> (r: &str)
        ensures
            r@ == self@.lemma,
    {
        self.lemma.as_str()
    }

    /// The script label detected upstream.
    pub fn script(&self) -> (r: Script)
        ensures
            r == self@.script,
    {
        self.script
    }

    /// The language label identified upstream, if any.
    pub fn language(&self) -> (r: Option<Language>)
        ensures
            r == self@.language,
    {
        self.language
    }

    /// Replaces the lemma and recomputes both end offsets, the one mutator
    /// path the token offers: a lemma change is always paired with an offset
    /// recomputation.
    pub fn set_lemma(&mut self, lemma: String)
        ensures
            final(self)@.lemma == lemma@,
            final(self)@.script == old(self)@.script,
            final(self)@.language == old(self)@.language,
            final(self)@.wf(),
    {
        let char_end = lemma.as_str().unicode_len();
        let byte_end = lemma.as_str().as_bytes().len();
        self.lemma = lemma;
        self.char_end = char_end;
        self.byte_end = byte_end;
    }
}

} // verus!
