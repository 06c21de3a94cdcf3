use token_normalizer::decomposition::CharOrStr;
use token_normalizer::decomposition::CompatibilityDecompositionNormalizer;
use token_normalizer::decomposition::WholeLemmaDecompositionNormalizer;
use token_normalizer::token::Language;
use token_normalizer::token::Script;
use token_normalizer::token::Token;

fn latin_token(lemma: &str) -> Token {
    Token::new(lemma.to_string(), Script::Latin, None)
}

fn char_normalize_one(lemma: &str, script: Script) -> Token {
    let normalizer = CompatibilityDecompositionNormalizer;
    let mut out = normalizer.normalize(Token::new(lemma.to_string(), script, None));
    assert_eq!(out.len(), 1);
    out.remove(0)
}

fn whole_normalize_one(lemma: &str, script: Script) -> Token {
    let normalizer = WholeLemmaDecompositionNormalizer;
    let mut out = normalizer.normalize(Token::new(lemma.to_string(), script, None));
    assert_eq!(out.len(), 1);
    out.remove(0)
}

#[test]
fn circled_digits_decompose_to_bare_digits() {
    let out = char_normalize_one("\u{2460}\u{2461}\u{2462}\u{2463}", Script::Latin);
    assert_eq!(out.lemma(), "1234");
    assert_eq!(out.char_end, 4);
    assert_eq!(out.byte_end, 4);
}

#[test]
fn circled_digits_whole_lemma_form() {
    let out = whole_normalize_one("\u{2460}\u{2461}\u{2462}\u{2463}", Script::Latin);
    assert_eq!(out.lemma(), "1234");
    assert_eq!(out.char_end, 4);
    assert_eq!(out.byte_end, 4);
}

#[test]
fn angstrom_sign_and_precomposed_ring_agree() {
    // Both the Angstrom sign and the precomposed letter decompose to
    // "A" followed by the combining ring above.
    let out = char_normalize_one("\u{212B} \u{00C5} A\u{030A}", Script::Latin);
    assert_eq!(out.lemma(), "A\u{030A} A\u{030A} A\u{030A}");
    assert_eq!(out.char_end, 8);
    assert_eq!(out.byte_end, 11);

    let a = char_normalize_one("\u{212B}", Script::Latin);
    let b = char_normalize_one("\u{00C5}", Script::Latin);
    assert_eq!(a.lemma(), b.lemma());
    assert_eq!(a.lemma(), "A\u{030A}");
}

#[test]
fn fi_ligature_decomposes_to_two_characters() {
    let out = char_normalize_one("\u{FB01}", Script::Latin);
    assert_eq!(out.lemma(), "fi");
    assert_eq!(out.char_end, 2);
    assert_eq!(out.byte_end, 2);
}

#[test]
fn accented_word_decomposes_to_combining_marks() {
    let out = char_normalize_one("\u{00E9}l\u{00E9}gant", Script::Latin);
    assert_eq!(out.lemma(), "e\u{0301}le\u{0301}gant");
    assert_eq!(out.char_end, 9);
    assert_eq!(out.byte_end, 11);
}

#[test]
fn ascii_lemma_passes_through_unchanged() {
    let normalizer = CompatibilityDecompositionNormalizer;
    let token = latin_token("hello");
    assert!(!normalizer.should_normalize(&token));
    let out = char_normalize_one("hello", Script::Latin);
    assert_eq!(out.lemma(), "hello");
    assert_eq!(out.char_end, 5);
    assert_eq!(out.byte_end, 5);
}

#[test]
fn ascii_lemma_whole_form_identity() {
    let out = whole_normalize_one("hello", Script::Latin);
    assert_eq!(out.lemma(), "hello");
    assert_eq!(out.char_end, 5);
    assert_eq!(out.byte_end, 5);
}

#[test]
fn empty_lemma_is_a_no_op() {
    let out = char_normalize_one("", Script::Latin);
    assert_eq!(out.lemma(), "");
    assert_eq!(out.char_end, 0);
    assert_eq!(out.byte_end, 0);
}

#[test]
fn decomposition_is_idempotent() {
    let normalizer = CompatibilityDecompositionNormalizer;
    for lemma in ["\u{2460}\u{2461}\u{2462}\u{2463}", "\u{212B} \u{00C5} A\u{030A}", "\u{FB01}", "hello", "\u{00E9}l\u{00E9}gant"] {
        let once = char_normalize_one(lemma, Script::Latin);
        let mut twice = normalizer.normalize(Token::new(
            once.lemma().to_string(),
            once.script(),
            once.language(),
        ));
        let twice = twice.remove(0);
        assert_eq!(twice.lemma(), once.lemma());
        assert_eq!(twice.char_end, once.char_end);
        assert_eq!(twice.byte_end, once.byte_end);
    }
}

#[test]
fn whole_form_is_idempotent() {
    for lemma in ["\u{2460}\u{2461}\u{2462}\u{2463}", "\u{FB01}", "hello"] {
        let once = whole_normalize_one(lemma, Script::Latin);
        let twice = whole_normalize_one(once.lemma(), Script::Latin);
        assert_eq!(twice.lemma(), once.lemma());
        assert_eq!(twice.char_end, once.char_end);
        assert_eq!(twice.byte_end, once.byte_end);
    }
}

#[test]
fn offsets_stay_consistent() {
    for (lemma, script) in [
        ("\u{2460}\u{2461}\u{2462}\u{2463}", Script::Latin),
        ("\u{212B} \u{00C5} A\u{030A}", Script::Latin),
        ("\u{FB01}", Script::Latin),
        ("hello", Script::Latin),
        ("\u{0439}", Script::Cyrillic),
        ("\u{00E9}", Script::Arabic),
    ] {
        let out = char_normalize_one(lemma, script);
        assert!(out.byte_end >= out.char_end);
        assert_eq!(out.char_end, out.lemma().chars().count());
        assert_eq!(out.byte_end, out.lemma().len());
    }
}

#[test]
fn gate_rejects_scripts_off_the_allow_list() {
    let normalizer = CompatibilityDecompositionNormalizer;
    // Non-ASCII, decomposable content, but a script outside the allow-list.
    let token = Token::new("\u{FB01}\u{00E9}".to_string(), Script::Arabic, None);
    assert!(!normalizer.should_normalize(&token));
    let out = char_normalize_one("\u{FB01}\u{00E9}", Script::Arabic);
    assert_eq!(out.lemma(), "\u{FB01}\u{00E9}");

    let hebrew = char_normalize_one("\u{FB01}", Script::Hebrew);
    assert_eq!(hebrew.lemma(), "\u{FB01}");
}

#[test]
fn gate_accepts_each_allow_listed_script() {
    let normalizer = CompatibilityDecompositionNormalizer;
    for script in [Script::Latin, Script::Cyrillic, Script::Greek, Script::Georgian] {
        // A precomposed character: non-ASCII and not yet decomposed.
        let token = Token::new("\u{00E9}".to_string(), script, None);
        assert!(normalizer.should_normalize(&token));
        let mut out = normalizer.normalize(token);
        assert_eq!(out.remove(0).lemma(), "e\u{0301}");
    }
    for script in [Script::Arabic, Script::Hebrew, Script::Other] {
        let token = Token::new("\u{00E9}".to_string(), script, None);
        assert!(!normalizer.should_normalize(&token));
    }
}

#[test]
fn gate_rejects_already_decomposed_text() {
    let normalizer = CompatibilityDecompositionNormalizer;
    // Non-ASCII but already in decomposed form.
    let token = Token::new("e\u{0301}".to_string(), Script::Latin, None);
    assert!(!normalizer.should_normalize(&token));
    // The same text precomposed is not decomposed yet.
    let token = Token::new("\u{00E9}".to_string(), Script::Latin, None);
    assert!(normalizer.should_normalize(&token));
}

#[test]
fn whole_form_gate_is_a_static_script_policy() {
    let normalizer = WholeLemmaDecompositionNormalizer;
    for script in [Script::Latin, Script::Cyrillic, Script::Greek, Script::Georgian] {
        assert!(normalizer.should_normalize(script, None));
        assert!(normalizer.should_normalize(script, Some(Language::Eng)));
    }
    for script in [Script::Arabic, Script::Hebrew, Script::Other] {
        assert!(!normalizer.should_normalize(script, None));
        assert!(!normalizer.should_normalize(script, Some(Language::Rus)));
    }
    // Off the allow-list the token passes through even with decomposable content.
    let out = whole_normalize_one("\u{FB01}", Script::Hebrew);
    assert_eq!(out.lemma(), "\u{FB01}");
}

#[test]
fn normalize_char_decomposes_single_characters() {
    let normalizer = CompatibilityDecompositionNormalizer;
    match normalizer.normalize_char('\u{FB01}') {
        Some(CharOrStr::Str(s)) => assert_eq!(s, "fi"),
        Some(CharOrStr::Char(c)) => panic!("expected an expanded fragment, got {c:?}"),
        None => panic!("expected a fragment"),
    }
    match normalizer.normalize_char('x') {
        Some(CharOrStr::Char(c)) => assert_eq!(c, 'x'),
        Some(CharOrStr::Str(s)) => assert_eq!(s, "x"),
        None => panic!("expected a fragment"),
    }
}

#[test]
fn combining_marks_out_of_canonical_order() {
    // Acute accent (combining class 230) before ogonek (202): not in
    // canonical order, so the content is not in decomposed form. Each
    // character still decomposes to itself, so the per-character shape
    // leaves the lemma as it is: it cannot reorder marks across character
    // boundaries.
    let input = "a\u{0301}\u{0328}";
    let normalizer = CompatibilityDecompositionNormalizer;
    let token = Token::new(input.to_string(), Script::Latin, None);
    assert!(normalizer.should_normalize(&token));
    let out = char_normalize_one(input, Script::Latin);
    assert_eq!(out.lemma(), input);
    // The whole-lemma shape runs the full decomposition, which reorders the
    // marks canonically.
    let out = whole_normalize_one(input, Script::Latin);
    assert_eq!(out.lemma(), "a\u{0328}\u{0301}");
}

#[test]
fn preserves_script_and_language_labels() {
    let normalizer = CompatibilityDecompositionNormalizer;
    let token = Token::new("\u{00E9}".to_string(), Script::Greek, Some(Language::Ell));
    let mut out = normalizer.normalize(token);
    let out = out.remove(0);
    assert_eq!(out.script(), Script::Greek);
    assert_eq!(out.language(), Some(Language::Ell));
}
