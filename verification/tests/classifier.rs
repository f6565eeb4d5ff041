//! The form classifier on sentence endings, complete and incomplete.

use polite_polarity::classify::{judge_form, Form};
use polite_polarity::morpheme::{morphs_to_string, Morpheme, WordClass};

fn word(surface: &str, basic: &str, word_class: WordClass) -> Morpheme<()> {
    Morpheme {
        surface: surface.to_string(),
        basic: basic.to_string(),
        word_class,
        conjugation: (),
    }
}

fn auxiliary(surface: &str, basic: &str) -> Morpheme<()> {
    word(surface, basic, WordClass::AuxiliaryVerb)
}

fn verb(surface: &str, basic: &str) -> Morpheme<()> {
    word(surface, basic, WordClass::Verb)
}

#[test]
fn empty_sentence_is_affirmative() {
    let none: Vec<Morpheme<()>> = Vec::new();
    assert_eq!(judge_form(&none), Form::Affirmative);
}

#[test]
fn masen_is_negative() {
    let s = vec![verb("読み", "読む"), auxiliary("ませ", "ます"), auxiliary("ん", "ん")];
    assert_eq!(judge_form(&s), Form::Negative);
}

#[test]
fn lone_n_is_negative() {
    let s = vec![auxiliary("ん", "ん")];
    assert_eq!(judge_form(&s), Form::Negative);
}

#[test]
fn n_is_recognised_by_its_dictionary_form() {
    // The surface does not count: ぬ with the dictionary form ん is negative,
    // ん with another dictionary form is not.
    let s = vec![verb("行か", "行く"), auxiliary("ぬ", "ん")];
    assert_eq!(judge_form(&s), Form::Negative);
    let s = vec![verb("行か", "行く"), auxiliary("ん", "ぬ")];
    assert_eq!(judge_form(&s), Form::Affirmative);
}

#[test]
fn n_of_another_class_is_affirmative() {
    let s = vec![verb("読み", "読む"), word("ん", "ん", WordClass::Other)];
    assert_eq!(judge_form(&s), Form::Affirmative);
    let s = vec![verb("読み", "読む"), word("ん", "ん", WordClass::Postpositional)];
    assert_eq!(judge_form(&s), Form::Affirmative);
}

#[test]
fn nai_desu_is_negative() {
    let s = vec![
        word("寒く", "寒い", WordClass::Adjective),
        auxiliary("ない", "ない"),
        auxiliary("です", "です"),
    ];
    assert_eq!(judge_form(&s), Form::Negative);
}

#[test]
fn desu_alone_is_affirmative() {
    let s = vec![auxiliary("です", "です")];
    assert_eq!(judge_form(&s), Form::Affirmative);
}

#[test]
fn desu_after_another_word_is_affirmative() {
    let s = vec![word("寒い", "寒い", WordClass::Adjective), auxiliary("です", "です")];
    assert_eq!(judge_form(&s), Form::Affirmative);
}

#[test]
fn desu_after_an_adjective_nai_is_affirmative() {
    // ない as an adjective, not as the auxiliary.
    let s = vec![word("ない", "ない", WordClass::Adjective), auxiliary("です", "です")];
    assert_eq!(judge_form(&s), Form::Affirmative);
}

#[test]
fn masen_deshita_is_negative() {
    let s = vec![
        verb("読み", "読む"),
        auxiliary("ませ", "ます"),
        auxiliary("ん", "ん"),
        auxiliary("でし", "です"),
        auxiliary("た", "た"),
    ];
    assert_eq!(judge_form(&s), Form::Negative);
    let chain_only = vec![
        auxiliary("ませ", "ます"),
        auxiliary("ん", "ん"),
        auxiliary("でし", "です"),
        auxiliary("た", "た"),
    ];
    assert_eq!(judge_form(&chain_only), Form::Negative);
}

#[test]
fn broken_past_chain_is_affirmative() {
    let no_masu = vec![auxiliary("ん", "ん"), auxiliary("でし", "です"), auxiliary("た", "た")];
    assert_eq!(judge_form(&no_masu), Form::Affirmative);
    let other_fourth = vec![
        verb("読み", "読む"),
        auxiliary("ん", "ん"),
        auxiliary("でし", "です"),
        auxiliary("た", "た"),
    ];
    assert_eq!(judge_form(&other_fourth), Form::Affirmative);
    let no_n = vec![
        auxiliary("ませ", "ます"),
        auxiliary("ない", "ない"),
        auxiliary("でし", "です"),
        auxiliary("た", "た"),
    ];
    assert_eq!(judge_form(&no_n), Form::Affirmative);
    let no_desu = vec![
        auxiliary("ませ", "ます"),
        auxiliary("ん", "ん"),
        auxiliary("まし", "ます"),
        auxiliary("た", "た"),
    ];
    assert_eq!(judge_form(&no_desu), Form::Affirmative);
    let lone = vec![auxiliary("た", "た")];
    assert_eq!(judge_form(&lone), Form::Affirmative);
}

#[test]
fn past_affirmative_is_affirmative() {
    let s = vec![verb("読み", "読む"), auxiliary("まし", "ます"), auxiliary("た", "た")];
    assert_eq!(judge_form(&s), Form::Affirmative);
    let s = vec![word("静か", "静か", WordClass::Other), auxiliary("でし", "です"), auxiliary("た", "た")];
    assert_eq!(judge_form(&s), Form::Affirmative);
}

#[test]
fn plain_sentence_is_affirmative() {
    let s = vec![verb("読む", "読む")];
    assert_eq!(judge_form(&s), Form::Affirmative);
}

#[test]
fn form_depends_on_the_last_four_morphemes_only() {
    let tail = || {
        vec![
            auxiliary("ませ", "ます"),
            auxiliary("ん", "ん"),
            auxiliary("でし", "です"),
            auxiliary("た", "た"),
        ]
    };
    let mut short = vec![verb("読み", "読む")];
    short.extend(tail());
    let mut long = vec![auxiliary("ん", "ん"), word("本", "本", WordClass::Other), verb("し", "する")];
    long.extend(tail());
    assert_eq!(judge_form(&short), judge_form(&long));
    assert_eq!(judge_form(&short), Form::Negative);
}

#[test]
fn surfaces_are_joined_in_reading_order() {
    let s = vec![verb("読ん", "読む"), word("で", "で", WordClass::Postpositional), verb("い", "いる")];
    assert_eq!(morphs_to_string(&s), "読んでい");
    let none: Vec<Morpheme<()>> = Vec::new();
    assert_eq!(morphs_to_string(&none), "");
    // The dictionary form plays no part.
    let one = vec![auxiliary("でし", "です")];
    assert_eq!(morphs_to_string(&one), "でし");
}

#[test]
fn is_word_compares_class_and_dictionary_form() {
    let m = auxiliary("でし", "です");
    assert!(m.is_word(WordClass::AuxiliaryVerb, "です"));
    assert!(!m.is_word(WordClass::AuxiliaryVerb, "でし"));
    assert!(!m.is_word(WordClass::AuxiliaryVerb, "で"));
    assert!(!m.is_word(WordClass::AuxiliaryVerb, "ですよ"));
    assert!(!m.is_word(WordClass::Verb, "です"));
}

#[test]
fn is_auxiliary_and_is_particle_fix_the_class() {
    let desu = auxiliary("でし", "です");
    assert!(desu.is_auxiliary("です"));
    assert!(!desu.is_auxiliary("でし"));
    assert!(!desu.is_particle("です"));
    let wa = word("は", "は", WordClass::Postpositional);
    assert!(wa.is_particle("は"));
    assert!(!wa.is_particle("が"));
    assert!(!wa.is_auxiliary("は"));
    let noun = word("は", "は", WordClass::Other);
    assert!(!noun.is_particle("は"));
    assert!(!noun.is_auxiliary("は"));
}
