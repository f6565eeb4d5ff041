//! The classifier and the rewriters held against each other on a collection
//! of sentence endings.

use polite_polarity::classify::{judge_form, Form};
use polite_polarity::ja_not_for_polite;
use polite_polarity::morpheme::{Morpheme, WordClass};
use polite_polarity::outcome::{InternalInconsistency, Pending, Rewrite};
use polite_polarity::rewrite::{change_affirmative_to_negative, change_negative_to_affirmative};

fn word(surface: &str, basic: &str, word_class: WordClass) -> Morpheme<()> {
    Morpheme {
        surface: surface.to_string(),
        basic: basic.to_string(),
        word_class,
        conjugation: (),
    }
}

/// Every sentence of up to three morphemes drawn from a small vocabulary,
/// each behind the same two leading words.
fn endings() -> Vec<Vec<Morpheme<()>>> {
    let vocabulary = || {
        vec![
            word("ん", "ん", WordClass::AuxiliaryVerb),
            word("です", "です", WordClass::AuxiliaryVerb),
            word("でし", "です", WordClass::AuxiliaryVerb),
            word("ませ", "ます", WordClass::AuxiliaryVerb),
            word("た", "た", WordClass::AuxiliaryVerb),
            word("ない", "ない", WordClass::AuxiliaryVerb),
            word("あり", "ある", WordClass::Verb),
            word("は", "は", WordClass::Postpositional),
            word("寒く", "寒い", WordClass::Adjective),
            word("本", "本", WordClass::Other),
        ]
    };
    let mut all = vec![Vec::new()];
    for a in vocabulary() {
        all.push(vec![a.clone()]);
        for b in vocabulary() {
            all.push(vec![a.clone(), b.clone()]);
            for c in vocabulary() {
                all.push(vec![a.clone(), b.clone(), c.clone()]);
                all.push(vec![
                    word("ませ", "ます", WordClass::AuxiliaryVerb),
                    a.clone(),
                    b.clone(),
                    c.clone(),
                ]);
            }
        }
    }
    all
}

#[test]
fn affirmative_rewriter_accepts_exactly_the_negative_sentences() {
    for s in endings() {
        let form = judge_form(&s);
        let accepted = change_negative_to_affirmative(s).is_ok();
        assert_eq!(accepted, form == Form::Negative);
    }
}

#[test]
fn negative_rewriter_accepts_affirmative_sentences_and_two_negative_endings() {
    for s in endings() {
        let form = judge_form(&s);
        let n = s.len();
        let nai_desu = n >= 2
            && s[n - 1].is_word(WordClass::AuxiliaryVerb, "です")
            && s[n - 2].is_word(WordClass::AuxiliaryVerb, "ない");
        let masen_deshita = n >= 4
            && s[n - 1].is_word(WordClass::AuxiliaryVerb, "た")
            && s[n - 2].is_word(WordClass::AuxiliaryVerb, "です")
            && s[n - 3].is_word(WordClass::AuxiliaryVerb, "ん")
            && s[n - 4].is_word(WordClass::AuxiliaryVerb, "ます");
        if change_affirmative_to_negative(s).is_ok() && !nai_desu && !masen_deshita {
            assert_eq!(form, Form::Affirmative);
        }
    }
}

#[test]
fn negative_rewriter_reads_nai_desu_as_a_copula_sentence() {
    let s = vec![
        word("寒く", "寒い", WordClass::Adjective),
        word("ない", "ない", WordClass::AuxiliaryVerb),
        word("です", "です", WordClass::AuxiliaryVerb),
    ];
    assert_eq!(judge_form(&s), Form::Negative);
    assert!(change_affirmative_to_negative(s).is_ok());
}

#[test]
fn negative_sentences_are_never_turned_down() {
    for s in endings() {
        if judge_form(&s) == Form::Negative {
            assert!(ja_not_for_polite(s).is_ok());
        }
    }
}

#[test]
fn transform_goes_by_the_classifier() {
    for s in endings() {
        let by_hand = if s.is_empty() {
            None
        } else {
            Some(match judge_form(&s) {
                Form::Negative => change_negative_to_affirmative(s.clone()),
                Form::Affirmative => change_affirmative_to_negative(s.clone()),
            })
        };
        let out = ja_not_for_polite(s);
        match by_hand {
            Some(expected) => assert_eq!(out, expected),
            None => assert!(out.is_ok()),
        }
    }
}

#[test]
fn transform_fails_only_with_an_unexpected_tail() {
    for s in endings() {
        if let Err(e) = ja_not_for_polite(s) {
            assert_eq!(e, InternalInconsistency::UnexpectedTail);
        }
    }
}

/// Every sentence of five morphemes drawn from the words that the rules
/// look for.
fn tails() -> Vec<Vec<Morpheme<()>>> {
    let vocabulary = || {
        vec![
            word("ん", "ん", WordClass::AuxiliaryVerb),
            word("でし", "です", WordClass::AuxiliaryVerb),
            word("ませ", "ます", WordClass::AuxiliaryVerb),
            word("た", "た", WordClass::AuxiliaryVerb),
            word("ない", "ない", WordClass::AuxiliaryVerb),
            word("あり", "ある", WordClass::Verb),
            word("は", "は", WordClass::Postpositional),
            word("で", "で", WordClass::Postpositional),
            word("寒く", "寒い", WordClass::Adjective),
        ]
    };
    let mut all = Vec::new();
    for a in vocabulary() {
        for b in vocabulary() {
            for c in vocabulary() {
                for d in vocabulary() {
                    for e in vocabulary() {
                        all.push(vec![a.clone(), b.clone(), c.clone(), d.clone(), e]);
                    }
                }
            }
        }
    }
    all
}

#[test]
fn words_before_the_last_five_are_copied() {
    let lead = || vec![word("ん", "ん", WordClass::AuxiliaryVerb), word("本", "本", WordClass::Other)];
    for tail in tails() {
        let mut whole = lead();
        whole.extend(tail.iter().cloned());
        let expected = match ja_not_for_polite(tail) {
            Ok(Rewrite::Finished(sentence)) => Ok(Rewrite::Finished(format!("ん本{}", sentence))),
            Ok(Rewrite::NeedsInflection(pending)) => Ok(Rewrite::NeedsInflection(Pending {
                prefix: format!("ん本{}", pending.prefix),
                ..pending
            })),
            Err(e) => Err(e),
        };
        assert_eq!(ja_not_for_polite(whole), expected);
    }
}

#[test]
fn form_goes_by_the_last_four_morphemes() {
    let lead = || vec![word("ませ", "ます", WordClass::AuxiliaryVerb), word("ん", "ん", WordClass::AuxiliaryVerb)];
    for tail in tails() {
        let four = tail[1..].to_vec();
        let mut whole = lead();
        whole.extend(four.iter().cloned());
        assert_eq!(judge_form(&whole), judge_form(&four));
    }
}
