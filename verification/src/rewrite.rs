//! Rewrites the end of a parsed sentence into the opposite polite form.

use vstd::prelude::*;
use crate::lexicon::{
    lemma_final_words_differ, ARIMASEN, ARIMASU, ARU, DA, DE, DESU, DEWA_ARIMASEN,
    DEWA_ARIMASEN_DESHITA, JA, MASEN, MASEN_DESHITA, MASHITA, MASU, N, NAI, TA, WA, WA_ARIMASU,
};
use crate::morpheme::{lemma_text_take_next, morphs_to_string, text, Morpheme, WordClass};
use crate::outcome::{InternalInconsistency, Pending, PendingView, Rewrite, RewriteView, TargetForm};
use crate::plan::{
    affirmative_plan, carry_out, existence_plan, fits, lemma_carry_out_beginning, negative_plan,
};

verus! {

/// The surface of `word`, or nothing where there is no word.
spec fn surface_of<C>(word: Option<&Morpheme<C>>) -> Seq<char> {
    match word {
        Some(w) => w@.surface,
        None => Seq::empty(),
    }
}

/// The finished sentence made of `morphs`, then the surface of `word` if
/// there is one, then `ending`.
fn sentence<C>(
    morphs: &Vec<Morpheme<C>>,
    word: Option<&Morpheme<C>>,
    ending: &str,
) -> (r: Rewrite<C>)
    ensures
        r@ == RewriteView::<C>::Finished(text(morphs.deep_view()) + surface_of(word) + ending@),
{
    let all = morphs.as_slice();
    assert(all.deep_view() =~= morphs.deep_view());
    let mut out = morphs_to_string(all);
    match word {
        Some(w) => {
            out.append(w.surface.as_str());
        },
        None => {
            assert(out@ + Seq::<char>::empty() =~= out@);
        },
    }
    out.append(ending);
    Rewrite::Finished(out)
}

/// The rewrite that waits for `word`, which stood after `morphs`, to be
/// brought into the form `target`.
fn awaiting<C>(
    morphs: &Vec<Morpheme<C>>,
    word: Morpheme<C>,
    target: TargetForm,
    ending: &str,
) -> (r: Rewrite<C>)
    ensures
        r@ == RewriteView::NeedsInflection(
            (PendingView {
                prefix: text(morphs.deep_view()),
                surface: word@.surface,
                conjugation: word@.conjugation,
                target,
                suffix: ending@,
            }),
        ),
{
    let all = morphs.as_slice();
    assert(all.deep_view() =~= morphs.deep_view());
    Rewrite::NeedsInflection(
        Pending {
            prefix: morphs_to_string(all),
            surface: word.surface,
            conjugation: word.conjugation,
            target,
            suffix: ending.to_owned(),
        },
    )
}

/// Takes the last morpheme off `morphs`, if there is one.
fn pop_last<C>(morphs: &mut Vec<Morpheme<C>>) -> (last: Option<Morpheme<C>>)
    ensures
        old(morphs)@.len() == 0 ==> last is None && final(morphs)@.len() == 0,
        old(morphs)@.len() > 0 ==> (last matches Some(m) && m@ == old(morphs).deep_view().last()),
        old(morphs)@.len() > 0 ==> final(morphs).deep_view() == old(morphs).deep_view().drop_last(),
{
    let last = morphs.pop();
    proof {
        if old(morphs)@.len() > 0 {
            assert(morphs.deep_view() =~= old(morphs).deep_view().drop_last());
        }
    }
    last
}

/// Rewrites what stands before a negated existence verb, or before ない.
fn before_existence<C>(morphs: Vec<Morpheme<C>>, contracted: bool) -> (r: Rewrite<C>)
    ensures
        fits(morphs.deep_view(), existence_plan(morphs.deep_view(), contracted)),
        r@ == carry_out(morphs.deep_view(), existence_plan(morphs.deep_view(), contracted)),
{
    let ghost rest = morphs.deep_view();
    let ghost len = rest.len() as int;
    let mut morphs = morphs;
    match pop_last(&mut morphs) {
        None => {
            assert(text(rest.take(0)) + ARIMASU@ =~= ARIMASU@);
            Rewrite::Finished(ARIMASU.to_owned())
        },
        Some(word) => {
            assert(morphs.deep_view() =~= rest.take(len - 1));
            if word.is_particle(WA) {
                match pop_last(&mut morphs) {
                    None => {
                        assert(text(rest.take(0)) + WA_ARIMASU@ =~= WA_ARIMASU@);
                        Rewrite::Finished(WA_ARIMASU.to_owned())
                    },
                    Some(before) => {
                        assert(morphs.deep_view() =~= rest.take(len - 2));
                        if before.is_particle(DE) || before.is_auxiliary(DA) {
                            sentence(&morphs, None, DESU)
                        } else {
                            proof {
                                lemma_text_take_next(rest, len - 2);
                            }
                            sentence(&morphs, Some(&before), WA_ARIMASU)
                        }
                    },
                }
            } else if contracted && word.is_particle(JA) {
                sentence(&morphs, None, DESU)
            } else if word.word_class == WordClass::Adjective {
                awaiting(&morphs, word, TargetForm::Basic, DESU)
            } else {
                proof {
                    lemma_text_take_next(rest, len - 1);
                    assert(rest.take(len) =~= rest);
                }
                sentence(&morphs, Some(&word), ARIMASU)
            }
        },
    }
}

/// Rewrites a polite negative sentence into its affirmative.
///
/// The sentence is taken apart from its end. An ending that is none of the
/// polite negative endings is reported as [`InternalInconsistency::UnexpectedTail`].
pub fn change_negative_to_affirmative<C>(
    morphs: Vec<Morpheme<C>>,
) -> (r: Result<Rewrite<C>, InternalInconsistency>)
    ensures
        (match r {
            Ok(rewrite) => affirmative_plan(morphs.deep_view()) matches Some(plan) && rewrite@
                == carry_out(morphs.deep_view(), plan),
            Err(e) => affirmative_plan(morphs.deep_view()) is None && e
                == InternalInconsistency::UnexpectedTail,
        }),
{
    let ghost s = morphs.deep_view();
    let ghost n = s.len() as int;
    let mut morphs = morphs;
    proof {
        lemma_final_words_differ();
    }
    let last = match pop_last(&mut morphs) {
        Some(m) => m,
        None => {
            return Err(InternalInconsistency::UnexpectedTail);
        },
    };
    assert(morphs.deep_view() =~= s.take(n - 1));
    if last.is_auxiliary(N) {
        match pop_last(&mut morphs) {
            None => {
                assert(text(s.take(0)) + Seq::<char>::empty() =~= Seq::<char>::empty());
                Ok(Rewrite::Finished(String::new()))
            },
            Some(second) => {
                assert(morphs.deep_view() =~= s.take(n - 2));
                if second.is_auxiliary(MASU) {
                    match pop_last(&mut morphs) {
                        None => {
                            assert(text(s.take(0)) + MASU@ =~= MASU@);
                            Ok(Rewrite::Finished(MASU.to_owned()))
                        },
                        Some(third) => {
                            assert(morphs.deep_view() =~= s.take(n - 3));
                            if third.is_word(WordClass::Verb, ARU) || third.is_auxiliary(ARU) {
                                let rewrite = before_existence(morphs, true);
                                proof {
                                    lemma_carry_out_beginning(
                                        s,
                                        n - 3,
                                        existence_plan(s.take(n - 3), true),
                                    );
                                }
                                Ok(rewrite)
                            } else {
                                proof {
                                    lemma_text_take_next(s, n - 3);
                                }
                                Ok(sentence(&morphs, Some(&third), MASU))
                            }
                        },
                    }
                } else {
                    proof {
                        lemma_text_take_next(s, n - 2);
                        reveal_strlit("");
                        assert(""@ =~= Seq::<char>::empty());
                    }
                    Ok(sentence(&morphs, Some(&second), ""))
                }
            },
        }
    } else if last.is_auxiliary(DESU) {
        match pop_last(&mut morphs) {
            None => Err(InternalInconsistency::UnexpectedTail),
            Some(second) => {
                assert(morphs.deep_view() =~= s.take(n - 2));
                if second.is_auxiliary(NAI) {
                    let rewrite = before_existence(morphs, false);
                    proof {
                        lemma_carry_out_beginning(s, n - 2, existence_plan(s.take(n - 2), false));
                    }
                    Ok(rewrite)
                } else {
                    Err(InternalInconsistency::UnexpectedTail)
                }
            },
        }
    } else if last.is_auxiliary(TA) {
        match pop_last(&mut morphs) {
            None => Err(InternalInconsistency::UnexpectedTail),
            Some(second) => {
                assert(morphs.deep_view() =~= s.take(n - 2));
                if !second.is_auxiliary(DESU) {
                    return Err(InternalInconsistency::UnexpectedTail);
                }
                match pop_last(&mut morphs) {
                    None => Err(InternalInconsistency::UnexpectedTail),
                    Some(third) => {
                        assert(morphs.deep_view() =~= s.take(n - 3));
                        if !third.is_auxiliary(N) {
                            return Err(InternalInconsistency::UnexpectedTail);
                        }
                        match pop_last(&mut morphs) {
                            None => Err(InternalInconsistency::UnexpectedTail),
                            Some(fourth) => {
                                assert(morphs.deep_view() =~= s.take(n - 4));
                                if fourth.is_auxiliary(MASU) {
                                    Ok(sentence(&morphs, None, MASHITA))
                                } else {
                                    Err(InternalInconsistency::UnexpectedTail)
                                }
                            },
                        }
                    },
                }
            },
        }
    } else {
        Err(InternalInconsistency::UnexpectedTail)
    }
}

/// Rewrites a polite affirmative sentence into its negative.
///
/// The sentence is taken apart from its end. An ending that is neither
/// です nor ます, nor either of them before た, is reported as
/// [`InternalInconsistency::UnexpectedTail`].
pub fn change_affirmative_to_negative<C>(
    morphs: Vec<Morpheme<C>>,
) -> (r: Result<Rewrite<C>, InternalInconsistency>)
    ensures
        (match r {
            Ok(rewrite) => negative_plan(morphs.deep_view()) matches Some(plan) && rewrite@
                == carry_out(morphs.deep_view(), plan),
            Err(e) => negative_plan(morphs.deep_view()) is None && e
                == InternalInconsistency::UnexpectedTail,
        }),
{
    let ghost s = morphs.deep_view();
    let ghost n = s.len() as int;
    let mut morphs = morphs;
    proof {
        lemma_final_words_differ();
    }
    let last = match pop_last(&mut morphs) {
        Some(m) => m,
        None => {
            return Err(InternalInconsistency::UnexpectedTail);
        },
    };
    assert(morphs.deep_view() =~= s.take(n - 1));
    if last.is_auxiliary(DESU) {
        match pop_last(&mut morphs) {
            None => {
                assert(text(s.take(0)) + DEWA_ARIMASEN@ =~= DEWA_ARIMASEN@);
                Ok(Rewrite::Finished(DEWA_ARIMASEN.to_owned()))
            },
            Some(word) => {
                assert(morphs.deep_view() =~= s.take(n - 2));
                if word.word_class == WordClass::Adjective {
                    Ok(awaiting(&morphs, word, TargetForm::Continuous, ARIMASEN))
                } else {
                    proof {
                        lemma_text_take_next(s, n - 2);
                    }
                    Ok(sentence(&morphs, Some(&word), DEWA_ARIMASEN))
                }
            },
        }
    } else if last.is_auxiliary(MASU) {
        match pop_last(&mut morphs) {
            None => {
                assert(text(s.take(0)) + MASEN@ =~= MASEN@);
                Ok(Rewrite::Finished(MASEN.to_owned()))
            },
            Some(word) => {
                assert(morphs.deep_view() =~= s.take(n - 2));
                Ok(awaiting(&morphs, word, TargetForm::Continuous, MASEN))
            },
        }
    } else if last.is_auxiliary(TA) {
        match pop_last(&mut morphs) {
            None => Err(InternalInconsistency::UnexpectedTail),
            Some(second) => {
                assert(morphs.deep_view() =~= s.take(n - 2));
                if second.is_auxiliary(DESU) {
                    Ok(sentence(&morphs, None, DEWA_ARIMASEN_DESHITA))
                } else if second.is_auxiliary(MASU) {
                    match pop_last(&mut morphs) {
                        None => {
                            assert(text(s.take(0)) + MASEN_DESHITA@ =~= MASEN_DESHITA@);
                            Ok(Rewrite::Finished(MASEN_DESHITA.to_owned()))
                        },
                        Some(word) => {
                            assert(morphs.deep_view() =~= s.take(n - 3));
                            proof {
                                lemma_text_take_next(s, n - 3);
                            }
                            Ok(sentence(&morphs, Some(&word), MASEN_DESHITA))
                        },
                    }
                } else {
                    Err(InternalInconsistency::UnexpectedTail)
                }
            },
        }
    } else {
        Err(InternalInconsistency::UnexpectedTail)
    }
}

} // verus!
