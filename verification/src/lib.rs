//! Toggles a Japanese sentence between its polite affirmative and its polite
//! negative form: 寒いです and 寒くありません, 読みます and 読みません.
//!
//! The sentence arrives already segmented into morphemes, each with its
//! surface, its dictionary form and its part of speech. [`classify`] tells
//! which of the two forms the sentence stands in; [`rewrite`] takes the
//! sentence apart from its end and puts the other form together, by the rules
//! that [`plan`] states as tables. [`ja_not_for_polite`] does the one after
//! the other.
//!
//! Inflecting a word is left to a conjugation engine outside this crate.
//! Where a rewrite needs a word in another form, it comes back as
//! [`outcome::Rewrite::NeedsInflection`]: the caller has the word inflected
//! and finishes the sentence with [`outcome::Pending::complete`].

use vstd::prelude::*;

pub mod classify;
pub mod laws;
pub mod lexicon;
pub mod morpheme;
pub mod outcome;
pub mod plan;
pub mod rewrite;

use crate::classify::{judge_form, polarity, Form};
use crate::lexicon::lemma_final_words_differ;
use crate::morpheme::{Morpheme, MorphemeView};
use crate::outcome::{InternalInconsistency, Rewrite, RewriteView};
use crate::plan::{affirmative_plan, carry_out, negative_plan};
use crate::rewrite::{change_affirmative_to_negative, change_negative_to_affirmative};

verus! {

/// The rewrite of the parsed sentence `s` into the opposite polite form.
///
/// Nothing parsed gives the empty sentence. A negative sentence is rewritten
/// by [`affirmative_plan`], every other one by [`negative_plan`]; where the
/// plan in charge has no rule for the sentence, the rewrite fails.
pub open spec fn transform<C>(
    s: Seq<MorphemeView<C>>,
) -> Result<RewriteView<C>, InternalInconsistency> {
    if s.len() == 0 {
        Ok(RewriteView::Finished(Seq::empty()))
    } else {
        let plan = match polarity(s) {
            Form::Negative => affirmative_plan(s),
            Form::Affirmative => negative_plan(s),
        };
        match plan {
            Some(plan) => Ok(carry_out(s, plan)),
            None => Err(InternalInconsistency::UnexpectedTail),
        }
    }
}

/// Rewrites a parsed polite sentence into the opposite form: a negative
/// sentence into its affirmative, an affirmative one into its negative.
///
/// The result is the finished sentence, or a sentence that waits for one word
/// to be inflected. An empty parse gives the empty sentence. A sentence that
/// the classifier calls negative is always rewritten; an affirmative one is
/// turned down where it does not end in a polite form.
pub fn ja_not_for_polite<C>(
    morphs: Vec<Morpheme<C>>,
) -> (r: Result<Rewrite<C>, InternalInconsistency>)
    ensures
        (match r {
            Ok(rewrite) => transform(morphs.deep_view()) == Ok::<
                RewriteView<C>,
                InternalInconsistency,
            >(rewrite@),
            Err(e) => transform(morphs.deep_view()) == Err::<RewriteView<C>, InternalInconsistency>(
                e,
            ),
        }),
        morphs@.len() == 0 ==> (r matches Ok(Rewrite::Finished(sentence)) && sentence@
            == Seq::<char>::empty()),
        polarity(morphs.deep_view()) == Form::Negative ==> r is Ok,
{
    if morphs.len() == 0 {
        return Ok(Rewrite::Finished(String::new()));
    }
    let all = morphs.as_slice();
    assert(all.deep_view() =~= morphs.deep_view());
    proof {
        lemma_final_words_differ();
    }
    match judge_form(all) {
        Form::Affirmative => change_affirmative_to_negative(morphs),
        Form::Negative => change_negative_to_affirmative(morphs),
    }
}

} // verus!
