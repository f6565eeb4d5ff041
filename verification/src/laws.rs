//! What holds of the classifier, the two rewriters and the transform, for
//! every sentence.

use vstd::prelude::*;
use crate::classify::{ends_in_masen_deshita, ends_in_nai_desu, polarity, Form};
use crate::lexicon::lemma_final_words_differ;
use crate::morpheme::{lemma_text_concat, text, Morpheme, MorphemeView};
use crate::outcome::{InternalInconsistency, PendingView, RewriteView};
use crate::plan::{affirmative_plan, existence_plan, fits, negative_plan, Plan};
use crate::transform;

verus! {

/// The negative-to-affirmative rewriter has a rule for a sentence exactly
/// when the classifier calls that sentence negative.
pub proof fn lemma_affirmative_rewriter_agrees<C>(s: Seq<MorphemeView<C>>)
    ensures
        affirmative_plan(s) is Some <==> polarity(s) == Form::Negative,
{
    lemma_final_words_differ();
}

/// Every sentence that the affirmative-to-negative rewriter has a rule for is
/// one that the classifier calls affirmative, but for the sentences that end
/// in ない and です or in the chain of 〜ませんでした: that rewriter reads
/// their last words as a copula.
pub proof fn lemma_negative_rewriter_agrees<C>(s: Seq<MorphemeView<C>>)
    requires
        negative_plan(s) is Some,
        !ends_in_nai_desu(s),
        !ends_in_masen_deshita(s),
    ensures
        polarity(s) == Form::Affirmative,
{
    lemma_final_words_differ();
}

/// A sentence that the classifier calls negative is never turned down.
pub proof fn lemma_negative_sentence_is_rewritten<C>(s: Seq<MorphemeView<C>>)
    requires
        polarity(s) == Form::Negative,
    ensures
        transform(s) is Ok,
{
    lemma_affirmative_rewriter_agrees(s);
}

/// The rewrite is a function of the parse: two parses that read the same
/// give the same rewrite, or the same error.
pub proof fn lemma_same_parse_same_rewrite<C>(a: Vec<Morpheme<C>>, b: Vec<Morpheme<C>>)
    requires
        a.deep_view() == b.deep_view(),
    ensures
        transform(a.deep_view()) == transform(b.deep_view()),
{
}

/// Nothing parsed is rewritten into the empty sentence.
pub proof fn lemma_nothing_parsed<C>(s: Seq<MorphemeView<C>>)
    requires
        s.len() == 0,
    ensures
        transform(s) == Ok::<RewriteView<C>, InternalInconsistency>(
            RewriteView::Finished(Seq::empty()),
        ),
{
}

/// The classifier reads the last four morphemes and no more: what stands
/// before them does not change the form of the sentence.
pub proof fn lemma_polarity_reads_four<C>(lead: Seq<MorphemeView<C>>, tail: Seq<MorphemeView<C>>)
    requires
        tail.len() >= 4,
    ensures
        polarity(lead + tail) == polarity(tail),
{
    let s = lead + tail;
    assert(s[s.len() - 1] == tail[tail.len() - 1]);
    assert(s[s.len() - 2] == tail[tail.len() - 2]);
    assert(s[s.len() - 3] == tail[tail.len() - 3]);
    assert(s[s.len() - 4] == tail[tail.len() - 4]);
}

/// A plan speaks only of morphemes that the sentence has. The
/// negative-to-affirmative rewriter drops five morphemes at most, the
/// affirmative-to-negative rewriter two.
pub proof fn lemma_plans_fit<C>(s: Seq<MorphemeView<C>>)
    ensures
        affirmative_plan(s) matches Some(plan) ==> fits(s, plan) && s.len() - 5 <= plan.kept,
        negative_plan(s) matches Some(plan) ==> fits(s, plan) && s.len() - 2 <= plan.kept,
{
}

/// The plan `plan` for a sentence, read for the same sentence behind `by`
/// further morphemes.
pub open spec fn shifted(plan: Plan, by: int) -> Plan {
    Plan { kept: plan.kept + by, inflect: plan.inflect, suffix: plan.suffix }
}

/// The outcome `r` of a rewrite, with `lead` written before the sentence.
pub open spec fn after<C>(
    lead: Seq<char>,
    r: Result<RewriteView<C>, InternalInconsistency>,
) -> Result<RewriteView<C>, InternalInconsistency> {
    match r {
        Ok(RewriteView::Finished(sentence)) => Ok(RewriteView::Finished(lead + sentence)),
        Ok(RewriteView::NeedsInflection(pending)) => Ok(
            RewriteView::NeedsInflection(
                PendingView {
                    prefix: lead + pending.prefix,
                    surface: pending.surface,
                    conjugation: pending.conjugation,
                    target: pending.target,
                    suffix: pending.suffix,
                },
            ),
        ),
        Err(e) => Err(e),
    }
}

/// A sentence is rewritten at its end and nowhere else: what stands before
/// the last five morphemes, or more, is copied as it is, and takes no part in
/// how they are rewritten.
pub proof fn lemma_rewrite_is_local<C>(lead: Seq<MorphemeView<C>>, tail: Seq<MorphemeView<C>>)
    requires
        tail.len() >= 5,
    ensures
        transform(lead + tail) == after(text(lead), transform(tail)),
{
    let s = lead + tail;
    let n = s.len() as int;
    let m = tail.len() as int;
    let l = lead.len() as int;
    assert(s[n - 1] == tail[m - 1]);
    assert(s[n - 2] == tail[m - 2]);
    assert(s[n - 3] == tail[m - 3]);
    assert(s[n - 4] == tail[m - 4]);
    assert(s[n - 5] == tail[m - 5]);
    assert(polarity(s) == polarity(tail));
    let whole = if polarity(s) == Form::Negative {
        affirmative_plan(s)
    } else {
        negative_plan(s)
    };
    let part = if polarity(s) == Form::Negative {
        affirmative_plan(tail)
    } else {
        negative_plan(tail)
    };
    assert(s.take(n - 2)[n - 3] == tail.take(m - 2)[m - 3]);
    assert(s.take(n - 2)[n - 4] == tail.take(m - 2)[m - 4]);
    assert(s.take(n - 3)[n - 4] == tail.take(m - 3)[m - 4]);
    assert(s.take(n - 3)[n - 5] == tail.take(m - 3)[m - 5]);
    let after_nai = existence_plan(tail.take(m - 2), false);
    let after_aru = existence_plan(tail.take(m - 3), true);
    assert(existence_plan(s.take(n - 2), false) == shifted(after_nai, l));
    assert(existence_plan(s.take(n - 3), true) == shifted(after_aru, l));
    assert(whole is Some <==> part is Some);
    if let Some(plan) = part {
        lemma_plans_fit(tail);
        assert(whole == Some(shifted(plan, l)));
        assert(s.take(l + plan.kept) =~= lead + tail.take(plan.kept));
        lemma_text_concat(lead, tail.take(plan.kept));
        match plan.inflect {
            None => {
                let kept = text(tail.take(plan.kept));
                assert(text(lead) + kept + plan.suffix =~= text(lead) + (kept + plan.suffix));
            },
            Some(_) => {
                assert(s[l + plan.kept] == tail[plan.kept]);
            },
        }
    }
}

} // verus!
