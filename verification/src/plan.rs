//! The rules of the two rewriters, as tables from the end of a sentence to
//! what becomes of it.

use vstd::prelude::*;
use crate::classify::{ends_in_n, ends_in_masen_deshita, ends_in_nai_desu};
use crate::lexicon::{
    ARIMASEN, ARIMASU, ARU, DA, DE, DESU, DEWA_ARIMASEN, DEWA_ARIMASEN_DESHITA, JA, MASEN,
    MASEN_DESHITA, MASHITA, MASU, TA, WA, WA_ARIMASU,
};
use crate::morpheme::{
    has_auxiliary, has_class, has_particle, has_word, text, MorphemeView, WordClass,
};
use crate::outcome::{PendingView, RewriteView, TargetForm};

verus! {

/// What a rule decides for a sentence: the first `kept` morphemes stay as they
/// are; where `inflect` names a form, the morpheme after them is brought into
/// that form; `suffix` ends the sentence. Every later morpheme is dropped.
pub struct Plan {
    pub kept: int,
    pub inflect: Option<TargetForm>,
    pub suffix: Seq<char>,
}

/// The plan that drops the last `dropped` morphemes of `s` and writes
/// `suffix` in their place.
pub open spec fn keep<C>(s: Seq<MorphemeView<C>>, dropped: int, suffix: Seq<char>) -> Plan {
    Plan { kept: s.len() - dropped, inflect: None, suffix }
}

/// The plan that drops the last `dropped` morphemes of `s`, writes the first
/// of them anew in the form `target`, and `suffix` after it.
pub open spec fn reinflect<C>(
    s: Seq<MorphemeView<C>>,
    dropped: int,
    target: TargetForm,
    suffix: Seq<char>,
) -> Plan {
    Plan { kept: s.len() - dropped, inflect: Some(target), suffix }
}

/// Whether `plan` speaks of morphemes that `s` has.
pub open spec fn fits<C>(s: Seq<MorphemeView<C>>, plan: Plan) -> bool {
    &&& 0 <= plan.kept <= s.len()
    &&& plan.inflect is Some ==> plan.kept < s.len()
}

/// The rewrite that `plan` makes of the sentence `s`.
pub open spec fn carry_out<C>(s: Seq<MorphemeView<C>>, plan: Plan) -> RewriteView<C> {
    match plan.inflect {
        None => RewriteView::Finished(text(s.take(plan.kept)) + plan.suffix),
        Some(target) => RewriteView::NeedsInflection(
            PendingView {
                prefix: text(s.take(plan.kept)),
                surface: s[plan.kept].surface,
                conjugation: s[plan.kept].conjugation,
                target,
                suffix: plan.suffix,
            },
        ),
    }
}

/// A plan reads only the morphemes up to the one it inflects, so it makes
/// the same rewrite of a sentence and of any beginning of it that it fits.
pub proof fn lemma_carry_out_beginning<C>(s: Seq<MorphemeView<C>>, len: int, plan: Plan)
    requires
        0 <= len <= s.len(),
        fits(s.take(len), plan),
    ensures
        carry_out(s.take(len), plan) == carry_out(s, plan),
{
    assert(s.take(len).take(plan.kept) =~= s.take(plan.kept));
}

/// Whether the morpheme `back` places from the end of `s` is the existence
/// verb, tagged as a verb or as an auxiliary.
pub open spec fn has_existence<C>(s: Seq<MorphemeView<C>>, back: int) -> bool {
    has_word(s, back, WordClass::Verb, ARU@) || has_auxiliary(s, back, ARU@)
}

/// What stands before the negated existence verb, or before ない, decides the
/// affirmative sentence. `rest` is the sentence up to that word.
///
/// A topic particle after で or だ gives way to the copula; any other topic
/// particle stays, before あります. The contraction じゃ gives way to the
/// copula where `contracted` allows it. An adjective returns to its
/// dictionary form before です. Anything else stays, before あります.
pub open spec fn existence_plan<C>(rest: Seq<MorphemeView<C>>, contracted: bool) -> Plan {
    if has_particle(rest, 1, WA@) {
        if has_particle(rest, 2, DE@) || has_auxiliary(rest, 2, DA@) {
            keep(rest, 2, DESU@)
        } else {
            keep(rest, 1, WA_ARIMASU@)
        }
    } else if contracted && has_particle(rest, 1, JA@) {
        keep(rest, 1, DESU@)
    } else if has_class(rest, 1, WordClass::Adjective) {
        reinflect(rest, 1, TargetForm::Basic, DESU@)
    } else {
        keep(rest, 0, ARIMASU@)
    }
}

/// The plan that turns the negative sentence `s` into its affirmative, or
/// `None` where `s` has none of the negative endings.
///
/// After 〜ません: ん alone is dropped; ます after anything but the existence
/// verb stays; a negated existence verb goes by [`existence_plan`]. After
/// 〜ないです the same plan decides, without the contraction. The chain of
/// 〜ませんでした becomes ました.
pub open spec fn affirmative_plan<C>(s: Seq<MorphemeView<C>>) -> Option<Plan> {
    if ends_in_n(s) {
        if !has_auxiliary(s, 2, MASU@) {
            Some(keep(s, 1, Seq::empty()))
        } else if has_existence(s, 3) {
            Some(existence_plan(s.take(s.len() - 3), true))
        } else {
            Some(keep(s, 2, MASU@))
        }
    } else if ends_in_nai_desu(s) {
        Some(existence_plan(s.take(s.len() - 2), false))
    } else if ends_in_masen_deshita(s) {
        Some(keep(s, 4, MASHITA@))
    } else {
        None
    }
}

/// The plan that turns the affirmative sentence `s` into its negative, or
/// `None` where `s` does not end in です, ます, or either of them before た.
///
/// Before です an adjective takes its continuative stem and ありません;
/// anything else takes ではありません. Before ます any word takes its
/// continuative stem and ません. In the past, です becomes
/// ではありませんでした and ます becomes ませんでした.
pub open spec fn negative_plan<C>(s: Seq<MorphemeView<C>>) -> Option<Plan> {
    if has_auxiliary(s, 1, DESU@) {
        if has_class(s, 2, WordClass::Adjective) {
            Some(reinflect(s, 2, TargetForm::Continuous, ARIMASEN@))
        } else {
            Some(keep(s, 1, DEWA_ARIMASEN@))
        }
    } else if has_auxiliary(s, 1, MASU@) {
        if s.len() >= 2 {
            Some(reinflect(s, 2, TargetForm::Continuous, MASEN@))
        } else {
            Some(keep(s, 1, MASEN@))
        }
    } else if has_auxiliary(s, 1, TA@) {
        if has_auxiliary(s, 2, DESU@) {
            Some(keep(s, 2, DEWA_ARIMASEN_DESHITA@))
        } else if has_auxiliary(s, 2, MASU@) {
            Some(keep(s, 2, MASEN_DESHITA@))
        } else {
            None
        }
    } else {
        None
    }
}

} // verus!
