//! Tells whether a parsed sentence stands in its polite affirmative or its
//! polite negative form.

use vstd::prelude::*;
use crate::lexicon::{lemma_final_words_differ, DESU, MASU, N, NAI, TA};
use crate::morpheme::{has_auxiliary, Morpheme, MorphemeView};

verus! {

/// The form a polite sentence stands in.
#[derive(Clone, Copy, Debug, PartialEq, Eq, Structural, Hash)]
pub enum Form {
    Affirmative,
    Negative,
}

/// The sentence ends in the negative auxiliary ん, as 〜ません does.
pub open spec fn ends_in_n<C>(s: Seq<MorphemeView<C>>) -> bool {
    has_auxiliary(s, 1, N@)
}

/// The sentence ends in ない and です.
pub open spec fn ends_in_nai_desu<C>(s: Seq<MorphemeView<C>>) -> bool {
    has_auxiliary(s, 1, DESU@) && has_auxiliary(s, 2, NAI@)
}

/// The sentence ends in ます, ん, です and た, the chain of 〜ませんでした.
pub open spec fn ends_in_masen_deshita<C>(s: Seq<MorphemeView<C>>) -> bool {
    &&& has_auxiliary(s, 1, TA@)
    &&& has_auxiliary(s, 2, DESU@)
    &&& has_auxiliary(s, 3, N@)
    &&& has_auxiliary(s, 4, MASU@)
}

/// Whether the end of `s` is one of the three polite negative endings.
pub open spec fn negative_tail<C>(s: Seq<MorphemeView<C>>) -> bool {
    ends_in_n(s) || ends_in_nai_desu(s) || ends_in_masen_deshita(s)
}

/// The form of the sentence `s`: negative where it ends in a polite negative
/// ending, affirmative in every other case, the empty sentence included.
pub open spec fn polarity<C>(s: Seq<MorphemeView<C>>) -> Form {
    if negative_tail(s) {
        Form::Negative
    } else {
        Form::Affirmative
    }
}

/// Classifies a parsed sentence by its last morphemes, four at most.
pub fn judge_form<C>(morphs: &[Morpheme<C>]) -> (form: Form)
    ensures
        form == polarity(morphs.deep_view()),
{
    proof {
        lemma_final_words_differ();
    }
    let n = morphs.len();
    if n == 0 {
        return Form::Affirmative;
    }
    let last = &morphs[n - 1];
    if last.is_auxiliary(N) {
        Form::Negative
    } else if last.is_auxiliary(DESU) {
        if n >= 2 && morphs[n - 2].is_auxiliary(NAI) {
            Form::Negative
        } else {
            Form::Affirmative
        }
    } else if last.is_auxiliary(TA) {
        if n >= 4
            && morphs[n - 2].is_auxiliary(DESU)
            && morphs[n - 3].is_auxiliary(N)
            && morphs[n - 4].is_auxiliary(MASU) {
            Form::Negative
        } else {
            Form::Affirmative
        }
    } else {
        Form::Affirmative
    }
}

} // verus!
