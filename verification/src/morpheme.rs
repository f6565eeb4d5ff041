//! Morphemes as a morphological analyzer hands them over, their text, and
//! the vocabulary for speaking about the end of a sentence.

use vstd::prelude::*;

verus! {

/// The part of speech of a morpheme, as far as the rewriting rules tell the
/// classes apart.
#[derive(Clone, Copy, Debug, PartialEq, Eq, Structural, Hash)]
pub enum WordClass {
    Verb,
    AuxiliaryVerb,
    Adjective,
    Postpositional,
    Other,
}

/// One lexical unit of a parsed sentence.
///
/// `C` is whatever the analyzer knows about the inflection of this occurrence
/// (its conjugation kind and form). The rules never look into it; it travels
/// with the word to the conjugation engine.
#[derive(Clone, Debug, PartialEq, Eq)]
pub struct Morpheme<C> {
    /// The text span as it stood in the sentence.
    pub surface: String,
    /// The dictionary form, by which the rules recognise the word.
    pub basic: String,
    pub word_class: WordClass,
    pub conjugation: C,
}

/// The mathematical value of a [`Morpheme`]: its strings as sequences of
/// characters.
pub struct MorphemeView<C> {
    pub surface: Seq<char>,
    pub basic: Seq<char>,
    pub word_class: WordClass,
    pub conjugation: C,
}

impl<C> View for Morpheme<C> {
    type V = MorphemeView<C>;

    open spec fn view(&self) -> MorphemeView<C> {
        MorphemeView {
            surface: self.surface@,
            basic: self.basic@,
            word_class: self.word_class,
            conjugation: self.conjugation,
        }
    }
}

impl<C> DeepView for Morpheme<C> {
    type V = MorphemeView<C>;

    open spec fn deep_view(&self) -> MorphemeView<C> {
        self@
    }
}

/// `str`'s `==` from the standard library, written as the method
/// `PartialEq::eq`. Two string slices compare equal exactly when they hold the
/// same characters in the same order. Taken on trust from the documentation
/// of `str`.
pub assume_specification[ <str as PartialEq>::eq ](a: &str, b: &str) -> (same: bool)
    ensures
        same == (a@ == b@),
;

impl<C> Morpheme<C> {
    /// Whether this is the word `lemma` of class `class`.
    pub fn is_word(&self, class: WordClass, lemma: &str) -> (yes: bool)
        ensures
            yes == (self@.word_class == class && self@.basic == lemma@),
    {
        self.word_class == class && self.basic.as_str().eq(lemma)
    }

    /// Whether this is the auxiliary verb `lemma`.
    pub fn is_auxiliary(&self, lemma: &str) -> (yes: bool)
        ensures
            yes == (self@.word_class == WordClass::AuxiliaryVerb && self@.basic == lemma@),
    {
        self.is_word(WordClass::AuxiliaryVerb, lemma)
    }

    /// Whether this is the particle `lemma`.
    pub fn is_particle(&self, lemma: &str) -> (yes: bool)
        ensures
            yes == (self@.word_class == WordClass::Postpositional && self@.basic == lemma@),
    {
        self.is_word(WordClass::Postpositional, lemma)
    }
}

/// The surfaces of `s`, written one after the other in reading order.
pub open spec fn text<C>(s: Seq<MorphemeView<C>>) -> Seq<char>
    decreases s.len(),
{
    if s.len() == 0 {
        Seq::empty()
    } else {
        text(s.drop_last()) + s.last().surface
    }
}

/// Whether `s` has a morpheme `back` places from its end (the last one is at
/// 1) and that morpheme is of class `class`.
pub open spec fn has_class<C>(s: Seq<MorphemeView<C>>, back: int, class: WordClass) -> bool {
    1 <= back <= s.len() && s[s.len() - back].word_class == class
}

/// Whether `s` has a morpheme `back` places from its end (the last one is at
/// 1) and that morpheme is the word `lemma` of class `class`.
pub open spec fn has_word<C>(
    s: Seq<MorphemeView<C>>,
    back: int,
    class: WordClass,
    lemma: Seq<char>,
) -> bool {
    has_class(s, back, class) && s[s.len() - back].basic == lemma
}

/// [`has_word`] for an auxiliary verb.
pub open spec fn has_auxiliary<C>(s: Seq<MorphemeView<C>>, back: int, lemma: Seq<char>) -> bool {
    has_word(s, back, WordClass::AuxiliaryVerb, lemma)
}

/// [`has_word`] for a particle.
pub open spec fn has_particle<C>(s: Seq<MorphemeView<C>>, back: int, lemma: Seq<char>) -> bool {
    has_word(s, back, WordClass::Postpositional, lemma)
}

/// Taking one morpheme more of a sentence appends that morpheme's surface to
/// the text.
pub proof fn lemma_text_take_next<C>(s: Seq<MorphemeView<C>>, k: int)
    requires
        0 <= k < s.len(),
    ensures
        text(s.take(k + 1)) == text(s.take(k)) + s[k].surface,
{
    assert(s.take(k + 1).drop_last() =~= s.take(k));
}

/// The text of two stretches of a sentence is the text of the first, then
/// that of the second.
pub proof fn lemma_text_concat<C>(a: Seq<MorphemeView<C>>, b: Seq<MorphemeView<C>>)
    ensures
        text(a + b) == text(a) + text(b),
    decreases b.len(),
{
    if b.len() == 0 {
        assert(a + b =~= a);
        assert(text(a) + text(b) =~= text(a));
    } else {
        lemma_text_concat(a, b.drop_last());
        assert((a + b).drop_last() =~= a + b.drop_last());
        let front = text(b.drop_last());
        assert(text(a) + front + b.last().surface =~= text(a) + (front + b.last().surface));
    }
}

/// Joins the surfaces of `morphs` in reading order.
pub fn morphs_to_string<C>(morphs: &[Morpheme<C>]) -> (out: String)
    ensures
        out@ == text(morphs.deep_view()),
{
    let mut out = String::new();
    let mut i: usize = 0;
    while i < morphs.len()
        invariant
            i <= morphs@.len(),
            out@ == text(morphs.deep_view().take(i as int)),
        decreases morphs@.len() - i,
    {
        proof {
            lemma_text_take_next(morphs.deep_view(), i as int);
        }
        out.append(morphs[i].surface.as_str());
        i += 1;
    }
    proof {
        let s = morphs.deep_view();
        assert(s.take(i as int) =~= s);
    }
    out
}

} // verus!
