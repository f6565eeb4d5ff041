//! What a rewrite hands back, and how a rewrite that waits for the
//! conjugation engine is finished.

use vstd::prelude::*;

verus! {

/// The inflected form that a rewrite asks the conjugation engine for.
#[derive(Clone, Copy, Debug, PartialEq, Eq, Structural, Hash)]
pub enum TargetForm {
    /// The dictionary form.
    Basic,
    /// The continuative stem, which stands before ありません and ません.
    Continuous,
}

/// A defect between the parts of this crate and its collaborators, as
/// opposed to a sentence that is merely not supported.
#[derive(Clone, Copy, Debug, PartialEq, Eq, Structural, Hash)]
pub enum InternalInconsistency {
    /// A rewriter met an ending that it has no rule for.
    UnexpectedTail,
    /// The conjugation engine turned down the inflection it was asked for.
    ConversionRejected,
}

/// A rewrite that waits for one word to be inflected.
///
/// The finished sentence is `prefix`, then `surface` brought into the form
/// `target`, then `suffix`.
#[derive(Clone, Debug, PartialEq, Eq)]
pub struct Pending<C> {
    pub prefix: String,
    /// The word to inflect, as it stood in the sentence.
    pub surface: String,
    /// What the analyzer said about the inflection of that word.
    pub conjugation: C,
    pub target: TargetForm,
    pub suffix: String,
}

/// The mathematical value of a [`Pending`].
pub struct PendingView<C> {
    pub prefix: Seq<char>,
    pub surface: Seq<char>,
    pub conjugation: C,
    pub target: TargetForm,
    pub suffix: Seq<char>,
}

impl<C> View for Pending<C> {
    type V = PendingView<C>;

    open spec fn view(&self) -> PendingView<C> {
        PendingView {
            prefix: self.prefix@,
            surface: self.surface@,
            conjugation: self.conjugation,
            target: self.target,
            suffix: self.suffix@,
        }
    }
}

/// What a rewriter hands back: the finished sentence, or a sentence that
/// needs one word inflected before it is finished.
#[derive(Clone, Debug, PartialEq, Eq)]
pub enum Rewrite<C> {
    Finished(String),
    NeedsInflection(Pending<C>),
}

/// The mathematical value of a [`Rewrite`].
pub enum RewriteView<C> {
    Finished(Seq<char>),
    NeedsInflection(PendingView<C>),
}

impl<C> View for Rewrite<C> {
    type V = RewriteView<C>;

    open spec fn view(&self) -> RewriteView<C> {
        match self {
            Rewrite::Finished(sentence) => RewriteView::Finished(sentence@),
            Rewrite::NeedsInflection(pending) => RewriteView::NeedsInflection(pending@),
        }
    }
}

/// The finished sentence of a pending rewrite, once the conjugation engine
/// has answered: `inflected` is the word it returned, or `None` where it
/// turned the request down.
pub open spec fn completed<C>(
    pending: PendingView<C>,
    inflected: Option<Seq<char>>,
) -> Result<Seq<char>, InternalInconsistency> {
    match inflected {
        Some(word) => Ok(pending.prefix + word + pending.suffix),
        None => Err(InternalInconsistency::ConversionRejected),
    }
}

impl<C> Pending<C> {
    /// Finishes the sentence with the conjugation engine's answer: the
    /// inflected word, or `None` where the engine turned the request down.
    pub fn complete(self, inflected: Option<String>) -> (r: Result<String, InternalInconsistency>)
        ensures
            (match r {
                Ok(sentence) => completed(self@, inflected.deep_view()) == Ok::<
                    Seq<char>,
                    InternalInconsistency,
                >(sentence@),
                Err(e) => completed(self@, inflected.deep_view()) == Err::<
                    Seq<char>,
                    InternalInconsistency,
                >(e),
            }),
    {
        match inflected {
            Some(word) => {
                let mut sentence = self.prefix;
                sentence.append(word.as_str());
                sentence.append(self.suffix.as_str());
                Ok(sentence)
            },
            None => Err(InternalInconsistency::ConversionRejected),
        }
    }
}

} // verus!
