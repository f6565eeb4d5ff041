//! The words that mark a polite sentence, and the endings that replace them.

use vstd::prelude::*;

verus! {

/// Dictionary form of the negative auxiliary, the last morpheme of 〜ません.
pub const N: &'static str = "ん";

/// Dictionary form of the polite copula.
pub const DESU: &'static str = "です";

/// Dictionary form of the polite verbal auxiliary.
pub const MASU: &'static str = "ます";

/// Dictionary form of the past auxiliary.
pub const TA: &'static str = "た";

/// Dictionary form of the plain negative auxiliary.
pub const NAI: &'static str = "ない";

/// Dictionary form of the existence verb.
pub const ARU: &'static str = "ある";

/// The topic particle.
pub const WA: &'static str = "は";

/// The particle that joins a な-adjective or noun to ある.
pub const DE: &'static str = "で";

/// Dictionary form of the plain copula.
pub const DA: &'static str = "だ";

/// The contraction of で and は.
pub const JA: &'static str = "じゃ";

/// Ending of an affirmative existence sentence.
pub const ARIMASU: &'static str = "あります";

/// Ending of an affirmative existence sentence whose topic particle is kept.
pub const WA_ARIMASU: &'static str = "はあります";

/// Ending of an affirmative past sentence.
pub const MASHITA: &'static str = "ました";

/// Ending of a negative adjective sentence, after the continuative stem.
pub const ARIMASEN: &'static str = "ありません";

/// Ending of a negative copula sentence.
pub const DEWA_ARIMASEN: &'static str = "ではありません";

/// Ending of a negative verb sentence.
pub const MASEN: &'static str = "ません";

/// Ending of a negative past copula sentence.
pub const DEWA_ARIMASEN_DESHITA: &'static str = "ではありませんでした";

/// Ending of a negative past verb sentence.
pub const MASEN_DESHITA: &'static str = "ませんでした";

/// The four words that can end a polite sentence are four different words.
pub proof fn lemma_final_words_differ()
    ensures
        N@ != DESU@,
        N@ != MASU@,
        N@ != TA@,
        DESU@ != MASU@,
        DESU@ != TA@,
        MASU@ != TA@,
{
    reveal_strlit("ん");
    reveal_strlit("です");
    reveal_strlit("ます");
    reveal_strlit("た");
    assert(N@[0] != TA@[0]);
    assert(DESU@[0] != MASU@[0]);
}

} // verus!
