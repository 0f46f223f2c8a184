//! `mnemonic generate`.
use vstd::prelude::*;

use crate::error::{invalid, CliError, CliErrorView};

verus! {

/// The strengths of a mnemonic.
#[derive(Clone, Copy, Debug, PartialEq, Eq, Structural)]
pub enum MnemonicStrength {
    Words12,
    Words15,
    Words18,
    Words21,
    Words24,
}

impl MnemonicStrength {
    /// How many words a mnemonic of this strength has.
    pub open spec fn words(self) -> u32 {
        match self {
            MnemonicStrength::Words12 => 12,
            MnemonicStrength::Words15 => 15,
            MnemonicStrength::Words18 => 18,
            MnemonicStrength::Words21 => 21,
            MnemonicStrength::Words24 => 24,
        }
    }
}

/// The strength with that many words.
pub fn run(words: u32) -> (r: Result<MnemonicStrength, CliError>)
    ensures
        match r {
            Ok(s) => s.words() == words,
            Err(e) => (forall|s: MnemonicStrength| #[trigger] s.words() != words) && e@
                == CliErrorView::InvalidArgs("--words must be 12, 15, 18, 21, or 24"@),
        },
{
    match words {
        12 => Ok(MnemonicStrength::Words12),
        15 => Ok(MnemonicStrength::Words15),
        18 => Ok(MnemonicStrength::Words18),
        21 => Ok(MnemonicStrength::Words21),
        24 => Ok(MnemonicStrength::Words24),
        _ => Err(invalid("--words must be 12, 15, 18, 21, or 24")),
    }
}

/// A mnemonic has 12, 15, 18, 21 or 24 words, and each strength its own number.
pub proof fn law_strengths_are_multiples_of_three(a: MnemonicStrength, b: MnemonicStrength)
    ensures
        12 <= a.words() <= 24,
        a.words() % 3 == 0,
        a.words() == b.words() ==> a == b,
        a is Words12 ==> a.words() == 12,
        a is Words15 ==> a.words() == 15,
        a is Words18 ==> a.words() == 18,
        a is Words21 ==> a.words() == 21,
        a is Words24 ==> a.words() == 24,
{
}

} // verus!
