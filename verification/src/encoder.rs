//! The phrase encoder: BIP-39, English word list.

use bip39::{Language, Mnemonic};
use vstd::prelude::*;

use crate::entropy::BLOCK_BYTES;
use crate::phrase::{screen, screened, Candidate};

verus! {

/// The phrase that the encoder renders for an entropy block, or `None` where
/// it rejects the block. The encoder is a function of the block alone.
pub uninterp spec fn mnemonic_phrase(entropy: Seq<u8>) -> Option<Seq<char>>;

/// `bip39::Mnemonic::from_entropy_in` with the English word list, and the
/// mnemonic's `to_string`: the words of the mnemonic, one space between two
/// of them. Nothing is proved of the rendering; the contract only names it.
#[verifier::external_body]
pub(crate) fn render(entropy: &[u8; BLOCK_BYTES]) -> (phrase: Option<String>)
    ensures
        phrase matches Some(p) ==> mnemonic_phrase(entropy@) == Some(p@),
        phrase is None ==> mnemonic_phrase(entropy@) is None,
{
    match Mnemonic::from_entropy_in(Language::English, entropy) {
        Ok(mnemonic) => Some(mnemonic.to_string()),
        Err(_) => None,
    }
}

/// The candidate that an entropy block gives under a rejection threshold:
/// the block is rendered and the rendering screened. A block that the
/// encoder rejects gives nothing and is not looked at again.
pub fn evaluate(entropy: &[u8; BLOCK_BYTES], threshold: usize) -> (candidate: Option<Candidate>)
    ensures
        match candidate {
            Some(c) => screened(mnemonic_phrase(entropy@), threshold as nat) == Some(c@),
            None => screened(mnemonic_phrase(entropy@), threshold as nat) is None,
        },
{
    screen(render(entropy), threshold)
}

} // verus!
