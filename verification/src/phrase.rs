//! Phrases and their character weight.

use vstd::prelude::*;

verus! {

/// Whether `c` is white space: a character with the Unicode property
/// `White_Space`.
pub open spec fn is_whitespace(c: char) -> bool {
    let u = c as u32;
    ||| 0x09 <= u <= 0x0D
    ||| u == 0x20
    ||| u == 0x85
    ||| u == 0xA0
    ||| u == 0x1680
    ||| 0x2000 <= u <= 0x200A
    ||| u == 0x2028
    ||| u == 0x2029
    ||| u == 0x202F
    ||| u == 0x205F
    ||| u == 0x3000
}

/// The character weight of a phrase: the number of its characters that are
/// not white space.
pub open spec fn weight_of(phrase: Seq<char>) -> nat {
    phrase.filter(|c: char| !is_whitespace(c)).len()
}

/// Whether `c` is white space.
pub fn is_whitespace_char(c: char) -> (white: bool)
    ensures
        white == is_whitespace(c),
{
    let u = c as u32;
    (0x09 <= u && u <= 0x0D) || u == 0x20 || u == 0x85 || u == 0xA0 || u == 0x1680 || (0x2000 <= u
        && u <= 0x200A) || u == 0x2028 || u == 0x2029 || u == 0x202F || u == 0x205F || u == 0x3000
}

/// The character weight of `phrase`.
pub fn character_weight(phrase: &str) -> (weight: usize)
    ensures
        weight == weight_of(phrase@),
{
    // The number of characters bounds the weight, which therefore fits.
    let length = phrase.unicode_len();
    let mut weight: usize = 0;
    for c in it: phrase.chars()
        invariant
            length == phrase@.len(),
            it.seq() == phrase@,
            weight == weight_of(phrase@.take(it.index())),
            weight <= it.index(),
    {
        proof {
            let i = it.index();
            assert(phrase@.take(i + 1) =~= phrase@.take(i).push(phrase@[i]));
            lemma_weight_push(phrase@.take(i), phrase@[i]);
        }
        if !is_whitespace_char(c) {
            weight = weight + 1;
        }
    }
    proof {
        assert(phrase@.take(phrase@.len() as int) =~= phrase@);
    }
    weight
}

/// One more character adds one to the weight unless it is white space.
pub proof fn lemma_weight_push(phrase: Seq<char>, c: char)
    ensures
        weight_of(phrase.push(c)) == weight_of(phrase) + if is_whitespace(c) {
            0nat
        } else {
            1nat
        },
        weight_of(phrase) <= phrase.len(),
{
    let keep = |c: char| !is_whitespace(c);
    phrase.lemma_filter_len_push(keep, c);
    phrase.lemma_filter_len(keep);
}

/// What screening leaves of an encoder's answer under a rejection threshold:
/// the phrase, where there is one and its weight is below the threshold.
pub open spec fn screened(encoded: Option<Seq<char>>, threshold: nat) -> Option<Seq<char>> {
    match encoded {
        Some(phrase) => if weight_of(phrase) < threshold {
            Some(phrase)
        } else {
            None
        },
        None => None,
    }
}

/// A phrase together with its character weight.
#[derive(Debug)]
pub struct Candidate {
    phrase: String,
    weight: usize,
}

impl View for Candidate {
    type V = Seq<char>;

    /// The phrase. The weight follows from it.
    closed spec fn view(&self) -> Seq<char> {
        self.phrase@
    }
}

impl Candidate {
    #[verifier::type_invariant]
    spec fn weighed(self) -> bool {
        self.weight == weight_of(self.phrase@)
    }

    /// The candidate for `phrase`.
    pub fn new(phrase: String) -> (candidate: Candidate)
        ensures
            candidate@ == phrase@,
    {
        let weight = character_weight(phrase.as_str());
        Candidate { phrase, weight }
    }

    /// The phrase.
    pub fn phrase(&self) -> (phrase: &String)
        ensures
            phrase@ == self@,
    {
        &self.phrase
    }

    /// The character weight of the phrase.
    pub fn weight(&self) -> (weight: usize)
        ensures
            weight == weight_of(self@),
    {
        proof {
            use_type_invariant(self);
        }
        self.weight
    }

    /// The phrase and its weight, as the result list holds them.
    pub fn into_entry(self) -> (entry: (String, usize))
        ensures
            entry.0@ == self@,
            entry.1 == weight_of(self@),
    {
        proof {
            use_type_invariant(&self);
        }
        (self.phrase, self.weight)
    }
}

/// Screens what the encoder answered for one block: a rejected block gives
/// nothing, and so does a phrase whose weight is at or above `threshold`;
/// any other phrase becomes a candidate.
pub fn screen(encoded: Option<String>, threshold: usize) -> (candidate: Option<Candidate>)
    ensures
        match candidate {
            Some(c) => screened(
                match encoded {
                    Some(p) => Some(p@),
                    None => None,
                },
                threshold as nat,
            ) == Some(c@),
            None => screened(
                match encoded {
                    Some(p) => Some(p@),
                    None => None,
                },
                threshold as nat,
            ) is None,
        },
{
    match encoded {
        Some(phrase) => {
            let candidate = Candidate::new(phrase);
            if candidate.weight() < threshold {
                Some(candidate)
            } else {
                None
            }
        },
        None => None,
    }
}

} // verus!
