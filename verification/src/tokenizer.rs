//! The tokenizer abstraction and the filter that every tokenizer applies.

use vstd::prelude::*;
use crate::text::{texts, to_chars};

verus! {

/// Turns the text of one caption into its significant terms, or says
/// why it cannot.
pub trait Tokenizer {
    fn tokenize(&self, src: String) -> Result<Vec<String>, String>;
}

/// The tokens of `tokens` that are not a single character, in order.
pub open spec fn significant(tokens: Seq<Seq<char>>) -> Seq<Seq<char>>
    decreases tokens.len(),
{
    if tokens.len() == 0 {
        Seq::empty()
    } else if tokens.last().len() == 1 {
        significant(tokens.drop_last())
    } else {
        significant(tokens.drop_last()).push(tokens.last())
    }
}

/// Drops the tokens that are a single character.
pub fn drop_single_characters(tokens: Vec<String>) -> (kept: Vec<String>)
    ensures
        texts(kept@) == significant(texts(tokens@)),
{
    let mut kept: Vec<String> = Vec::new();
    let mut i: usize = 0;
    proof {
        assert(texts(tokens@).take(0) =~= Seq::<Seq<char>>::empty());
        assert(texts(kept@) =~= Seq::<Seq<char>>::empty());
    }
    while i < tokens.len()
        invariant
            i <= tokens.len(),
            texts(kept@) == significant(texts(tokens@).take(i as int)),
        decreases tokens.len() - i,
    {
        let ghost before = texts(kept@);
        let ghost prefix = texts(tokens@).take(i + 1);
        proof {
            assert(prefix.drop_last() =~= texts(tokens@).take(i as int));
            assert(prefix.last() == tokens@[i as int]@);
        }
        let chars = to_chars(tokens[i].as_str());
        if chars.len() != 1 {
            let token = tokens[i].clone();
            kept.push(token);
            proof {
                assert(texts(kept@) =~= before.push(tokens@[i as int]@));
            }
        }
        i += 1;
    }
    proof {
        assert(texts(tokens@).take(tokens.len() as int) =~= texts(tokens@));
    }
    kept
}

} // verus!
