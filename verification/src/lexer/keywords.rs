//! The reserved words of the language.

use vstd::prelude::*;
use vstd::string::StringExecFns;
use crate::lexer::token::keyword_token_type;

verus! {

broadcast use vstd::string::group_string_axioms;

/// The reserved words, in the order the vocabulary lists them.
pub open spec fn keyword_words() -> Seq<Seq<char>> {
    seq![
        seq!['v', 'a', 'r'],
        seq!['t', 'r', 'u', 'e'],
        seq!['f', 'a', 'l', 's', 'e'],
        seq!['i', 'f'],
        seq!['e', 'l', 's', 'e'],
        seq!['b', 'r', 'e', 'a', 'k'],
        seq!['l', 'o', 'o', 'p'],
        seq!['f', 'n'],
        seq!['a', 'n', 'd'],
        seq!['o', 'r'],
        seq!['r', 'e', 't', 'u', 'r', 'n'],
    ]
}

/// A word is reserved exactly when it names a keyword token type.
pub open spec fn is_keyword(word: Seq<char>) -> bool {
    keyword_token_type(word) is Some
}

/// The vocabulary lists exactly the words that have a keyword token type.
pub proof fn lemma_keyword_words(word: Seq<char>)
    ensures
        keyword_words().contains(word) <==> is_keyword(word),
{
    let ws = keyword_words();
    if is_keyword(word) {
        if word == seq!['v', 'a', 'r'] { assert(ws[0] == word); }
        else if word == seq!['t', 'r', 'u', 'e'] { assert(ws[1] == word); }
        else if word == seq!['f', 'a', 'l', 's', 'e'] { assert(ws[2] == word); }
        else if word == seq!['i', 'f'] { assert(ws[3] == word); }
        else if word == seq!['e', 'l', 's', 'e'] { assert(ws[4] == word); }
        else if word == seq!['b', 'r', 'e', 'a', 'k'] { assert(ws[5] == word); }
        else if word == seq!['l', 'o', 'o', 'p'] { assert(ws[6] == word); }
        else if word == seq!['f', 'n'] { assert(ws[7] == word); }
        else if word == seq!['a', 'n', 'd'] { assert(ws[8] == word); }
        else if word == seq!['o', 'r'] { assert(ws[9] == word); }
        else { assert(ws[10] == word); }
    }
    if ws.contains(word) {
        let i = choose|i: int| 0 <= i < ws.len() && ws[i] == word;
        assert(0 <= i < 11);
    }
}

/// A collection of reserved keywords in the language.
///
/// Used by the lexer to distinguish between general identifiers and structural keywords.
pub struct Keywords {
    vocabulary: Vec<String>,
}

impl Keywords {
    #[verifier::type_invariant]
    spec fn lists_keywords(&self) -> bool {
        &&& self.vocabulary@.len() == keyword_words().len()
        &&& forall|i: int|
            0 <= i < keyword_words().len() ==> #[trigger] self.vocabulary@[i]@ == keyword_words()[i]
    }

    /// The reserved words held, in order.
    pub closed spec fn words(&self) -> Seq<Seq<char>> {
        self.vocabulary@.map_values(|w: String| w@)
    }

    /// Creates a new `Keywords` dictionary initialized with all supported reserved keywords.
    pub fn new() -> (r: Self)
        ensures
            r.words() == keyword_words(),
    {
        proof {
            reveal_strlit("var");
            reveal_strlit("true");
            reveal_strlit("false");
            reveal_strlit("if");
            reveal_strlit("else");
            reveal_strlit("break");
            reveal_strlit("loop");
            reveal_strlit("fn");
            reveal_strlit("and");
            reveal_strlit("or");
            reveal_strlit("return");
        }
        let mut vocabulary: Vec<String> = Vec::new();
        vocabulary.push(String::from_str("var"));
        vocabulary.push(String::from_str("true"));
        vocabulary.push(String::from_str("false"));
        vocabulary.push(String::from_str("if"));
        vocabulary.push(String::from_str("else"));
        vocabulary.push(String::from_str("break"));
        vocabulary.push(String::from_str("loop"));
        vocabulary.push(String::from_str("fn"));
        vocabulary.push(String::from_str("and"));
        vocabulary.push(String::from_str("or"));
        vocabulary.push(String::from_str("return"));
        proof {
            let ws = keyword_words();
            assert(vocabulary@[0]@ =~= ws[0]);
            assert(vocabulary@[1]@ =~= ws[1]);
            assert(vocabulary@[2]@ =~= ws[2]);
            assert(vocabulary@[3]@ =~= ws[3]);
            assert(vocabulary@[4]@ =~= ws[4]);
            assert(vocabulary@[5]@ =~= ws[5]);
            assert(vocabulary@[6]@ =~= ws[6]);
            assert(vocabulary@[7]@ =~= ws[7]);
            assert(vocabulary@[8]@ =~= ws[8]);
            assert(vocabulary@[9]@ =~= ws[9]);
            assert(vocabulary@[10]@ =~= ws[10]);
            assert(vocabulary@.map_values(|w: String| w@) =~= ws);
        }
        Self { vocabulary }
    }

    /// Checks if a given word is a reserved keyword.
    pub fn has(&self, word: &str) -> (r: bool)
        ensures
            r == is_keyword(word@),
    {
        proof {
            use_type_invariant(self);
            lemma_keyword_words(word@);
        }
        let wanted = word.to_owned();
        let mut i: usize = 0;
        while i < self.vocabulary.len()
            invariant
                i <= self.vocabulary@.len() == keyword_words().len(),
                wanted@ == word@,
                forall|j: int|
                    0 <= j < keyword_words().len() ==> #[trigger] self.vocabulary@[j]@
                        == keyword_words()[j],
                forall|j: int| 0 <= j < i ==> keyword_words()[j] != word@,
            decreases self.vocabulary@.len() - i,
        {
            if self.vocabulary[i] == wanted {
                assert(keyword_words()[i as int] == word@);
                return true;
            }
            i = i + 1;
        }
        proof {
            assert(!keyword_words().contains(word@));
        }
        false
    }
}

} // verus!
