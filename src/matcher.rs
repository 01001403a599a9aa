use vstd::prelude::*;
use vstd::string::*;

verus! {

/// One divisor/word pairing: a number divisible by the divisor is substituted by the word.
///
/// The divisor is never zero, and a matcher does not change after construction.
#[derive(Debug)]
pub struct Matcher {
    number: usize,
    word: String,
}

/// All errors that constructing a `Matcher` can produce.
#[derive(Debug, PartialEq, Eq, Structural)]
#[non_exhaustive]
pub enum MatcherError {
    /// The divisor was 0, and no number can be divided by 0.
    NumberIsZero,
}

impl Matcher {
    #[verifier::type_invariant]
    spec fn divisor_nonzero(self) -> bool {
        self.number > 0
    }

    /// The divisor that a number is tested against.
    pub closed spec fn divisor(&self) -> nat {
        self.number as nat
    }

    /// The word that a matching number is substituted by.
    pub closed spec fn spec_word(&self) -> Seq<char> {
        self.word@
    }

    /// Whether `n` is substituted by this matcher's word.
    pub open spec fn spec_matches(&self, n: nat) -> bool {
        n % self.divisor() == 0
    }

    /// What this matcher contributes to the line of `n`: its word if `n` matches, else nothing.
    pub open spec fn spec_text(&self, n: nat) -> Seq<char> {
        if self.spec_matches(n) {
            self.spec_word()
        } else {
            Seq::empty()
        }
    }

    /// Creates a matcher that substitutes multiples of `number` by `word`.
    ///
    /// Fails with `MatcherError::NumberIsZero` exactly when `number` is 0.
    pub fn new(number: usize, word: &str) -> (r: Result<Matcher, MatcherError>)
        ensures
            number == 0 <==> r == Err::<Matcher, MatcherError>(MatcherError::NumberIsZero),
            number > 0 <==> r is Ok,
            r matches Ok(m) ==> m.divisor() == number && m.spec_word() == word@,
    {
        if number == 0 {
            return Err(MatcherError::NumberIsZero);
        }
        Ok(Matcher { number: number, word: word.to_owned() })
    }

    /// Checks whether `number` should be substituted, that is whether the divisor divides it.
    pub fn matches(&self, number: usize) -> (r: bool)
        ensures
            self.divisor() > 0,
            r == self.spec_matches(number as nat),
    {
        proof {
            use_type_invariant(self);
        }
        number % self.number == 0
    }

    /// The text that `number` is substituted by: the word if `number` matches, else "".
    pub fn text(&self, number: usize) -> (r: &str)
        ensures
            r@ == self.spec_text(number as nat),
    {
        if self.matches(number) {
            return self.word.as_str();
        }
        proof {
            reveal_strlit("");
        }
        ""
    }

    /// The divisor this matcher was created with.
    pub fn number(&self) -> (r: usize)
        ensures
            r as nat == self.divisor(),
    {
        self.number
    }

    /// The word this matcher was created with.
    pub fn word(&self) -> (r: &str)
        ensures
            r@ == self.spec_word(),
    {
        self.word.as_str()
    }
}

} // verus!
