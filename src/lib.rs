//! A configurable FizzBuzz: each number is replaced by the words of all matchers whose
//! divisor divides it, in the order of the matchers, or by its decimal digits when none does.
use vstd::prelude::*;

mod decimal;
mod matcher;

pub use decimal::{decimal_digits, decimal_string};
pub use matcher::{Matcher, MatcherError};

verus! {

/// The concatenation, in list order, of what each matcher contributes to the line of `n`.
pub open spec fn matched_words(n: nat, matchers: Seq<Matcher>) -> Seq<char>
    decreases matchers.len(),
{
    if matchers.len() == 0 {
        Seq::empty()
    } else {
        matched_words(n, matchers.drop_last()) + matchers.last().spec_text(n)
    }
}

/// The line for `n`: the matched words, or the decimal digits of `n` when no word was matched.
pub open spec fn spec_line(n: nat, matchers: Seq<Matcher>) -> Seq<char> {
    let words = matched_words(n, matchers);
    if words.len() == 0 {
        decimal_digits(n)
    } else {
        words
    }
}

/// All errors that a range run can produce.
#[derive(Debug, PartialEq, Eq, Structural)]
#[non_exhaustive]
pub enum FizzBuzzError {
    /// `from` is bigger than `to`, so the two do not bound a range.
    FromBiggerThanTo { from: usize, to: usize },
}

/// The line for `number`: the words of the matchers that match it, in the order of
/// `matchers`, or the decimal digits of `number` when none does.
pub fn line(number: usize, matchers: &Vec<Matcher>) -> (r: String)
    ensures
        r@ == spec_line(number as nat, matchers@),
{
    let mut out = String::new();
    let mut i: usize = 0;
    while i < matchers.len()
        invariant
            i <= matchers.len(),
            out@ == matched_words(number as nat, matchers@.subrange(0, i as int)),
        decreases matchers.len() - i,
    {
        let ghost before = out@;
        out.append(matchers[i].text(number));
        proof {
            let prefix = matchers@.subrange(0, i as int + 1);
            assert(prefix.drop_last() =~= matchers@.subrange(0, i as int));
            assert(prefix.last() == matchers@[i as int]);
        }
        i = i + 1;
    }
    assert(matchers@.subrange(0, matchers.len() as int) =~= matchers@);
    if out.as_str().is_empty() {
        out = decimal_string(number);
    }
    out
}

/// The lines for each number from `from` to `to`, both included, in ascending order.
///
/// Fails with `FizzBuzzError::FromBiggerThanTo` exactly when `from > to`, and then
/// renders nothing.
pub fn fizzbuzz_lines(from: usize, to: usize, matchers: &Vec<Matcher>) -> (r: Result<
    Vec<String>,
    FizzBuzzError,
>)
    ensures
        from > to ==> r == Err::<Vec<String>, FizzBuzzError>(
            (FizzBuzzError::FromBiggerThanTo { from: from, to: to }),
        ),
        from <= to ==> r is Ok,
        r matches Ok(lines) ==> {
            &&& lines.len() == to - from + 1
            &&& forall|k: int|
                0 <= k < lines.len() ==> #[trigger] lines[k]@ == spec_line(
                    (from + k) as nat,
                    matchers@,
                )
        },
{
    if from > to {
        return Err(FizzBuzzError::FromBiggerThanTo { from, to });
    }
    let mut lines: Vec<String> = Vec::new();
    lines.push(line(from, matchers));
    let mut i: usize = from;
    while i < to
        invariant
            from <= i <= to,
            lines.len() == i - from + 1,
            forall|k: int|
                0 <= k < lines.len() ==> #[trigger] lines[k]@ == spec_line(
                    (from + k) as nat,
                    matchers@,
                ),
        decreases to - i,
    {
        i = i + 1;
        lines.push(line(i, matchers));
    }
    Ok(lines)
}

/// A matcher whose divisor is 1 matches every number.
pub proof fn lemma_divisor_one_matches_all(m: Matcher, n: nat)
    requires
        m.divisor() == 1,
    ensures
        m.spec_matches(n),
{
}

/// With no matchers, the line of every number is its decimal digits.
pub proof fn lemma_no_matchers_gives_digits(n: nat)
    ensures
        spec_line(n, Seq::empty()) == decimal_digits(n),
{
}

/// The words matched by a list of matchers are those matched by its first part followed by
/// those matched by the rest: list order is concatenation order.
pub proof fn lemma_words_follow_list_order(n: nat, first: Seq<Matcher>, rest: Seq<Matcher>)
    ensures
        matched_words(n, first + rest) == matched_words(n, first) + matched_words(n, rest),
    decreases rest.len(),
{
    if rest.len() == 0 {
        assert(first + rest =~= first);
        assert(matched_words(n, first) + matched_words(n, rest) =~= matched_words(n, first));
    } else {
        lemma_words_follow_list_order(n, first, rest.drop_last());
        assert((first + rest).drop_last() =~= first + rest.drop_last());
        assert((first + rest).last() == rest.last());
        assert(matched_words(n, first + rest) =~= matched_words(n, first) + matched_words(n, rest));
    }
}

} // verus!
