use vstd::prelude::*;
use crate::error::ValidationError;
use crate::numerals::{
    has_large_numeral, large_numeral_at, lemma_numeral_run_wf, lemma_product_covers_entry,
    lemma_product_covers_symbol, numeral_product, numeral_run, product_of_run, scan_numerals,
};
use crate::tables::NUMERAL_CEILING;
use crate::text::to_chars;
use crate::weights::{lemma_weight_prefix_bounded, weight_sum, weight_total};

verus! {

/// The number of characters of a token that can pass.
pub const TOKEN_LENGTH: usize = 11;

/// The largest adjusted weight total that passes.
pub const WEIGHT_CEILING: u8 = 200;

/// With a numeral product of 1, the weight total from which on the token
/// has the special format.
pub const SPECIAL_FORMAT_FLOOR: u8 = 49;

/// The special cases by numeral product: whether the token has the special
/// format, and its weight total after the adjustment. `None` where the
/// product is none of the recognised values.
pub open spec fn adjustment(product: nat, weight: nat) -> Option<(bool, nat)> {
    if product == 35 {
        Some((false, weight))
    } else if product == 7 {
        Some((false, weight + 23))
    } else if product == 5 {
        Some((false, weight + 129))
    } else if product == 1 {
        if weight < SPECIAL_FORMAT_FLOOR {
            Some((false, weight + 152))
        } else {
            Some((true, weight + 23))
        }
    } else {
        None
    }
}

/// The outcome for a numeral product and a weight total: the adjustment
/// first, then the ceiling on the adjusted total.
pub open spec fn decision(product: nat, weight: nat) -> Result<(bool, u8), ValidationError> {
    match adjustment(product, weight) {
        None => Err(ValidationError::NumeralOverflow),
        Some((special, total)) => if total > WEIGHT_CEILING {
            Err(ValidationError::WeightOverflow)
        } else {
            Ok((special, total as u8))
        },
    }
}

/// The outcome of validating a token.
pub open spec fn outcome_of(token: Seq<char>) -> Result<(bool, u8), ValidationError> {
    if token.len() != TOKEN_LENGTH {
        Err(ValidationError::InvalidLength)
    } else if has_large_numeral(token) {
        Err(ValidationError::NumeralOverflow)
    } else {
        decision(numeral_product(token), weight_sum(token))
    }
}

/// Applies the special cases and the ceiling to a numeral product and a
/// weight total.
pub fn decide(product: u32, weight: u32) -> (result: Result<(bool, u8), ValidationError>)
    ensures
        result == decision(product as nat, weight as nat),
{
    let mut special: bool = false;
    let base: u64 = weight as u64;
    let total: u64 = if product == 35 {
        base
    } else if product == 7 {
        base + 23
    } else if product == 5 {
        base + 129
    } else if product == 1 {
        if base < SPECIAL_FORMAT_FLOOR as u64 {
            base + 152
        } else {
            special = true;
            base + 23
        }
    } else {
        return Err(ValidationError::NumeralOverflow);
    };
    if total > WEIGHT_CEILING as u64 {
        return Err(ValidationError::WeightOverflow);
    }
    Ok((special, total as u8))
}

/// Validates a token given as its characters.
pub fn validate_chars(token: &[char]) -> (result: Result<(bool, u8), ValidationError>)
    ensures
        result == outcome_of(token@),
{
    if token.len() != TOKEN_LENGTH {
        return Err(ValidationError::InvalidLength);
    }
    let run = match scan_numerals(token) {
        Ok(run) => run,
        Err(e) => {
            return Err(e);
        },
    };
    let weight: u32 = weight_total(token);
    match product_of_run(&run) {
        Some(product) => decide(product, weight),
        None => Err(ValidationError::NumeralOverflow),
    }
}

/// Validates a token: `Ok` with the special-format flag and the final score
/// where it passes, else the reason why it does not. The result depends on
/// the token's characters alone.
pub fn validate(token: &str) -> (result: Result<(bool, u8), ValidationError>)
    ensures
        result == outcome_of(token@),
{
    let chars: Vec<char> = to_chars(token);
    validate_chars(chars.as_slice())
}

/// A token that is not exactly eleven characters long is refused for its
/// length, whatever it holds.
pub proof fn lemma_wrong_length_is_refused(token: Seq<char>)
    requires
        token.len() != TOKEN_LENGTH,
    ensures
        outcome_of(token) == Err::<(bool, u8), ValidationError>(ValidationError::InvalidLength),
{
}

/// Two tokens that hold the same characters have the same outcome.
pub proof fn lemma_outcome_is_deterministic(first: Seq<char>, second: Seq<char>)
    requires
        first.len() == second.len(),
        forall|i: int| 0 <= i < first.len() ==> first[i] == second[i],
    ensures
        outcome_of(first) == outcome_of(second),
{
    assert(first =~= second);
}

/// A token of the right length with a numeral symbol that is worth more
/// than the ceiling is refused with `NumeralOverflow`.
pub proof fn lemma_large_symbol_is_refused(token: Seq<char>, i: int)
    requires
        token.len() == TOKEN_LENGTH,
        large_numeral_at(token, i),
    ensures
        outcome_of(token) == Err::<(bool, u8), ValidationError>(ValidationError::NumeralOverflow),
{
}

/// A token of the right length whose numeral run has an entry that is worth
/// more than the ceiling is refused with `NumeralOverflow`, whatever its
/// weights are.
pub proof fn lemma_large_entry_is_refused(token: Seq<char>, j: int)
    requires
        token.len() == TOKEN_LENGTH,
        0 <= j < numeral_run(token, token.len()).len(),
        numeral_run(token, token.len())[j].1 > NUMERAL_CEILING,
    ensures
        outcome_of(token) == Err::<(bool, u8), ValidationError>(ValidationError::NumeralOverflow),
{
    lemma_numeral_run_wf(token, token.len());
    lemma_product_covers_entry(numeral_run(token, token.len()), j);
}

/// With a numeral product of 1, a weight total of at least 49 sets the
/// special-format flag and adds 23; a smaller one adds 152 and leaves the
/// flag unset.
pub proof fn lemma_unit_product_adjustment(weight: nat)
    ensures
        weight >= 49 ==> adjustment(1, weight) == Some((true, weight + 23)),
        weight < 49 ==> adjustment(1, weight) == Some((false, weight + 152)),
{
}

/// The ceiling on single symbols refuses nothing that the numeral product
/// would let through: a token with a symbol above the ceiling has a numeral
/// product above it too. So the outcome of a token of the right length is
/// decided by its numeral product and its weight total alone.
pub proof fn lemma_outcome_by_product(token: Seq<char>)
    requires
        token.len() == TOKEN_LENGTH,
    ensures
        has_large_numeral(token) ==> numeral_product(token) > NUMERAL_CEILING,
        outcome_of(token) == decision(numeral_product(token), weight_sum(token)),
{
    if has_large_numeral(token) {
        let i = choose|i: int| large_numeral_at(token, i);
        lemma_product_covers_symbol(token, token.len(), i);
    }
}

/// A token of the right length whose numeral product is 1: with a weight
/// total below 49 it passes without the special format and with 152 added;
/// from 49 on it has the special format and 23 added, and passes unless
/// that is more than 200.
pub proof fn lemma_unit_product_outcome(token: Seq<char>)
    requires
        token.len() == TOKEN_LENGTH,
        numeral_product(token) == 1,
    ensures
        weight_sum(token) < 49 ==> outcome_of(token) == Ok::<(bool, u8), ValidationError>(
            (false, (weight_sum(token) + 152) as u8),
        ),
        49 <= weight_sum(token) <= 177 ==> outcome_of(token) == Ok::<(bool, u8), ValidationError>(
            (true, (weight_sum(token) + 23) as u8),
        ),
        weight_sum(token) > 177 ==> outcome_of(token) == Err::<(bool, u8), ValidationError>(
            ValidationError::WeightOverflow,
        ),
{
    lemma_outcome_by_product(token);
}

/// A token that the numeral rules let through passes if and only if its
/// adjusted weight total is at most 200; above that it is refused with
/// `WeightOverflow`.
pub proof fn lemma_weight_ceiling(token: Seq<char>)
    requires
        token.len() == TOKEN_LENGTH,
        !has_large_numeral(token),
        adjustment(numeral_product(token), weight_sum(token)) is Some,
    ensures
        ({
            let (special, total) = adjustment(numeral_product(token), weight_sum(token))->0;
            &&& total > 200 ==> outcome_of(token) == Err::<(bool, u8), ValidationError>(
                ValidationError::WeightOverflow,
            )
            &&& total <= 200 ==> outcome_of(token) == Ok::<(bool, u8), ValidationError>(
                (special, total as u8),
            )
        }),
{
}

/// The score of a token that passes is at most 200, and the weight total of
/// a token of the right length is at most eleven times the largest weight.
pub proof fn lemma_score_bounded(token: Seq<char>)
    ensures
        outcome_of(token) is Ok ==> outcome_of(token)->Ok_0.1 <= WEIGHT_CEILING,
        token.len() == TOKEN_LENGTH ==> weight_sum(token) <= 1298,
{
    if token.len() == TOKEN_LENGTH {
        lemma_weight_prefix_bounded(token, token.len());
    }
}

} // verus!
