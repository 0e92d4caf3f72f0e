use vstd::prelude::*;
use crate::tables::{
    lookup_pair, lookup_single, pair_weight, single_weight, MAX_SCAN_LENGTH, MAX_WEIGHT,
};

verus! {

/// The weight that position `i` of a token contributes. The two-character
/// symbol that starts at `i` is tried first; only where the table does not
/// hold it (or the token ends at `i`) the single character is looked up. A
/// position with no symbol contributes nothing.
pub open spec fn weight_at(token: Seq<char>, i: int) -> nat
    recommends
        0 <= i < token.len(),
{
    if i + 1 < token.len() && pair_weight(token[i], token[i + 1]) is Some {
        pair_weight(token[i], token[i + 1])->0
    } else if single_weight(token[i]) is Some {
        single_weight(token[i])->0
    } else {
        0
    }
}

/// The sum of the weights of the first `n` positions of a token. Every
/// position is counted on its own: a character that ends a two-character
/// symbol is looked up again at its own position.
pub open spec fn weight_prefix(token: Seq<char>, n: nat) -> nat
    recommends
        n <= token.len(),
    decreases n,
{
    if n == 0 {
        0
    } else {
        weight_prefix(token, (n - 1) as nat) + weight_at(token, n - 1)
    }
}

/// The weight total of a token: the sum over all its positions.
pub open spec fn weight_sum(token: Seq<char>) -> nat {
    weight_prefix(token, token.len())
}

/// No position contributes more than the largest weight of the table.
pub proof fn lemma_weight_at_bounded(token: Seq<char>, i: int)
    requires
        0 <= i < token.len(),
    ensures
        weight_at(token, i) <= MAX_WEIGHT,
{
}

/// The first `n` positions together contribute at most `n` times the
/// largest weight.
pub proof fn lemma_weight_prefix_bounded(token: Seq<char>, n: nat)
    requires
        n <= token.len(),
    ensures
        weight_prefix(token, n) <= n * MAX_WEIGHT,
    decreases n,
{
    if n > 0 {
        lemma_weight_prefix_bounded(token, (n - 1) as nat);
        lemma_weight_at_bounded(token, n - 1);
        assert(weight_prefix(token, n) <= (n - 1) * MAX_WEIGHT + MAX_WEIGHT);
        assert((n - 1) * MAX_WEIGHT + MAX_WEIGHT == n * MAX_WEIGHT) by (nonlinear_arith);
    }
}

/// The weight that position `i` of the token contributes.
pub fn position_weight(token: &[char], i: usize) -> (weight: u8)
    requires
        i < token@.len(),
    ensures
        weight as nat == weight_at(token@, i as int),
        weight <= MAX_WEIGHT,
{
    if i < token.len() - 1 {
        match lookup_pair(token[i], token[i + 1]) {
            Some(w) => {
                return w;
            },
            None => {},
        }
    }
    match lookup_single(token[i]) {
        Some(w) => w,
        None => 0,
    }
}

/// The weight total of the token.
pub fn weight_total(token: &[char]) -> (total: u32)
    requires
        token@.len() <= MAX_SCAN_LENGTH,
    ensures
        total as nat == weight_sum(token@),
        total <= token@.len() * MAX_WEIGHT,
{
    let mut total: u32 = 0;
    let mut i: usize = 0;
    while i < token.len()
        invariant
            i <= token@.len() <= MAX_SCAN_LENGTH,
            total as nat == weight_prefix(token@, i as nat),
            total <= i * MAX_WEIGHT,
        decreases token@.len() - i,
    {
        let w: u8 = position_weight(token, i);
        assert(i * MAX_WEIGHT + MAX_WEIGHT == (i + 1) * MAX_WEIGHT) by (nonlinear_arith);
        assert((i + 1) * MAX_WEIGHT <= 65535 * 118) by (nonlinear_arith)
            requires
                i + 1 <= 65535,
                MAX_WEIGHT == 118,
        ;
        total = total + w as u32;
        i = i + 1;
    }
    total
}

} // verus!
