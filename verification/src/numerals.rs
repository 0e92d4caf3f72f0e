use vstd::prelude::*;
use crate::error::ValidationError;
use crate::tables::{lookup_numeral, numeral_value, MAX_SCAN_LENGTH, NUMERAL_CEILING};

verus! {

/// One entry of a numeral run: the numeral symbols that were merged into it,
/// in the order in which they were read, and the sum of their values.
#[derive(Debug)]
pub struct RunEntry {
    pub symbols: Vec<char>,
    pub value: u32,
}

impl View for RunEntry {
    type V = (Seq<char>, nat);

    open spec fn view(&self) -> (Seq<char>, nat) {
        (self.symbols@, self.value as nat)
    }
}

/// The entries of a run as pairs of symbols and value.
pub open spec fn run_view(run: Seq<RunEntry>) -> Seq<(Seq<char>, nat)> {
    Seq::new(run.len(), |k: int| run[k]@)
}

/// The sum of the numeral values of a string of symbols.
pub open spec fn symbols_value(symbols: Seq<char>) -> nat
    decreases symbols.len(),
{
    if symbols.len() == 0 {
        0
    } else {
        symbols_value(symbols.drop_last()) + match numeral_value(symbols.last()) {
            Some(v) => v,
            None => 0,
        }
    }
}

/// What holds of every entry that a scan builds: it has at least one symbol,
/// all its symbols are numerals, no symbol is worth more than the one before
/// it, and its value is the sum of theirs.
pub open spec fn entry_wf(entry: (Seq<char>, nat)) -> bool {
    &&& entry.0.len() >= 1
    &&& forall|k: int| 0 <= k < entry.0.len() ==> (#[trigger] numeral_value(entry.0[k])) is Some
    &&& forall|k: int|
        0 < k < entry.0.len() ==> (#[trigger] numeral_value(entry.0[k]))->0 <= numeral_value(
            entry.0[k - 1],
        )->0
    &&& entry.1 == symbols_value(entry.0)
}

/// Every entry of the run is well formed.
pub open spec fn run_wf(run: Seq<(Seq<char>, nat)>) -> bool {
    forall|k: int| 0 <= k < run.len() ==> entry_wf(#[trigger] run[k])
}

/// Position `i` holds a numeral symbol that is worth more than the ceiling.
pub open spec fn large_numeral_at(token: Seq<char>, i: int) -> bool {
    &&& 0 <= i < token.len()
    &&& numeral_value(token[i]) is Some
    &&& numeral_value(token[i])->0 > NUMERAL_CEILING
}

/// Some numeral symbol of the token is worth more than the ceiling.
pub open spec fn has_large_numeral(token: Seq<char>) -> bool {
    exists|i: int| large_numeral_at(token, i)
}

/// The numeral at position `i` joins the entry of the numeral before it: the
/// character before it is a numeral too, and is worth at least as much.
pub open spec fn merges_at(token: Seq<char>, i: int) -> bool {
    &&& 0 < i < token.len()
    &&& numeral_value(token[i]) is Some
    &&& numeral_value(token[i - 1]) is Some
    &&& numeral_value(token[i])->0 <= numeral_value(token[i - 1])->0
}

/// The numeral run of the first `n` characters of a token. A numeral either
/// joins the last entry (see `merges_at`) or opens a new one; any other
/// character leaves the run as it is, and the numeral after it opens a new
/// entry.
pub open spec fn numeral_run(token: Seq<char>, n: nat) -> Seq<(Seq<char>, nat)>
    recommends
        n <= token.len(),
    decreases n,
{
    if n == 0 {
        Seq::empty()
    } else {
        let before = numeral_run(token, (n - 1) as nat);
        let c = token[n - 1];
        match numeral_value(c) {
            None => before,
            Some(v) => if merges_at(token, n - 1) {
                before.drop_last().push((before.last().0.push(c), before.last().1 + v))
            } else {
                before.push((seq![c], v))
            },
        }
    }
}

/// The product of the values of a run's entries; 1 for the empty run.
pub open spec fn run_product(run: Seq<(Seq<char>, nat)>) -> nat
    decreases run.len(),
{
    if run.len() == 0 {
        1
    } else {
        run_product(run.drop_last()) * run.last().1
    }
}

/// The numeral product of a token: the product over its whole numeral run.
pub open spec fn numeral_product(token: Seq<char>) -> nat {
    run_product(numeral_run(token, token.len()))
}

/// A string of numerals is worth at least its length.
pub proof fn lemma_symbols_value_lower(symbols: Seq<char>)
    requires
        forall|k: int| 0 <= k < symbols.len() ==> (#[trigger] numeral_value(symbols[k])) is Some,
    ensures
        symbols_value(symbols) >= symbols.len(),
    decreases symbols.len(),
{
    if symbols.len() > 0 {
        let front = symbols.drop_last();
        assert forall|k: int| 0 <= k < front.len() implies (#[trigger] numeral_value(
            front[k],
        )) is Some by {
            assert(front[k] == symbols[k]);
        }
        lemma_symbols_value_lower(front);
        assert(numeral_value(symbols[symbols.len() - 1]) is Some);
    }
}

/// A well formed entry is worth at least 1.
pub proof fn lemma_entry_positive(entry: (Seq<char>, nat))
    requires
        entry_wf(entry),
    ensures
        entry.1 >= 1,
{
    lemma_symbols_value_lower(entry.0);
}

/// The run that a scan builds is well formed. Where the last character read
/// is a numeral, the run is not empty and its last entry ends with that
/// character.
pub proof fn lemma_numeral_run_wf(token: Seq<char>, n: nat)
    requires
        n <= token.len(),
    ensures
        run_wf(numeral_run(token, n)),
        n > 0 && numeral_value(token[n - 1]) is Some ==> numeral_run(token, n).len() > 0
            && numeral_run(token, n).last().0.len() > 0 && numeral_run(token, n).last().0.last()
            == token[n - 1],
    decreases n,
{
    if n > 0 {
        let before = numeral_run(token, (n - 1) as nat);
        let after = numeral_run(token, n);
        let c = token[n - 1];
        lemma_numeral_run_wf(token, (n - 1) as nat);
        match numeral_value(c) {
            None => {},
            Some(v) => {
                if merges_at(token, n - 1) {
                    let last = before.last();
                    let merged = (last.0.push(c), last.1 + v);
                    assert(after == before.drop_last().push(merged));
                    assert(merged.0.drop_last() =~= last.0);
                    assert(entry_wf(merged)) by {
                        assert forall|k: int| 0 <= k < merged.0.len() implies (
                        #[trigger] numeral_value(merged.0[k])) is Some by {
                            if k < last.0.len() {
                                assert(merged.0[k] == last.0[k]);
                            }
                        }
                        assert forall|k: int| 0 < k < merged.0.len() implies (
                        #[trigger] numeral_value(merged.0[k]))->0 <= numeral_value(
                            merged.0[k - 1],
                        )->0 by {
                            if k < last.0.len() {
                                assert(merged.0[k] == last.0[k]);
                                assert(merged.0[k - 1] == last.0[k - 1]);
                            } else {
                                assert(merged.0[k - 1] == last.0.last());
                            }
                        }
                    }
                    assert forall|k: int| 0 <= k < after.len() implies entry_wf(
                        #[trigger] after[k],
                    ) by {
                        if k < after.len() - 1 {
                            assert(after[k] == before[k]);
                        }
                    }
                } else {
                    let opened = (seq![c], v);
                    assert(after == before.push(opened));
                    assert(opened.0.drop_last() =~= Seq::<char>::empty());
                    assert(symbols_value(opened.0) == v) by {
                        assert(symbols_value(opened.0.drop_last()) == 0);
                    }
                    assert(entry_wf(opened));
                    assert forall|k: int| 0 <= k < after.len() implies entry_wf(
                        #[trigger] after[k],
                    ) by {
                        if k < after.len() - 1 {
                            assert(after[k] == before[k]);
                        }
                    }
                }
            },
        }
    }
}

/// A longer prefix of a well formed run has at least the product of a
/// shorter one.
pub proof fn lemma_prefix_product_monotone(run: Seq<(Seq<char>, nat)>, k: nat)
    requires
        run_wf(run),
        k <= run.len(),
    ensures
        1 <= run_product(run.take(k as int)) <= run_product(run),
    decreases run.len(),
{
    if run.len() == 0 {
        assert(run.take(0) =~= run);
    } else if k == run.len() {
        assert(run.take(k as int) =~= run);
        let front = run.drop_last();
        lemma_prefix_product_monotone(front, front.len());
        assert(front.take(front.len() as int) =~= front);
        lemma_entry_positive(run.last());
        assert(run_product(front) * run.last().1 >= 1) by (nonlinear_arith)
            requires
                run_product(front) >= 1,
                run.last().1 >= 1,
        ;
    } else {
        let front = run.drop_last();
        lemma_prefix_product_monotone(front, k);
        assert(front.take(k as int) =~= run.take(k as int));
        lemma_entry_positive(run.last());
        assert(run_product(front) * run.last().1 >= run_product(front)) by (nonlinear_arith)
            requires
                run.last().1 >= 1,
        ;
    }
}

/// The product of a well formed run is at least the value of each of its
/// entries.
pub proof fn lemma_product_covers_entry(run: Seq<(Seq<char>, nat)>, j: int)
    requires
        run_wf(run),
        0 <= j < run.len(),
    ensures
        run[j].1 <= run_product(run),
    decreases run.len(),
{
    let front = run.drop_last();
    lemma_entry_positive(run.last());
    lemma_prefix_product_monotone(front, front.len());
    assert(front.take(front.len() as int) =~= front);
    if j == run.len() - 1 {
        assert(run_product(front) * run.last().1 >= run.last().1) by (nonlinear_arith)
            requires
                run_product(front) >= 1,
        ;
    } else {
        lemma_product_covers_entry(front, j);
        assert(front[j] == run[j]);
        assert(run_product(front) * run.last().1 >= run_product(front)) by (nonlinear_arith)
            requires
                run.last().1 >= 1,
        ;
    }
}

/// The numeral product of a prefix is at least the value of each numeral
/// symbol in it.
pub proof fn lemma_product_covers_symbol(token: Seq<char>, n: nat, i: int)
    requires
        n <= token.len(),
        0 <= i < n,
        numeral_value(token[i]) is Some,
    ensures
        numeral_value(token[i])->0 <= run_product(numeral_run(token, n)),
    decreases n,
{
    let before = numeral_run(token, (n - 1) as nat);
    let after = numeral_run(token, n);
    lemma_numeral_run_wf(token, (n - 1) as nat);
    lemma_numeral_run_wf(token, n);
    lemma_prefix_product_monotone(before, before.len());
    assert(before.take(before.len() as int) =~= before);
    if i == n - 1 {
        let v = numeral_value(token[i])->0;
        lemma_product_covers_entry(after, after.len() - 1);
        if merges_at(token, n - 1) {
            assert(after.last().1 == before.last().1 + v);
        } else {
            assert(after.last().1 == v);
        }
    } else {
        lemma_product_covers_symbol(token, (n - 1) as nat, i);
        match numeral_value(token[n - 1]) {
            None => {},
            Some(v) => {
                if merges_at(token, n - 1) {
                    let front = before.drop_last();
                    assert(after.drop_last() =~= front);
                    assert(run_product(front) * (before.last().1 + v) >= run_product(front)
                        * before.last().1) by (nonlinear_arith);
                } else {
                    assert(after.drop_last() =~= before);
                    lemma_entry_positive(after.last());
                    assert(run_product(before) * after.last().1 >= run_product(before))
                        by (nonlinear_arith)
                        requires
                            after.last().1 >= 1,
                    ;
                }
            },
        }
    }
}

/// Scans the token from left to right and builds its numeral run. The scan
/// stops at the first numeral symbol that is worth more than the ceiling.
pub fn scan_numerals(token: &[char]) -> (result: Result<Vec<RunEntry>, ValidationError>)
    requires
        token@.len() <= MAX_SCAN_LENGTH,
    ensures
        result is Err <==> has_large_numeral(token@),
        result is Err ==> result->Err_0 == ValidationError::NumeralOverflow,
        result is Ok ==> run_view(result->Ok_0@) == numeral_run(token@, token@.len()),
        result is Ok ==> run_wf(run_view(result->Ok_0@)),
{
    let mut run: Vec<RunEntry> = Vec::new();
    let mut run_open: bool = false;
    let mut i: usize = 0;
    while i < token.len()
        invariant
            i <= token@.len() <= MAX_SCAN_LENGTH,
            forall|j: int| 0 <= j < i ==> !large_numeral_at(token@, j),
            run_view(run@) =~= numeral_run(token@, i as nat),
            run_open <==> i > 0 && numeral_value(token@[i - 1]) is Some,
            forall|k: int| 0 <= k < run@.len() ==> (#[trigger] run@[k]).value <= 10 * i,
        decreases token@.len() - i,
    {
        let c: char = token[i];
        proof {
            lemma_numeral_run_wf(token@, i as nat);
        }
        let ghost before = run_view(run@);
        match lookup_numeral(c) {
            Some(n) => {
                if n > NUMERAL_CEILING {
                    assert(large_numeral_at(token@, i as int));
                    return Err(ValidationError::NumeralOverflow);
                }
                let mut merge: bool = false;
                if run_open {
                    assert(before.len() > 0);
                    assert(before.last() == run@[run@.len() - 1]@);
                    let last_entry = &run[run.len() - 1];
                    let last_symbol: char = last_entry.symbols[last_entry.symbols.len() - 1];
                    assert(last_symbol == token@[i - 1]);
                    match lookup_numeral(last_symbol) {
                        Some(m) => {
                            merge = !(m < n);
                        },
                        None => {},
                    }
                }
                assert(merge <==> merges_at(token@, i as int));
                if merge {
                    let mut entry: RunEntry = run.pop().unwrap();
                    entry.symbols.push(c);
                    entry.value = entry.value + n as u32;
                    run.push(entry);
                    assert(run_view(run@) =~= before.drop_last().push(
                        (before.last().0.push(c), before.last().1 + n as nat),
                    ));
                } else {
                    let mut symbols: Vec<char> = Vec::new();
                    symbols.push(c);
                    run.push(RunEntry { symbols, value: n as u32 });
                    assert(symbols@ =~= seq![c]);
                    assert(run_view(run@) =~= before.push((seq![c], n as nat)));
                }
                run_open = true;
            },
            None => {
                run_open = false;
            },
        }
        i = i + 1;
    }
    proof {
        lemma_numeral_run_wf(token@, token@.len());
        assert forall|j: int| !large_numeral_at(token@, j) by {}
    }
    Ok(run)
}

/// The product of the values of the run's entries, or `None` where it does
/// not fit in 32 bits.
pub fn product_of_run(run: &Vec<RunEntry>) -> (product: Option<u32>)
    requires
        run_wf(run_view(run@)),
    ensures
        product is Some <==> run_product(run_view(run@)) <= u32::MAX,
        product is Some ==> product->0 as nat == run_product(run_view(run@)),
{
    let ghost model = run_view(run@);
    let mut product: u32 = 1;
    let mut k: usize = 0;
    while k < run.len()
        invariant
            k <= run@.len(),
            model == run_view(run@),
            run_wf(model),
            product as nat == run_product(model.take(k as int)),
        decreases run@.len() - k,
    {
        proof {
            lemma_prefix_product_monotone(model, (k + 1) as nat);
            assert(model.take(k + 1).drop_last() =~= model.take(k as int));
            assert(model.take(k + 1).last() == run@[k as int]@);
        }
        match product.checked_mul(run[k].value) {
            Some(next) => {
                product = next;
            },
            None => {
                return None;
            },
        }
        k = k + 1;
    }
    assert(model.take(k as int) =~= model);
    Some(product)
}

} // verus!
