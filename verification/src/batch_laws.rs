use vstd::prelude::*;
use vstd::multiset::Multiset;
use vstd::seq_lib::{to_multiset_build, to_multiset_contains, to_multiset_len, to_multiset_remove};
use crate::batch::{accepted_urls, batch_result, report_of, reports_of, short_url, success_count};
use crate::normalize::normalized;
use crate::validator::outcome_of;
use crate::error::ValidationError;

verus! {

/// What one report adds to the result of a batch: its address where it
/// carries a success, nothing where it does not.
pub open spec fn contribution(
    report: (Seq<char>, Result<(bool, u8), ValidationError>),
) -> Multiset<Seq<char>> {
    if report.1 is Ok {
        Multiset::singleton(short_url(report.0))
    } else {
        Multiset::empty()
    }
}

/// A batch without tokens returns nothing.
pub proof fn lemma_empty_batch()
    ensures
        batch_result(Seq::<Seq<char>>::empty()) == Seq::<Seq<char>>::empty(),
        accepted_urls(Seq::<(Seq<char>, Result<(bool, u8), ValidationError>)>::empty())
            == Seq::<Seq<char>>::empty(),
{
    assert(reports_of(Seq::<Seq<char>>::empty()) =~= Seq::empty());
}

/// The address is that of one of the reports that carry a success.
pub open spec fn comes_from_success(
    reports: Seq<(Seq<char>, Result<(bool, u8), ValidationError>)>,
    url: Seq<char>,
) -> bool {
    exists|j: int|
        0 <= j < reports.len() && (#[trigger] reports[j]).1 is Ok && url == short_url(reports[j].0)
}

/// A batch returns as many addresses as it has successes, and every one of
/// them is the short address of a token that passed.
pub proof fn lemma_batch_holds_the_successes(
    reports: Seq<(Seq<char>, Result<(bool, u8), ValidationError>)>,
)
    ensures
        accepted_urls(reports).len() == success_count(reports),
        success_count(reports) <= reports.len(),
        forall|k: int|
            0 <= k < accepted_urls(reports).len() ==> comes_from_success(
                reports,
                #[trigger] accepted_urls(reports)[k],
            ),
    decreases reports.len(),
{
    if reports.len() > 0 {
        let front = reports.drop_last();
        lemma_batch_holds_the_successes(front);
        assert forall|k: int| 0 <= k < accepted_urls(reports).len() implies comes_from_success(
            reports,
            #[trigger] accepted_urls(reports)[k],
        ) by {
            if k < accepted_urls(front).len() {
                assert(accepted_urls(reports)[k] == accepted_urls(front)[k]);
                assert(comes_from_success(front, accepted_urls(front)[k]));
                let j = choose|j: int|
                    0 <= j < front.len() && (#[trigger] front[j]).1 is Ok && accepted_urls(
                        front,
                    )[k] == short_url(front[j].0);
                assert(reports[j] == front[j]);
            } else {
                let j = reports.len() - 1;
                assert(reports[j].1 is Ok);
                assert(accepted_urls(reports)[k] == short_url(reports[j].0));
            }
        }
    }
}

/// The raw token passes once it is normalized.
pub open spec fn passes(raw: Seq<char>) -> bool {
    outcome_of(normalized(raw)) is Ok
}

/// The number of raw tokens that pass.
pub open spec fn passing_count(raw_tokens: Seq<Seq<char>>) -> nat
    decreases raw_tokens.len(),
{
    if raw_tokens.len() == 0 {
        0
    } else if passes(raw_tokens.last()) {
        passing_count(raw_tokens.drop_last()) + 1
    } else {
        passing_count(raw_tokens.drop_last())
    }
}

/// The address is `youtu.be/` followed by the normalized form of one of the
/// raw tokens that pass.
pub open spec fn is_address_of_passing_token(raw_tokens: Seq<Seq<char>>, url: Seq<char>) -> bool {
    exists|j: int|
        0 <= j < raw_tokens.len() && passes(#[trigger] raw_tokens[j]) && url == "youtu.be/"@
            + normalized(raw_tokens[j])
}

/// The number of successes among the reports of a batch is the number of
/// its raw tokens that pass.
pub proof fn lemma_successes_are_the_passing_tokens(raw_tokens: Seq<Seq<char>>)
    ensures
        success_count(reports_of(raw_tokens)) == passing_count(raw_tokens),
    decreases raw_tokens.len(),
{
    if raw_tokens.len() > 0 {
        lemma_successes_are_the_passing_tokens(raw_tokens.drop_last());
        assert(reports_of(raw_tokens).drop_last() =~= reports_of(raw_tokens.drop_last()));
        assert(reports_of(raw_tokens).last() == report_of(raw_tokens.last()));
    }
}

/// Of a batch of raw tokens of which a certain number pass, the result
/// holds exactly that number of addresses, and each of them is `youtu.be/`
/// followed by the normalized form of a token that passes.
pub proof fn lemma_batch_of_tokens(raw_tokens: Seq<Seq<char>>)
    ensures
        batch_result(raw_tokens).len() == passing_count(raw_tokens),
        passing_count(raw_tokens) <= raw_tokens.len(),
        forall|k: int|
            0 <= k < batch_result(raw_tokens).len() ==> is_address_of_passing_token(
                raw_tokens,
                #[trigger] batch_result(raw_tokens)[k],
            ),
{
    let reports = reports_of(raw_tokens);
    lemma_batch_holds_the_successes(reports);
    lemma_successes_are_the_passing_tokens(raw_tokens);
    assert forall|k: int| 0 <= k < batch_result(raw_tokens).len() implies is_address_of_passing_token(
        raw_tokens,
        #[trigger] batch_result(raw_tokens)[k],
    ) by {
        let url = accepted_urls(reports)[k];
        assert(comes_from_success(reports, url));
        let j = choose|j: int|
            0 <= j < reports.len() && (#[trigger] reports[j]).1 is Ok && url == short_url(
                reports[j].0,
            );
        assert(reports[j] == report_of(raw_tokens[j]));
        assert(passes(raw_tokens[j]));
    }
}

/// Every token of a batch that passes is in the result, and none that
/// fails: the result of all tokens holds a token's address if and only if
/// that token passed.
pub proof fn lemma_every_success_is_returned(raw_tokens: Seq<Seq<char>>, j: int)
    requires
        0 <= j < raw_tokens.len(),
        report_of(raw_tokens[j]).1 is Ok,
    ensures
        batch_result(raw_tokens).contains(short_url(report_of(raw_tokens[j]).0)),
{
    lemma_success_is_kept(reports_of(raw_tokens), j);
}

/// The address of every report that carries a success is among the
/// addresses gathered from the reports.
pub proof fn lemma_success_is_kept(
    reports: Seq<(Seq<char>, Result<(bool, u8), ValidationError>)>,
    j: int,
)
    requires
        0 <= j < reports.len(),
        reports[j].1 is Ok,
    ensures
        accepted_urls(reports).contains(short_url(reports[j].0)),
    decreases reports.len(),
{
    let front = reports.drop_last();
    let urls = accepted_urls(reports);
    if j == reports.len() - 1 {
        assert(urls[urls.len() - 1] == short_url(reports[j].0));
    } else {
        lemma_success_is_kept(front, j);
        let k = choose|k: int|
            0 <= k < accepted_urls(front).len() && accepted_urls(front)[k] == short_url(
                front[j].0,
            );
        assert(urls[k] == accepted_urls(front)[k]);
    }
}

/// Putting one more report anywhere among the others adds exactly what that
/// report contributes, and takes nothing away.
pub proof fn lemma_one_more_report(
    reports: Seq<(Seq<char>, Result<(bool, u8), ValidationError>)>,
    k: int,
    report: (Seq<char>, Result<(bool, u8), ValidationError>),
)
    requires
        0 <= k <= reports.len(),
    ensures
        accepted_urls(reports.insert(k, report)).to_multiset() == accepted_urls(
            reports,
        ).to_multiset().add(contribution(report)),
    decreases reports.len() - k,
{
    broadcast use vstd::multiset::group_multiset_axioms;

    let more = reports.insert(k, report);
    if k == reports.len() {
        assert(more.drop_last() =~= reports);
        assert(more.last() == report);
        if report.1 is Ok {
            to_multiset_build(accepted_urls(reports), short_url(report.0));
        }
        assert(accepted_urls(more).to_multiset() =~= accepted_urls(reports).to_multiset().add(
            contribution(report),
        ));
    } else {
        let front = reports.drop_last();
        assert(more.drop_last() =~= front.insert(k, report));
        assert(more.last() == reports.last());
        lemma_one_more_report(front, k, report);
        if reports.last().1 is Ok {
            to_multiset_build(accepted_urls(front), short_url(reports.last().0));
            to_multiset_build(accepted_urls(front.insert(k, report)), short_url(reports.last().0));
        }
        assert(accepted_urls(more).to_multiset() =~= accepted_urls(reports).to_multiset().add(
            contribution(report),
        ));
    }
}

/// Of two sequences with the same elements, the last element of the first
/// stands somewhere in the second, and what is left of both has the same
/// elements again.
proof fn lemma_take_one_out<A>(first: Seq<A>, second: Seq<A>) -> (k: int)
    requires
        first.len() > 0,
        first.to_multiset() == second.to_multiset(),
    ensures
        0 <= k < second.len(),
        second[k] == first.last(),
        first.drop_last().to_multiset() == second.remove(k).to_multiset(),
        second == second.remove(k).insert(k, first.last()),
{
    let x = first.last();
    assert(first.contains(x)) by {
        assert(first[first.len() - 1] == x);
    }
    to_multiset_contains(first, x);
    to_multiset_contains(second, x);
    let k = choose|k: int| 0 <= k < second.len() && second[k] == x;
    to_multiset_remove(second, k);
    to_multiset_remove(first, first.len() - 1);
    assert(first.remove(first.len() - 1) =~= first.drop_last());
    assert(second =~= second.remove(k).insert(k, x));
    k
}

/// The order in which the reports come in does not change what is
/// gathered from them: the same reports in another order give the same
/// addresses, each as often as before.
pub proof fn lemma_report_order_is_irrelevant(
    first: Seq<(Seq<char>, Result<(bool, u8), ValidationError>)>,
    second: Seq<(Seq<char>, Result<(bool, u8), ValidationError>)>,
)
    requires
        first.to_multiset() == second.to_multiset(),
    ensures
        accepted_urls(first).to_multiset() == accepted_urls(second).to_multiset(),
        accepted_urls(first).len() == accepted_urls(second).len(),
    decreases first.len(),
{
    to_multiset_len(first);
    to_multiset_len(second);
    if first.len() == 0 {
        assert(second.len() == 0);
        assert(first =~= second);
    } else {
        let k = lemma_take_one_out(first, second);
        let rest = second.remove(k);
        lemma_report_order_is_irrelevant(first.drop_last(), rest);
        lemma_one_more_report(rest, k, first.last());
        lemma_one_more_report(first.drop_last(), first.len() - 1, first.last());
        assert(first.drop_last().insert(first.len() - 1, first.last()) =~= first);
    }
    to_multiset_len(accepted_urls(first));
    to_multiset_len(accepted_urls(second));
}

/// The order of the raw tokens does not change what the batch returns: the
/// same tokens in another order give the same addresses, each as often as
/// before.
pub proof fn lemma_token_order_is_irrelevant(first: Seq<Seq<char>>, second: Seq<Seq<char>>)
    requires
        first.to_multiset() == second.to_multiset(),
    ensures
        batch_result(first).to_multiset() == batch_result(second).to_multiset(),
        batch_result(first).len() == batch_result(second).len(),
    decreases first.len(),
{
    to_multiset_len(first);
    to_multiset_len(second);
    if first.len() == 0 {
        assert(second.len() == 0);
        assert(first =~= second);
    } else {
        let k = lemma_take_one_out(first, second);
        let rest = second.remove(k);
        let report = report_of(first.last());
        lemma_token_order_is_irrelevant(first.drop_last(), rest);
        lemma_one_more_report(reports_of(rest), k, report);
        lemma_one_more_report(reports_of(first.drop_last()), first.len() - 1, report);
        assert(reports_of(first.drop_last()).insert(first.len() - 1, report) =~= reports_of(
            first,
        ));
        assert(reports_of(rest).insert(k, report) =~= reports_of(second)) by {
            assert(second == rest.insert(k, first.last()));
        }
    }
    to_multiset_len(batch_result(first));
    to_multiset_len(batch_result(second));
}

} // verus!
