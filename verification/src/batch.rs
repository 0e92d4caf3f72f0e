use vstd::prelude::*;
use crate::error::ValidationError;
use crate::normalize::{normalize, normalized};
use crate::text::{decimal, decimal_string, fields, split_fields, texts};
use crate::validator::{outcome_of, validate};

verus! {

/// What one validation hands back to the batch: the normalized token and
/// the outcome of validating it.
#[derive(Debug)]
pub struct TokenReport {
    pub token: String,
    pub outcome: Result<(bool, u8), ValidationError>,
}

impl View for TokenReport {
    type V = (Seq<char>, Result<(bool, u8), ValidationError>);

    open spec fn view(&self) -> (Seq<char>, Result<(bool, u8), ValidationError>) {
        (self.token@, self.outcome)
    }
}

/// The short address under which an accepted token is reported.
pub open spec fn short_url(token: Seq<char>) -> Seq<char> {
    "youtu.be/"@ + token
}

/// The report that validating a raw token gives.
pub open spec fn report_of(raw: Seq<char>) -> (Seq<char>, Result<(bool, u8), ValidationError>) {
    (normalized(raw), outcome_of(normalized(raw)))
}

/// The addresses of the reports that carry a success, in the order of the
/// reports. Every such report gives one address; the others give none.
pub open spec fn accepted_urls(
    reports: Seq<(Seq<char>, Result<(bool, u8), ValidationError>)>,
) -> Seq<Seq<char>>
    decreases reports.len(),
{
    if reports.len() == 0 {
        Seq::empty()
    } else if reports.last().1 is Ok {
        accepted_urls(reports.drop_last()).push(short_url(reports.last().0))
    } else {
        accepted_urls(reports.drop_last())
    }
}

/// The number of reports that carry a success.
pub open spec fn success_count(
    reports: Seq<(Seq<char>, Result<(bool, u8), ValidationError>)>,
) -> nat
    decreases reports.len(),
{
    if reports.len() == 0 {
        0
    } else if reports.last().1 is Ok {
        success_count(reports.drop_last()) + 1
    } else {
        success_count(reports.drop_last())
    }
}

/// The reports of a batch of raw tokens, one for each, in their order.
pub open spec fn reports_of(raw_tokens: Seq<Seq<char>>) -> Seq<
    (Seq<char>, Result<(bool, u8), ValidationError>),
> {
    Seq::new(raw_tokens.len(), |k: int| report_of(raw_tokens[k]))
}

/// What a batch of raw tokens returns: the addresses of those that pass.
pub open spec fn batch_result(raw_tokens: Seq<Seq<char>>) -> Seq<Seq<char>> {
    accepted_urls(reports_of(raw_tokens))
}

/// The contents of a list of reports.
pub open spec fn report_views(reports: Seq<TokenReport>) -> Seq<
    (Seq<char>, Result<(bool, u8), ValidationError>),
> {
    Seq::new(reports.len(), |k: int| reports[k]@)
}

/// Renders a token as its short address.
pub fn format_short_url(token: &str) -> (url: String)
    ensures
        url@ == short_url(token@),
{
    let mut url: String = String::from_str("youtu.be/");
    url.append(token);
    url
}

/// The work of one task of the batch: normalizes the raw token and
/// validates it.
pub fn evaluate(raw: &str) -> (report: TokenReport)
    ensures
        report@ == report_of(raw@),
{
    let token: String = normalize(raw);
    let outcome = validate(token.as_str());
    TokenReport { token, outcome }
}

impl TokenReport {
    /// The address to report for this token: `Some` exactly where it passed.
    pub fn accepted_url(&self) -> (url: Option<String>)
        ensures
            url is Some <==> self.outcome is Ok,
            url is Some ==> url->0@ == short_url(self.token@),
    {
        match self.outcome {
            Ok(_) => Some(format_short_url(self.token.as_str())),
            Err(_) => None,
        }
    }
}

/// Gathers the result of a batch from the reports of its tasks, once all of
/// them are there: one address for every success, none for a failure.
pub fn collect_accepted(reports: &Vec<TokenReport>) -> (urls: Vec<String>)
    ensures
        texts(urls@) == accepted_urls(report_views(reports@)),
        urls@.len() == success_count(report_views(reports@)),
{
    let ghost all = report_views(reports@);
    let mut urls: Vec<String> = Vec::new();
    let mut k: usize = 0;
    assert(all.take(0) =~= Seq::empty());
    while k < reports.len()
        invariant
            k <= reports@.len(),
            all == report_views(reports@),
            texts(urls@) =~= accepted_urls(all.take(k as int)),
        decreases reports@.len() - k,
    {
        proof {
            assert(all.take(k + 1).drop_last() =~= all.take(k as int));
            assert(all.take(k + 1).last() == reports@[k as int]@);
        }
        match reports[k].accepted_url() {
            Some(url) => {
                urls.push(url);
            },
            None => {},
        }
        k = k + 1;
    }
    assert(all.take(k as int) =~= all);
    proof {
        lemma_accepted_count(all);
    }
    urls
}

/// Validates every raw token of the batch and returns the addresses of
/// those that pass. A token that fails adds nothing and stops nothing.
pub fn run_batch(raw_tokens: &Vec<String>) -> (urls: Vec<String>)
    ensures
        texts(urls@) == batch_result(texts(raw_tokens@)),
        urls@.len() == success_count(reports_of(texts(raw_tokens@))),
{
    let mut reports: Vec<TokenReport> = Vec::new();
    let mut k: usize = 0;
    while k < raw_tokens.len()
        invariant
            k <= raw_tokens@.len(),
            reports@.len() == k,
            forall|j: int| 0 <= j < k ==> (#[trigger] reports@[j])@ == report_of(raw_tokens@[j]@),
        decreases raw_tokens@.len() - k,
    {
        let report = evaluate(raw_tokens[k].as_str());
        reports.push(report);
        k = k + 1;
    }
    assert(report_views(reports@) =~= reports_of(texts(raw_tokens@)));
    collect_accepted(&reports)
}

/// As many addresses are gathered as there are successes among the reports.
pub proof fn lemma_accepted_count(reports: Seq<(Seq<char>, Result<(bool, u8), ValidationError>)>)
    ensures
        accepted_urls(reports).len() == success_count(reports),
    decreases reports.len(),
{
    if reports.len() > 0 {
        lemma_accepted_count(reports.drop_last());
    }
}

/// The name of the format that a token was accepted in.
pub open spec fn label_of(special: bool) -> Seq<char> {
    if special {
        "special"@
    } else {
        "standard"@
    }
}

/// The line that tells a person how a token fared: for a success its score
/// and its format, for a failure the reason.
pub open spec fn notification_of(
    report: (Seq<char>, Result<(bool, u8), ValidationError>),
) -> Seq<char> {
    match report.1 {
        Ok((special, score)) => report.0 + ": Succeeded with the attomic number ("@ + decimal(
            score as nat,
        ) + ") with the format "@ + label_of(special) + "."@,
        Err(reason) => report.0 + ": "@ + reason.message_spec(),
    }
}

/// The name of the format: "special" with the flag set, else "standard".
pub fn format_label(special: bool) -> (label: &'static str)
    ensures
        label@ == label_of(special),
{
    if special {
        "special"
    } else {
        "standard"
    }
}

impl TokenReport {
    /// The line that tells a person how this token fared.
    pub fn notification(&self) -> (line: String)
        ensures
            line@ == notification_of(self@),
    {
        let mut line: String = self.token.clone();
        match self.outcome {
            Ok((special, score)) => {
                let digits: String = decimal_string(score as u64);
                line.append(": Succeeded with the attomic number (");
                line.append(digits.as_str());
                line.append(") with the format ");
                line.append(format_label(special));
                line.append(".");
            },
            Err(reason) => {
                line.append(": ");
                line.append(reason.message());
            },
        }
        line
    }
}

/// Runs a batch on a text that lists the raw tokens with commas between
/// them.
pub fn run_list(list: &str) -> (urls: Vec<String>)
    ensures
        texts(urls@) == batch_result(fields(list@, ',', list@.len())),
{
    let raw_tokens: Vec<String> = split_fields(list, ',');
    run_batch(&raw_tokens)
}

} // verus!
