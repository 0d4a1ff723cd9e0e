//! Issue and pull-request records: what the host reports for each, and the
//! normalised shape the statistics are computed from.
use vstd::prelude::*;

verus! {

/// The host's own open/closed flag of an issue or pull request.
#[derive(Clone, Copy, Debug, PartialEq, Eq, Structural)]
pub enum IssueState {
    Open,
    Closed,
}

/// The lifecycle of a pull request, derived from its draft flag and its merge
/// and close instants.
#[derive(Clone, Copy, Debug, PartialEq, Eq, Structural)]
pub enum PRState {
    Open,
    Draft,
    Merged,
    Cancelled,
}

impl Default for PRState {
    fn default() -> (r: Self)
        ensures
            r == PRState::Open,
    {
        PRState::Open
    }
}

/// An issue as the host lists it. Instants are seconds since the Unix epoch.
/// `is_pull_request` is set when the record carries a pull-request back-reference.
#[derive(Clone, Debug)]
pub struct RawIssue {
    pub author: String,
    pub number: u64,
    pub title: String,
    pub state: IssueState,
    pub created_at: i64,
    pub updated_at: i64,
    pub closed_at: Option<i64>,
    pub labels: Vec<String>,
    pub is_pull_request: bool,
}

/// A pull request as the host lists it; the host may leave any optional field out.
#[derive(Clone, Debug)]
pub struct RawPullRequest {
    pub author: Option<String>,
    pub number: u64,
    pub title: Option<String>,
    pub state: Option<IssueState>,
    pub draft: Option<bool>,
    pub created_at: Option<i64>,
    pub updated_at: Option<i64>,
    pub closed_at: Option<i64>,
    pub merged_at: Option<i64>,
    pub labels: Option<Vec<String>>,
}

/// A normalised issue.
#[derive(Clone, Debug, PartialEq)]
pub struct ParsedIssue {
    pub user: String,
    pub id: u64,
    pub title: String,
    pub state: IssueState,
    pub creation_date: i64,
    pub updated_date: i64,
    pub closed_date: Option<i64>,
    pub labels: Vec<String>,
}

/// A normalised pull request. `open_state` is the host's open/closed flag,
/// independent of whether the pull request was merged.
#[derive(Clone, Debug, PartialEq)]
pub struct ParsedPR {
    pub user: String,
    pub id: u64,
    pub title: String,
    pub state: PRState,
    pub open_state: IssueState,
    pub creation_date: i64,
    pub updated_date: i64,
    pub closed_date: Option<i64>,
    pub labels: Vec<String>,
}

/// A field that a pull-request record must carry.
#[derive(Clone, Copy, Debug, PartialEq, Eq, Structural)]
pub enum RecordField {
    Author,
    Title,
    State,
    CreatedAt,
    UpdatedAt,
    Labels,
}

#[derive(Clone, Copy, Debug, PartialEq, Eq, Structural)]
pub enum ParseError {
    MissingField(RecordField),
}

pub open spec fn parsed_issue_of(issue: RawIssue) -> ParsedIssue {
    ParsedIssue {
        user: issue.author,
        id: issue.number,
        title: issue.title,
        state: issue.state,
        creation_date: issue.created_at,
        updated_date: issue.updated_at,
        closed_date: issue.closed_at,
        labels: issue.labels,
    }
}

/// Draft first, then merged, then closed without a merge, else open.
pub open spec fn pr_lifecycle(draft: Option<bool>, merged_at: Option<i64>, closed_at: Option<i64>) -> PRState {
    if draft == Some(true) {
        PRState::Draft
    } else if merged_at is Some {
        PRState::Merged
    } else if closed_at is Some {
        PRState::Cancelled
    } else {
        PRState::Open
    }
}

/// The first required field, in declaration order, that `pr` lacks.
pub open spec fn first_missing(pr: RawPullRequest) -> Option<RecordField> {
    if pr.author is None {
        Some(RecordField::Author)
    } else if pr.title is None {
        Some(RecordField::Title)
    } else if pr.state is None {
        Some(RecordField::State)
    } else if pr.created_at is None {
        Some(RecordField::CreatedAt)
    } else if pr.updated_at is None {
        Some(RecordField::UpdatedAt)
    } else if pr.labels is None {
        Some(RecordField::Labels)
    } else {
        None
    }
}

/// The normalised form of a pull-request record that carries every required field.
pub open spec fn parsed_pr_of(pr: RawPullRequest) -> ParsedPR {
    ParsedPR {
        user: pr.author->Some_0,
        id: pr.number,
        title: pr.title->Some_0,
        state: pr_lifecycle(pr.draft, pr.merged_at, pr.closed_at),
        open_state: pr.state->Some_0,
        creation_date: pr.created_at->Some_0,
        updated_date: pr.updated_at->Some_0,
        closed_date: pr.closed_at,
        labels: pr.labels->Some_0,
    }
}

/// The normalised form of a pull request found through an issue search: such
/// a record is taken to be open.
pub open spec fn pr_from_issue_of(issue: RawIssue) -> ParsedPR {
    ParsedPR {
        user: issue.author,
        id: issue.number,
        title: issue.title,
        state: PRState::Open,
        open_state: issue.state,
        creation_date: issue.created_at,
        updated_date: issue.updated_at,
        closed_date: issue.closed_at,
        labels: issue.labels,
    }
}

/// The issues among `records`, pull requests left out, normalised, in order.
pub open spec fn issues_of(records: Seq<RawIssue>) -> Seq<ParsedIssue>
    decreases records.len(),
{
    if records.len() == 0 {
        seq![]
    } else {
        let rest = issues_of(records.drop_last());
        if records.last().is_pull_request {
            rest
        } else {
            rest.push(parsed_issue_of(records.last()))
        }
    }
}

pub fn parse_issue(issue: RawIssue) -> (r: ParsedIssue)
    ensures
        r == parsed_issue_of(issue),
{
    ParsedIssue {
        user: issue.author,
        id: issue.number,
        title: issue.title,
        state: issue.state,
        creation_date: issue.created_at,
        updated_date: issue.updated_at,
        closed_date: issue.closed_at,
        labels: issue.labels,
    }
}

/// Normalises a pull-request record, or names the first required field it lacks.
pub fn parse_pr(pr: RawPullRequest) -> (r: Result<ParsedPR, ParseError>)
    ensures
        match first_missing(pr) {
            Some(f) => r == Err::<ParsedPR, ParseError>(ParseError::MissingField(f)),
            None => r == Ok::<ParsedPR, ParseError>(parsed_pr_of(pr)),
        },
{
    let state = if pr.draft == Some(true) {
        PRState::Draft
    } else if pr.merged_at.is_some() {
        PRState::Merged
    } else if pr.closed_at.is_some() {
        PRState::Cancelled
    } else {
        PRState::Open
    };
    let user = match pr.author {
        Some(u) => u,
        None => return Err(ParseError::MissingField(RecordField::Author)),
    };
    let title = match pr.title {
        Some(t) => t,
        None => return Err(ParseError::MissingField(RecordField::Title)),
    };
    let open_state = match pr.state {
        Some(s) => s,
        None => return Err(ParseError::MissingField(RecordField::State)),
    };
    let creation_date = match pr.created_at {
        Some(d) => d,
        None => return Err(ParseError::MissingField(RecordField::CreatedAt)),
    };
    let updated_date = match pr.updated_at {
        Some(d) => d,
        None => return Err(ParseError::MissingField(RecordField::UpdatedAt)),
    };
    let labels = match pr.labels {
        Some(l) => l,
        None => return Err(ParseError::MissingField(RecordField::Labels)),
    };
    Ok(
        ParsedPR {
            user,
            id: pr.number,
            title,
            state,
            open_state,
            creation_date,
            updated_date,
            closed_date: pr.closed_at,
            labels,
        },
    )
}

/// Normalises a pull request found through an issue search.
pub fn parse_pr_from_issue(pr: RawIssue) -> (r: ParsedPR)
    ensures
        r == pr_from_issue_of(pr),
{
    ParsedPR {
        user: pr.author,
        id: pr.number,
        title: pr.title,
        state: PRState::Open,
        open_state: pr.state,
        creation_date: pr.created_at,
        updated_date: pr.updated_at,
        closed_date: pr.closed_at,
        labels: pr.labels,
    }
}

/// Normalises a listing of issues, leaving out the records that are pull requests.
pub fn collect_issues(records: Vec<RawIssue>) -> (r: Vec<ParsedIssue>)
    ensures
        r@ == issues_of(records@),
{
    let ghost all = records@;
    let mut out: Vec<ParsedIssue> = Vec::new();
    for rec in it: records.into_iter()
        invariant
            it.seq() == all,
            out@ == issues_of(all.take(it.index() as int)),
    {
        proof {
            assert(all.take(it.index() + 1).drop_last() =~= all.take(it.index() as int));
        }
        if !rec.is_pull_request {
            out.push(parse_issue(rec));
        }
    }
    assert(all.take(all.len() as int) =~= all);
    out
}

/// Normalises a listing of pull requests. Fails on the first record that lacks
/// a required field, naming that field.
pub fn collect_pull_requests(records: Vec<RawPullRequest>) -> (r: Result<Vec<ParsedPR>, ParseError>)
    ensures
        match r {
            Ok(v) => v@.len() == records@.len() && forall|i: int|
                0 <= i < records@.len() ==> first_missing(#[trigger] records@[i]) is None
                    && v@[i] == parsed_pr_of(records@[i]),
            Err(ParseError::MissingField(f)) => exists|k: int|
                0 <= k < records@.len() && first_missing(#[trigger] records@[k]) == Some(f)
                    && forall|j: int| 0 <= j < k ==> first_missing(#[trigger] records@[j]) is None,
        },
{
    let ghost all = records@;
    let mut out: Vec<ParsedPR> = Vec::new();
    for rec in it: records.into_iter()
        invariant
            it.seq() == all,
            out@.len() == it.index(),
            forall|i: int|
                0 <= i < it.index() ==> first_missing(#[trigger] all[i]) is None && out@[i]
                    == parsed_pr_of(all[i]),
    {
        match parse_pr(rec) {
            Ok(p) => out.push(p),
            Err(e) => {
                assert(first_missing(all[it.index() as int]) is Some);
                return Err(e);
            },
        }
    }
    Ok(out)
}

/// Classification depends on the record alone: the same record, classified
/// twice, gives the same normalised record, or the same missing field.
pub proof fn lemma_classification_is_pure(
    issue_a: RawIssue,
    issue_b: RawIssue,
    pr_a: RawPullRequest,
    pr_b: RawPullRequest,
)
    requires
        issue_a == issue_b,
        pr_a == pr_b,
    ensures
        parsed_issue_of(issue_a) == parsed_issue_of(issue_b),
        pr_from_issue_of(issue_a) == pr_from_issue_of(issue_b),
        first_missing(pr_a) == first_missing(pr_b),
        parsed_pr_of(pr_a) == parsed_pr_of(pr_b),
{
}

} // verus!
