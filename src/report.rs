//! The report snapshot of one polling cycle: the breakdown of what is open now
//! and the five day windows.
use vstd::prelude::*;

use crate::age::unix_now;
use crate::dates::{day_number, day_of};
use crate::records::{IssueState, PRState, ParsedIssue, ParsedPR};
use crate::stats::{
    count_where, lemma_all_time_opened_is_total, lemma_count_take_step,
    lemma_wider_window_counts_more, window_counts, TimedStats, Window,
};

verus! {

/// The furthest instant from the Unix epoch, either way, whose report windows
/// can all be written as dates.
pub const MAX_REPORT_SECONDS: i64 = 7_000_000_000_000;

pub const UNCONFIRMED_LABEL: &'static str = "status: unconfirmed";

pub const CONFIRMED_LABEL: &'static str = "status: confirmed";

pub const FEATURE_REQUEST_LABEL: &'static str = "feature-request";

/// Some label of `labels` is `name`.
pub open spec fn has_label(labels: Seq<String>, name: Seq<char>) -> bool {
    exists|k: int| 0 <= k < labels.len() && (#[trigger] labels[k])@ == name
}

pub fn carries_label(labels: &Vec<String>, name: &str) -> (r: bool)
    ensures
        r == has_label(labels@, name@),
{
    let target = name.to_owned();
    let mut k: usize = 0;
    while k < labels.len()
        invariant
            k <= labels@.len(),
            target@ == name@,
            forall|j: int| 0 <= j < k ==> (#[trigger] labels@[j])@ != name@,
        decreases labels@.len() - k,
    {
        if labels[k] == target {
            return true;
        }
        k = k + 1;
    }
    false
}

/// The kind an open issue is counted under.
#[derive(Clone, Copy, Debug, PartialEq, Eq, Structural)]
pub enum IssueCategory {
    Unconfirmed,
    Confirmed,
    FeatureRequest,
}

/// An open issue falls under the first of unconfirmed, confirmed and feature
/// request whose label it carries; a closed issue, or one with none of these
/// labels, under none.
pub open spec fn issue_category(issue: ParsedIssue) -> Option<IssueCategory> {
    if issue.state != IssueState::Open {
        None
    } else if has_label(issue.labels@, UNCONFIRMED_LABEL@) {
        Some(IssueCategory::Unconfirmed)
    } else if has_label(issue.labels@, CONFIRMED_LABEL@) {
        Some(IssueCategory::Confirmed)
    } else if has_label(issue.labels@, FEATURE_REQUEST_LABEL@) {
        Some(IssueCategory::FeatureRequest)
    } else {
        None
    }
}

pub fn categorize(issue: &ParsedIssue) -> (r: Option<IssueCategory>)
    ensures
        r == issue_category(*issue),
{
    if issue.state != IssueState::Open {
        None
    } else if carries_label(&issue.labels, UNCONFIRMED_LABEL) {
        Some(IssueCategory::Unconfirmed)
    } else if carries_label(&issue.labels, CONFIRMED_LABEL) {
        Some(IssueCategory::Confirmed)
    } else if carries_label(&issue.labels, FEATURE_REQUEST_LABEL) {
        Some(IssueCategory::FeatureRequest)
    } else {
        None
    }
}

pub open spec fn in_category(c: IssueCategory) -> spec_fn(ParsedIssue) -> bool {
    |i: ParsedIssue| issue_category(i) == Some(c)
}

/// An open pull request that is not a draft.
pub open spec fn is_ready_pr() -> spec_fn(ParsedPR) -> bool {
    |p: ParsedPR| p.state == PRState::Open
}

/// A draft that the host still reports as open.
pub open spec fn is_open_draft_pr() -> spec_fn(ParsedPR) -> bool {
    |p: ParsedPR| p.open_state == IssueState::Open && p.state == PRState::Draft
}

/// Yesterday, relative to the instant `now`.
pub open spec fn yesterday_window(now: int) -> Window {
    Window::OnDate((day_of(now) - 1) as i64)
}

/// From seven days before yesterday on.
pub open spec fn last_week_window(now: int) -> Window {
    Window::Since((day_of(now) - 8) as i64)
}

/// From thirty days before yesterday on.
pub open spec fn last_month_window(now: int) -> Window {
    Window::Since((day_of(now) - 31) as i64)
}

/// From 365 days before yesterday on.
pub open spec fn last_year_window(now: int) -> Window {
    Window::Since((day_of(now) - 366) as i64)
}

/// The snapshot of one cycle. `date` is the instant it was taken at, in
/// seconds since the Unix epoch.
#[derive(Debug)]
pub struct GithubData {
    pub date: i64,
    pub open_issues: usize,
    pub confirmed_issues: usize,
    pub unconfirmed_issues: usize,
    pub feature_requests: usize,
    pub open_pull_requests: usize,
    pub ready_pull_requests: usize,
    pub draft_pull_requests: usize,
    pub stale_issues: Vec<ParsedIssue>,
    pub stale_pull_requests: Vec<ParsedPR>,
    pub most_recent_issues: Vec<ParsedIssue>,
    pub most_recent_pull_requests: Vec<ParsedPR>,
    pub yesterday: TimedStats,
    pub last_week: TimedStats,
    pub last_month: TimedStats,
    pub last_year: TimedStats,
    pub all: TimedStats,
}

impl GithubData {
    /// The counts of `self` are those of `issues` and `prs` as of the instant `now`.
    pub open spec fn tallied(self, now: int, issues: Seq<ParsedIssue>, prs: Seq<ParsedPR>) -> bool {
        &&& self.date == now
        &&& self.unconfirmed_issues == count_where(issues, in_category(IssueCategory::Unconfirmed))
        &&& self.confirmed_issues == count_where(issues, in_category(IssueCategory::Confirmed))
        &&& self.feature_requests == count_where(issues, in_category(IssueCategory::FeatureRequest))
        &&& self.open_issues == self.unconfirmed_issues + self.confirmed_issues
            + self.feature_requests
        &&& self.ready_pull_requests == count_where(prs, is_ready_pr())
        &&& self.draft_pull_requests == count_where(prs, is_open_draft_pr())
        &&& self.open_pull_requests == self.ready_pull_requests + self.draft_pull_requests
        &&& self.yesterday.of_window(yesterday_window(now), issues, prs)
        &&& self.last_week.of_window(last_week_window(now), issues, prs)
        &&& self.last_month.of_window(last_month_window(now), issues, prs)
        &&& self.last_year.of_window(last_year_window(now), issues, prs)
        &&& self.all.of_window(Window::AllTime, issues, prs)
    }

    /// The leaderboards of `self` and `other` are the same.
    pub open spec fn same_leaderboards(self, other: GithubData) -> bool {
        &&& self.stale_issues@ == other.stale_issues@
        &&& self.stale_pull_requests@ == other.stale_pull_requests@
        &&& self.most_recent_issues@ == other.most_recent_issues@
        &&& self.most_recent_pull_requests@ == other.most_recent_pull_requests@
    }

    /// The instant, the open breakdown and the windows of `self` and `other`
    /// are the same.
    pub open spec fn same_counts(self, other: GithubData) -> bool {
        &&& self.date == other.date
        &&& self.open_issues == other.open_issues
        &&& self.confirmed_issues == other.confirmed_issues
        &&& self.unconfirmed_issues == other.unconfirmed_issues
        &&& self.feature_requests == other.feature_requests
        &&& self.open_pull_requests == other.open_pull_requests
        &&& self.ready_pull_requests == other.ready_pull_requests
        &&& self.draft_pull_requests == other.draft_pull_requests
        &&& self.yesterday == other.yesterday
        &&& self.last_week == other.last_week
        &&& self.last_month == other.last_month
        &&& self.last_year == other.last_year
        &&& self.all == other.all
    }

    /// No counts and no leaderboards, every window anchored at `today`.
    pub open spec fn empty_on(self, today: i64) -> bool {
        let empty_window = TimedStats {
            date: Some(today),
            opened_prs: 0,
            merged_prs: 0,
            cancelled_prs: 0,
            opened_issues: 0,
            closed_issues: 0,
        };
        &&& self.date == 0
        &&& self.open_issues == 0
        &&& self.confirmed_issues == 0
        &&& self.unconfirmed_issues == 0
        &&& self.feature_requests == 0
        &&& self.open_pull_requests == 0
        &&& self.ready_pull_requests == 0
        &&& self.draft_pull_requests == 0
        &&& self.stale_issues@.len() == 0
        &&& self.stale_pull_requests@.len() == 0
        &&& self.most_recent_issues@.len() == 0
        &&& self.most_recent_pull_requests@.len() == 0
        &&& self.yesterday == empty_window
        &&& self.last_week == empty_window
        &&& self.last_month == empty_window
        &&& self.last_year == empty_window
        &&& self.all == empty_window
    }

    /// An empty snapshot whose windows are anchored at today, by the system clock.
    pub fn new() -> (r: Self)
        ensures
            exists|today: i64| r.empty_on(today),
    {
        let today = day_number(unix_now());
        let empty_window = TimedStats {
            date: Some(today),
            opened_prs: 0,
            merged_prs: 0,
            cancelled_prs: 0,
            opened_issues: 0,
            closed_issues: 0,
        };
        let r = GithubData {
            date: 0,
            open_issues: 0,
            confirmed_issues: 0,
            unconfirmed_issues: 0,
            feature_requests: 0,
            open_pull_requests: 0,
            ready_pull_requests: 0,
            draft_pull_requests: 0,
            stale_issues: Vec::new(),
            stale_pull_requests: Vec::new(),
            most_recent_issues: Vec::new(),
            most_recent_pull_requests: Vec::new(),
            yesterday: empty_window,
            last_week: empty_window,
            last_month: empty_window,
            last_year: empty_window,
            all: empty_window,
        };
        assert(r.empty_on(today));
        r
    }

    /// Computes the open breakdown and the five windows of `issues` and
    /// `pull_requests` as of the instant `now`; the leaderboards stay as they are.
    pub fn tally(&mut self, now: i64, issues: &[ParsedIssue], pull_requests: &[ParsedPR])
        ensures
            final(self).tallied(now as int, issues@, pull_requests@),
            final(self).same_leaderboards(*old(self)),
            -MAX_REPORT_SECONDS <= now <= MAX_REPORT_SECONDS ==> final(self).dates_in_range(),
    {
        let mut unconfirmed: usize = 0;
        let mut confirmed: usize = 0;
        let mut features: usize = 0;
        let mut i: usize = 0;
        while i < issues.len()
            invariant
                i <= issues@.len(),
                unconfirmed == count_where(
                    issues@.take(i as int),
                    in_category(IssueCategory::Unconfirmed),
                ),
                confirmed == count_where(
                    issues@.take(i as int),
                    in_category(IssueCategory::Confirmed),
                ),
                features == count_where(
                    issues@.take(i as int),
                    in_category(IssueCategory::FeatureRequest),
                ),
                unconfirmed + confirmed + features <= i,
            decreases issues@.len() - i,
        {
            proof {
                lemma_count_take_step(issues@, in_category(IssueCategory::Unconfirmed), i as int);
                lemma_count_take_step(issues@, in_category(IssueCategory::Confirmed), i as int);
                lemma_count_take_step(
                    issues@,
                    in_category(IssueCategory::FeatureRequest),
                    i as int,
                );
            }
            match categorize(&issues[i]) {
                Some(IssueCategory::Unconfirmed) => unconfirmed = unconfirmed + 1,
                Some(IssueCategory::Confirmed) => confirmed = confirmed + 1,
                Some(IssueCategory::FeatureRequest) => features = features + 1,
                None => {},
            }
            i = i + 1;
        }
        let mut ready: usize = 0;
        let mut drafts: usize = 0;
        let mut j: usize = 0;
        while j < pull_requests.len()
            invariant
                j <= pull_requests@.len(),
                ready == count_where(pull_requests@.take(j as int), is_ready_pr()),
                drafts == count_where(pull_requests@.take(j as int), is_open_draft_pr()),
                ready + drafts <= j,
            decreases pull_requests@.len() - j,
        {
            proof {
                lemma_count_take_step(pull_requests@, is_ready_pr(), j as int);
                lemma_count_take_step(pull_requests@, is_open_draft_pr(), j as int);
            }
            let p = &pull_requests[j];
            if p.state == PRState::Open {
                ready = ready + 1;
            } else if p.open_state == IssueState::Open && p.state == PRState::Draft {
                drafts = drafts + 1;
            }
            j = j + 1;
        }
        assert(issues@.take(issues@.len() as int) =~= issues@);
        assert(pull_requests@.take(pull_requests@.len() as int) =~= pull_requests@);
        let yesterday = day_number(now) - 1;
        self.date = now;
        self.unconfirmed_issues = unconfirmed;
        self.confirmed_issues = confirmed;
        self.feature_requests = features;
        self.open_issues = unconfirmed + confirmed + features;
        self.ready_pull_requests = ready;
        self.draft_pull_requests = drafts;
        self.open_pull_requests = ready + drafts;
        self.yesterday = TimedStats::on_date(yesterday, issues, pull_requests);
        self.last_week = TimedStats::since_date(yesterday - 7, issues, pull_requests);
        self.last_month = TimedStats::since_date(yesterday - 30, issues, pull_requests);
        self.last_year = TimedStats::since_date(yesterday - 365, issues, pull_requests);
        self.all = TimedStats::all_time(issues, pull_requests);
    }

    /// Replaces the four leaderboards; the counts stay as they are.
    pub fn set_leaderboards(
        &mut self,
        stale_issues: Vec<ParsedIssue>,
        stale_pull_requests: Vec<ParsedPR>,
        most_recent_issues: Vec<ParsedIssue>,
        most_recent_pull_requests: Vec<ParsedPR>,
    )
        ensures
            final(self).stale_issues@ == stale_issues@,
            final(self).stale_pull_requests@ == stale_pull_requests@,
            final(self).most_recent_issues@ == most_recent_issues@,
            final(self).most_recent_pull_requests@ == most_recent_pull_requests@,
            final(self).same_counts(*old(self)),
    {
        self.stale_issues = stale_issues;
        self.stale_pull_requests = stale_pull_requests;
        self.most_recent_issues = most_recent_issues;
        self.most_recent_pull_requests = most_recent_pull_requests;
    }
}

/// As the windows widen from yesterday to the last week, month, year and all
/// time, none of the five counts decreases, for a fixed set of records and a
/// fixed instant.
pub proof fn lemma_windows_widen(now: int, issues: Seq<ParsedIssue>, prs: Seq<ParsedPR>)
    requires
        i64::MIN <= now <= i64::MAX,
    ensures
        window_counts(yesterday_window(now), issues, prs).le(
            window_counts(last_week_window(now), issues, prs),
        ),
        window_counts(last_week_window(now), issues, prs).le(
            window_counts(last_month_window(now), issues, prs),
        ),
        window_counts(last_month_window(now), issues, prs).le(
            window_counts(last_year_window(now), issues, prs),
        ),
        window_counts(last_year_window(now), issues, prs).le(
            window_counts(Window::AllTime, issues, prs),
        ),
{
    assert(yesterday_window(now).within(last_week_window(now)));
    assert(last_week_window(now).within(last_month_window(now)));
    assert(last_month_window(now).within(last_year_window(now)));
    assert(last_year_window(now).within(Window::AllTime));
    lemma_wider_window_counts_more(yesterday_window(now), last_week_window(now), issues, prs);
    lemma_wider_window_counts_more(last_week_window(now), last_month_window(now), issues, prs);
    lemma_wider_window_counts_more(last_month_window(now), last_year_window(now), issues, prs);
    lemma_wider_window_counts_more(last_year_window(now), Window::AllTime, issues, prs);
}

/// In a snapshot tallied from a set of records, each count grows from the
/// last week to the last month, the last year and all time, and the all-time
/// opened counts are the numbers of records fed in.
pub proof fn lemma_snapshot_windows_nested(
    d: GithubData,
    now: int,
    issues: Seq<ParsedIssue>,
    prs: Seq<ParsedPR>,
)
    requires
        i64::MIN <= now <= i64::MAX,
        d.tallied(now, issues, prs),
    ensures
        d.yesterday.counts().le(d.last_week.counts()),
        d.last_week.counts().le(d.last_month.counts()),
        d.last_month.counts().le(d.last_year.counts()),
        d.last_year.counts().le(d.all.counts()),
        d.last_week.opened_issues <= d.last_month.opened_issues <= d.last_year.opened_issues
            <= d.all.opened_issues,
        d.all.opened_issues == issues.len(),
        d.all.opened_prs == prs.len(),
{
    lemma_windows_widen(now, issues, prs);
    lemma_all_time_opened_is_total(issues, prs);
}

} // verus!
