//! Day windows and the counts of opened, merged, cancelled and closed records
//! that fall in them.
use vstd::prelude::*;

use crate::age::unix_now;
use crate::dates::{day_number, day_of};
use crate::records::{IssueState, PRState, ParsedIssue, ParsedPR};

verus! {

/// A set of days: one day, every day from a first one on, or all days.
#[derive(Clone, Copy, Debug, PartialEq, Eq, Structural)]
pub enum Window {
    OnDate(i64),
    Since(i64),
    AllTime,
}

impl Window {
    pub open spec fn contains(self, day: int) -> bool {
        match self {
            Window::OnDate(d) => day == d,
            Window::Since(d) => day >= d,
            Window::AllTime => true,
        }
    }

    /// Every day of `self` is a day of `other`.
    pub open spec fn within(self, other: Window) -> bool {
        forall|day: int| self.contains(day) ==> #[trigger] other.contains(day)
    }

    /// The day that a window is anchored at; none for all time.
    pub open spec fn anchor(self) -> Option<i64> {
        match self {
            Window::OnDate(d) => Some(d),
            Window::Since(d) => Some(d),
            Window::AllTime => None,
        }
    }

    pub fn includes(&self, day: i64) -> (r: bool)
        ensures
            r == self.contains(day as int),
    {
        match self {
            Window::OnDate(d) => day == *d,
            Window::Since(d) => day >= *d,
            Window::AllTime => true,
        }
    }
}

/// How many elements of `s` satisfy `p`.
pub open spec fn count_where<T>(s: Seq<T>, p: spec_fn(T) -> bool) -> nat
    decreases s.len(),
{
    if s.len() == 0 {
        0
    } else {
        count_where(s.drop_last(), p) + if p(s.last()) {
            1nat
        } else {
            0nat
        }
    }
}

pub open spec fn pr_opened_in(w: Window) -> spec_fn(ParsedPR) -> bool {
    |p: ParsedPR| w.contains(day_of(p.creation_date as int))
}

pub open spec fn pr_merged_in(w: Window) -> spec_fn(ParsedPR) -> bool {
    |p: ParsedPR|
        p.state == PRState::Merged && p.closed_date is Some && w.contains(
            day_of(p.closed_date->Some_0 as int),
        )
}

pub open spec fn pr_cancelled_in(w: Window) -> spec_fn(ParsedPR) -> bool {
    |p: ParsedPR|
        p.state == PRState::Cancelled && p.closed_date is Some && w.contains(
            day_of(p.closed_date->Some_0 as int),
        )
}

pub open spec fn issue_opened_in(w: Window) -> spec_fn(ParsedIssue) -> bool {
    |i: ParsedIssue| w.contains(day_of(i.creation_date as int))
}

pub open spec fn issue_closed_in(w: Window) -> spec_fn(ParsedIssue) -> bool {
    |i: ParsedIssue| i.closed_date is Some && w.contains(day_of(i.closed_date->Some_0 as int))
}

/// The five counts of one window.
pub struct WindowCounts {
    pub opened_prs: nat,
    pub merged_prs: nat,
    pub cancelled_prs: nat,
    pub opened_issues: nat,
    pub closed_issues: nat,
}

impl WindowCounts {
    /// Each count of `self` is at most the matching count of `other`.
    pub open spec fn le(self, other: WindowCounts) -> bool {
        &&& self.opened_prs <= other.opened_prs
        &&& self.merged_prs <= other.merged_prs
        &&& self.cancelled_prs <= other.cancelled_prs
        &&& self.opened_issues <= other.opened_issues
        &&& self.closed_issues <= other.closed_issues
    }
}

/// Pull requests created in `w`; merged, and cancelled, with their close
/// instant in `w`; issues created in `w`; issues closed in `w`.
pub open spec fn window_counts(w: Window, issues: Seq<ParsedIssue>, prs: Seq<ParsedPR>) -> WindowCounts {
    WindowCounts {
        opened_prs: count_where(prs, pr_opened_in(w)),
        merged_prs: count_where(prs, pr_merged_in(w)),
        cancelled_prs: count_where(prs, pr_cancelled_in(w)),
        opened_issues: count_where(issues, issue_opened_in(w)),
        closed_issues: count_where(issues, issue_closed_in(w)),
    }
}

pub proof fn lemma_count_take_step<T>(s: Seq<T>, p: spec_fn(T) -> bool, i: int)
    requires
        0 <= i < s.len(),
    ensures
        count_where(s.take(i + 1), p) == count_where(s.take(i), p) + if p(s[i]) {
            1nat
        } else {
            0nat
        },
{
    assert(s.take(i + 1).drop_last() =~= s.take(i));
}

pub proof fn lemma_count_le_len<T>(s: Seq<T>, p: spec_fn(T) -> bool)
    ensures
        count_where(s, p) <= s.len(),
    decreases s.len(),
{
    if s.len() > 0 {
        lemma_count_le_len(s.drop_last(), p);
    }
}

pub proof fn lemma_count_monotone<T>(s: Seq<T>, p: spec_fn(T) -> bool, q: spec_fn(T) -> bool)
    requires
        forall|x: T| #[trigger] p(x) ==> q(x),
    ensures
        count_where(s, p) <= count_where(s, q),
    decreases s.len(),
{
    if s.len() > 0 {
        lemma_count_monotone(s.drop_last(), p, q);
    }
}

pub proof fn lemma_count_all<T>(s: Seq<T>, p: spec_fn(T) -> bool)
    requires
        forall|x: T| #[trigger] p(x),
    ensures
        count_where(s, p) == s.len(),
    decreases s.len(),
{
    if s.len() > 0 {
        lemma_count_all(s.drop_last(), p);
    }
}

/// No count of a window exceeds the number of records it is taken over.
pub proof fn lemma_counts_bounded(w: Window, issues: Seq<ParsedIssue>, prs: Seq<ParsedPR>)
    ensures
        window_counts(w, issues, prs).opened_prs <= prs.len(),
        window_counts(w, issues, prs).merged_prs <= prs.len(),
        window_counts(w, issues, prs).cancelled_prs <= prs.len(),
        window_counts(w, issues, prs).opened_issues <= issues.len(),
        window_counts(w, issues, prs).closed_issues <= issues.len(),
{
    lemma_count_le_len(prs, pr_opened_in(w));
    lemma_count_le_len(prs, pr_merged_in(w));
    lemma_count_le_len(prs, pr_cancelled_in(w));
    lemma_count_le_len(issues, issue_opened_in(w));
    lemma_count_le_len(issues, issue_closed_in(w));
}

/// A window that holds every day of another counts at least as many records
/// of each kind.
pub proof fn lemma_wider_window_counts_more(
    narrow: Window,
    wide: Window,
    issues: Seq<ParsedIssue>,
    prs: Seq<ParsedPR>,
)
    requires
        narrow.within(wide),
    ensures
        window_counts(narrow, issues, prs).le(window_counts(wide, issues, prs)),
{
    assert forall|p: ParsedPR| #[trigger] pr_opened_in(narrow)(p) implies pr_opened_in(wide)(p) by {
        assert(wide.contains(day_of(p.creation_date as int)));
    }
    assert forall|p: ParsedPR| #[trigger] pr_merged_in(narrow)(p) implies pr_merged_in(wide)(p) by {
        assert(wide.contains(day_of(p.closed_date->Some_0 as int)));
    }
    assert forall|p: ParsedPR| #[trigger] pr_cancelled_in(narrow)(p) implies pr_cancelled_in(wide)(
        p,
    ) by {
        assert(wide.contains(day_of(p.closed_date->Some_0 as int)));
    }
    assert forall|i: ParsedIssue| #[trigger] issue_opened_in(narrow)(i) implies issue_opened_in(
        wide,
    )(i) by {
        assert(wide.contains(day_of(i.creation_date as int)));
    }
    assert forall|i: ParsedIssue| #[trigger] issue_closed_in(narrow)(i) implies issue_closed_in(
        wide,
    )(i) by {
        assert(wide.contains(day_of(i.closed_date->Some_0 as int)));
    }
    lemma_count_monotone(prs, pr_opened_in(narrow), pr_opened_in(wide));
    lemma_count_monotone(prs, pr_merged_in(narrow), pr_merged_in(wide));
    lemma_count_monotone(prs, pr_cancelled_in(narrow), pr_cancelled_in(wide));
    lemma_count_monotone(issues, issue_opened_in(narrow), issue_opened_in(wide));
    lemma_count_monotone(issues, issue_closed_in(narrow), issue_closed_in(wide));
}

/// Over all time, every record counts as opened.
pub proof fn lemma_all_time_opened_is_total(issues: Seq<ParsedIssue>, prs: Seq<ParsedPR>)
    ensures
        window_counts(Window::AllTime, issues, prs).opened_prs == prs.len(),
        window_counts(Window::AllTime, issues, prs).opened_issues == issues.len(),
{
    lemma_count_all(prs, pr_opened_in(Window::AllTime));
    lemma_count_all(issues, issue_opened_in(Window::AllTime));
}

/// The counts of one window, with the day it is anchored at.
#[derive(Clone, Copy, Debug)]
pub struct TimedStats {
    pub date: Option<i64>,
    pub opened_prs: usize,
    pub merged_prs: usize,
    pub cancelled_prs: usize,
    pub opened_issues: usize,
    pub closed_issues: usize,
}

impl TimedStats {
    pub open spec fn counts(self) -> WindowCounts {
        WindowCounts {
            opened_prs: self.opened_prs as nat,
            merged_prs: self.merged_prs as nat,
            cancelled_prs: self.cancelled_prs as nat,
            opened_issues: self.opened_issues as nat,
            closed_issues: self.closed_issues as nat,
        }
    }

    /// `self` holds the counts of `w` over the given records.
    pub open spec fn of_window(self, w: Window, issues: Seq<ParsedIssue>, prs: Seq<ParsedPR>) -> bool {
        self.date == w.anchor() && self.counts() == window_counts(w, issues, prs)
    }

    pub fn tally(w: Window, issues: &[ParsedIssue], pull_requests: &[ParsedPR]) -> (r: Self)
        ensures
            r.of_window(w, issues@, pull_requests@),
    {
        let mut opened_prs: usize = 0;
        let mut merged_prs: usize = 0;
        let mut cancelled_prs: usize = 0;
        let mut i: usize = 0;
        while i < pull_requests.len()
            invariant
                i <= pull_requests@.len(),
                opened_prs == count_where(pull_requests@.take(i as int), pr_opened_in(w)),
                merged_prs == count_where(pull_requests@.take(i as int), pr_merged_in(w)),
                cancelled_prs == count_where(pull_requests@.take(i as int), pr_cancelled_in(w)),
            decreases pull_requests@.len() - i,
        {
            let p = &pull_requests[i];
            proof {
                lemma_count_take_step(pull_requests@, pr_opened_in(w), i as int);
                lemma_count_take_step(pull_requests@, pr_merged_in(w), i as int);
                lemma_count_take_step(pull_requests@, pr_cancelled_in(w), i as int);
                lemma_count_le_len(pull_requests@.take(i as int), pr_opened_in(w));
                lemma_count_le_len(pull_requests@.take(i as int), pr_merged_in(w));
                lemma_count_le_len(pull_requests@.take(i as int), pr_cancelled_in(w));
            }
            if w.includes(day_number(p.creation_date)) {
                opened_prs = opened_prs + 1;
            }
            match p.closed_date {
                Some(c) => {
                    if w.includes(day_number(c)) {
                        if p.state == PRState::Merged {
                            merged_prs = merged_prs + 1;
                        } else if p.state == PRState::Cancelled {
                            cancelled_prs = cancelled_prs + 1;
                        }
                    }
                },
                None => {},
            }
            i = i + 1;
        }
        let mut opened_issues: usize = 0;
        let mut closed_issues: usize = 0;
        let mut j: usize = 0;
        while j < issues.len()
            invariant
                j <= issues@.len(),
                opened_issues == count_where(issues@.take(j as int), issue_opened_in(w)),
                closed_issues == count_where(issues@.take(j as int), issue_closed_in(w)),
            decreases issues@.len() - j,
        {
            let issue = &issues[j];
            proof {
                lemma_count_take_step(issues@, issue_opened_in(w), j as int);
                lemma_count_take_step(issues@, issue_closed_in(w), j as int);
                lemma_count_le_len(issues@.take(j as int), issue_opened_in(w));
                lemma_count_le_len(issues@.take(j as int), issue_closed_in(w));
            }
            if w.includes(day_number(issue.creation_date)) {
                opened_issues = opened_issues + 1;
            }
            match issue.closed_date {
                Some(c) => {
                    if w.includes(day_number(c)) {
                        closed_issues = closed_issues + 1;
                    }
                },
                None => {},
            }
            j = j + 1;
        }
        assert(pull_requests@.take(pull_requests@.len() as int) =~= pull_requests@);
        assert(issues@.take(issues@.len() as int) =~= issues@);
        let date = match w {
            Window::OnDate(d) => Some(d),
            Window::Since(d) => Some(d),
            Window::AllTime => None,
        };
        TimedStats { date, opened_prs, merged_prs, cancelled_prs, opened_issues, closed_issues }
    }

    /// Counts the records whose instants fall on `day` or later.
    pub fn since_date(day: i64, issues: &[ParsedIssue], pull_requests: &[ParsedPR]) -> (r: Self)
        ensures
            r.of_window(Window::Since(day), issues@, pull_requests@),
    {
        Self::tally(Window::Since(day), issues, pull_requests)
    }

    /// Counts the records whose instants fall on `day` itself.
    pub fn on_date(day: i64, issues: &[ParsedIssue], pull_requests: &[ParsedPR]) -> (r: Self)
        ensures
            r.of_window(Window::OnDate(day), issues@, pull_requests@),
    {
        Self::tally(Window::OnDate(day), issues, pull_requests)
    }

    /// Counts every record, whatever its instants.
    pub fn all_time(issues: &[ParsedIssue], pull_requests: &[ParsedPR]) -> (r: Self)
        ensures
            r.of_window(Window::AllTime, issues@, pull_requests@),
            r.opened_prs == pull_requests@.len(),
            r.opened_issues == issues@.len(),
    {
        proof {
            lemma_all_time_opened_is_total(issues@, pull_requests@);
        }
        Self::tally(Window::AllTime, issues, pull_requests)
    }
}

impl Default for TimedStats {
    /// An empty window anchored at today, by the system clock.
    fn default() -> (r: Self)
        ensures
            r.date is Some,
            r.opened_prs == 0,
            r.merged_prs == 0,
            r.cancelled_prs == 0,
            r.opened_issues == 0,
            r.closed_issues == 0,
    {
        TimedStats {
            date: Some(day_number(unix_now())),
            opened_prs: 0,
            merged_prs: 0,
            cancelled_prs: 0,
            opened_issues: 0,
            closed_issues: 0,
        }
    }
}

} // verus!
