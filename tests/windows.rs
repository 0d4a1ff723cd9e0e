use repo_stats::records::{IssueState, PRState, ParsedIssue, ParsedPR};
use repo_stats::stats::{TimedStats, Window};

const DAY: i64 = 86400;
const D: i64 = 19000;

fn pr(id: u64, created: i64, state: PRState, closed: Option<i64>) -> ParsedPR {
    ParsedPR {
        user: "u".to_string(),
        id,
        title: "t".to_string(),
        state,
        open_state: if closed.is_some() { IssueState::Closed } else { IssueState::Open },
        creation_date: created,
        updated_date: created,
        closed_date: closed,
        labels: Vec::new(),
    }
}

fn issue(id: u64, created: i64, closed: Option<i64>) -> ParsedIssue {
    ParsedIssue {
        user: "u".to_string(),
        id,
        title: "t".to_string(),
        state: if closed.is_some() { IssueState::Closed } else { IssueState::Open },
        creation_date: created,
        updated_date: created,
        closed_date: closed,
        labels: Vec::new(),
    }
}

fn three_prs() -> Vec<ParsedPR> {
    vec![
        pr(1, D * DAY + 3600, PRState::Merged, Some((D + 2) * DAY + 100)),
        pr(2, D * DAY + 7200, PRState::Cancelled, Some((D + 3) * DAY + 100)),
        pr(3, D * DAY + 10800, PRState::Open, None),
    ]
}

#[test]
fn three_prs_on_one_day() {
    let prs = three_prs();
    let on = TimedStats::on_date(D, &[], &prs);
    assert_eq!((on.opened_prs, on.merged_prs, on.cancelled_prs), (3, 0, 0));
    assert_eq!(on.date, Some(D));
    let since = TimedStats::since_date(D, &[], &prs);
    assert_eq!((since.opened_prs, since.merged_prs, since.cancelled_prs), (3, 1, 1));
    assert_eq!(since.date, Some(D));
}

#[test]
fn merged_and_cancelled_count_on_their_close_day() {
    let prs = three_prs();
    let merged_day = TimedStats::on_date(D + 2, &[], &prs);
    assert_eq!((merged_day.opened_prs, merged_day.merged_prs, merged_day.cancelled_prs), (0, 1, 0));
    let cancelled_day = TimedStats::on_date(D + 3, &[], &prs);
    assert_eq!(
        (cancelled_day.opened_prs, cancelled_day.merged_prs, cancelled_day.cancelled_prs),
        (0, 0, 1)
    );
    let later = TimedStats::since_date(D + 3, &[], &prs);
    assert_eq!((later.opened_prs, later.merged_prs, later.cancelled_prs), (0, 0, 1));
}

#[test]
fn issues_opened_and_closed_in_windows() {
    let issues = vec![
        issue(1, (D - 10) * DAY, Some(D * DAY + 5)),
        issue(2, D * DAY + 50, None),
        issue(3, (D + 1) * DAY, Some((D + 1) * DAY + 9)),
    ];
    let on = TimedStats::on_date(D, &issues, &[]);
    assert_eq!((on.opened_issues, on.closed_issues), (1, 1));
    let since = TimedStats::since_date(D, &issues, &[]);
    assert_eq!((since.opened_issues, since.closed_issues), (2, 2));
    let all = TimedStats::all_time(&issues, &[]);
    assert_eq!((all.opened_issues, all.closed_issues), (3, 2));
    assert_eq!(all.date, None);
}

#[test]
fn all_time_counts_every_record() {
    let prs = three_prs();
    let issues = vec![issue(1, -5 * DAY, None), issue(2, 40 * 365 * DAY, Some(41 * 365 * DAY))];
    let all = TimedStats::all_time(&issues, &prs);
    assert_eq!(all.opened_prs, prs.len());
    assert_eq!(all.opened_issues, issues.len());
    assert_eq!((all.merged_prs, all.cancelled_prs), (1, 1));
}

#[test]
fn wider_windows_count_no_less() {
    let prs = three_prs();
    let issues = vec![
        issue(1, (D - 400) * DAY, Some((D - 20) * DAY)),
        issue(2, (D - 20) * DAY, Some((D - 3) * DAY)),
        issue(3, (D - 3) * DAY, None),
        issue(4, D * DAY, None),
    ];
    let y = D + 3;
    let week = TimedStats::since_date(y - 7, &issues, &prs);
    let month = TimedStats::since_date(y - 30, &issues, &prs);
    let year = TimedStats::since_date(y - 365, &issues, &prs);
    let all = TimedStats::all_time(&issues, &prs);
    assert_eq!(
        [week.opened_issues, month.opened_issues, year.opened_issues, all.opened_issues],
        [2, 3, 3, 4]
    );
    assert_eq!(
        [week.closed_issues, month.closed_issues, year.closed_issues, all.closed_issues],
        [1, 2, 2, 2]
    );
    assert!(week.opened_prs <= month.opened_prs && month.opened_prs <= year.opened_prs);
    assert!(year.opened_prs <= all.opened_prs);
}

#[test]
fn empty_records_count_zero() {
    let s = TimedStats::since_date(D, &[], &[]);
    assert_eq!(
        (s.opened_prs, s.merged_prs, s.cancelled_prs, s.opened_issues, s.closed_issues),
        (0, 0, 0, 0, 0)
    );
}

#[test]
fn window_membership() {
    assert!(Window::OnDate(5).includes(5));
    assert!(!Window::OnDate(5).includes(6));
    assert!(Window::Since(5).includes(6));
    assert!(!Window::Since(5).includes(4));
    assert!(Window::AllTime.includes(i64::MIN));
}

#[test]
fn default_window_is_today_and_empty() {
    let s = TimedStats::default();
    assert!(s.date.is_some());
    assert_eq!(
        (s.opened_prs, s.merged_prs, s.cancelled_prs, s.opened_issues, s.closed_issues),
        (0, 0, 0, 0, 0)
    );
}

#[test]
fn pre_epoch_instants_fall_on_earlier_days() {
    let prs = vec![pr(1, -1, PRState::Open, None)];
    assert_eq!(TimedStats::on_date(-1, &[], &prs).opened_prs, 1);
    assert_eq!(TimedStats::on_date(0, &[], &prs).opened_prs, 0);
}
