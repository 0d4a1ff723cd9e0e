use repo_stats::records::{IssueState, PRState, ParsedIssue, ParsedPR};
use repo_stats::report::{categorize, carries_label, GithubData, IssueCategory};
use repo_stats::stats::TimedStats;

const DAY: i64 = 86400;

fn issue(id: u64, state: IssueState, labels: &[&str]) -> ParsedIssue {
    ParsedIssue {
        user: "u".to_string(),
        id,
        title: format!("Issue {id}"),
        state,
        creation_date: 100 * DAY,
        updated_date: 100 * DAY,
        closed_date: None,
        labels: labels.iter().map(|l| l.to_string()).collect(),
    }
}

fn pr(id: u64, state: PRState, open_state: IssueState) -> ParsedPR {
    ParsedPR {
        user: "u".to_string(),
        id,
        title: format!("PR {id}"),
        state,
        open_state,
        creation_date: 100 * DAY,
        updated_date: 100 * DAY,
        closed_date: None,
        labels: Vec::new(),
    }
}

fn window(date: Option<i64>, counts: [usize; 5]) -> TimedStats {
    TimedStats {
        date,
        opened_prs: counts[0],
        merged_prs: counts[1],
        cancelled_prs: counts[2],
        opened_issues: counts[3],
        closed_issues: counts[4],
    }
}

fn stats_section(report: &str) -> &str {
    &report[report.find("## Pull Requests").unwrap()..]
}

fn line_starting<'a>(report: &'a str, start: &str) -> &'a str {
    report.lines().find(|l| l.starts_with(start)).unwrap()
}

#[test]
fn confirmed_feature_request_counts_once_as_confirmed() {
    let issues = vec![issue(1, IssueState::Open, &["status: confirmed", "feature-request"])];
    let mut data = GithubData::new();
    data.tally(200 * DAY, &issues, &[]);
    assert_eq!(data.confirmed_issues, 1);
    assert_eq!(data.feature_requests, 0);
    assert_eq!(data.unconfirmed_issues, 0);
    assert_eq!(data.open_issues, 1);
}

#[test]
fn unconfirmed_comes_before_confirmed() {
    let i = issue(1, IssueState::Open, &["status: confirmed", "status: unconfirmed"]);
    assert_eq!(categorize(&i), Some(IssueCategory::Unconfirmed));
    let f = issue(2, IssueState::Open, &["x", "feature-request"]);
    assert_eq!(categorize(&f), Some(IssueCategory::FeatureRequest));
    let closed = issue(3, IssueState::Closed, &["status: confirmed"]);
    assert_eq!(categorize(&closed), None);
    let plain = issue(4, IssueState::Open, &["documentation"]);
    assert_eq!(categorize(&plain), None);
}

#[test]
fn label_match_is_exact() {
    let labels = vec!["status: confirmed".to_string(), "bug".to_string()];
    assert!(carries_label(&labels, "bug"));
    assert!(!carries_label(&labels, "status:"));
    assert!(!carries_label(&Vec::new(), "bug"));
}

#[test]
fn open_breakdown_of_a_cycle() {
    let issues = vec![
        issue(1, IssueState::Open, &["status: unconfirmed"]),
        issue(2, IssueState::Open, &["status: confirmed"]),
        issue(3, IssueState::Open, &["feature-request"]),
        issue(4, IssueState::Open, &[]),
        issue(5, IssueState::Closed, &["status: confirmed"]),
    ];
    let prs = vec![
        pr(1, PRState::Open, IssueState::Open),
        pr(2, PRState::Draft, IssueState::Open),
        pr(3, PRState::Draft, IssueState::Closed),
        pr(4, PRState::Merged, IssueState::Closed),
    ];
    let mut data = GithubData::new();
    data.tally(200 * DAY + 5, &issues, &prs);
    assert_eq!(data.date, 200 * DAY + 5);
    assert_eq!(
        (data.unconfirmed_issues, data.confirmed_issues, data.feature_requests, data.open_issues),
        (1, 1, 1, 3)
    );
    assert_eq!((data.ready_pull_requests, data.draft_pull_requests, data.open_pull_requests), (1, 1, 2));
    assert_eq!(data.yesterday.date, Some(199));
    assert_eq!(data.last_week.date, Some(192));
    assert_eq!(data.last_month.date, Some(169));
    assert_eq!(data.last_year.date, Some(-166));
    assert_eq!(data.all.date, None);
    assert_eq!(data.last_year.opened_issues, 5);
    assert_eq!(data.last_month.opened_issues, 0);
    assert_eq!(data.all.opened_prs, 4);
    assert!(data.can_render());
}

#[test]
fn leaderboards_survive_a_tally() {
    let mut data = GithubData::new();
    data.set_leaderboards(
        vec![issue(7, IssueState::Open, &[])],
        vec![pr(8, PRState::Open, IssueState::Open)],
        Vec::new(),
        Vec::new(),
    );
    data.tally(10 * DAY, &[], &[]);
    assert_eq!(data.stale_issues.len(), 1);
    assert_eq!(data.stale_pull_requests[0].id, 8);
}

#[test]
fn no_prs_opened_gives_undefined_merge_rate() {
    let data = GithubData::new();
    let report = data.render_at(0);
    assert!(report.contains("**Merge Rate**: NaN | NaN | NaN | NaN | NaN\n\n"));
    assert!(report.contains("**Resolution Rate**: NaN | NaN | NaN | NaN | NaN\n\n"));
    assert!(report.contains("**PR Growth**: 0 | 0 | 0 | 0 | 0\n\n"));
}

#[test]
fn merges_without_openings_give_infinite_rate() {
    let mut data = GithubData::new();
    data.yesterday = window(Some(-1), [0, 2, 0, 0, 0]);
    let report = data.render_at(0);
    assert!(line_starting(&report, "**Merge Rate**: ").starts_with("**Merge Rate**: inf | NaN"));
    assert!(line_starting(&report, "**PR Growth**: ").starts_with("**PR Growth**: -2 | 0"));
}

#[test]
fn rates_round_to_two_decimals() {
    let mut data = GithubData::new();
    data.yesterday = window(Some(-1), [3, 1, 0, 8, 1]);
    data.last_week = window(Some(-8), [3, 2, 0, 8, 3]);
    data.last_month = window(Some(-31), [8, 1, 0, 7, 14]);
    data.last_year = window(Some(-366), [200, 1, 0, 1000, 5]);
    data.all = window(None, [4, 4, 0, 3, 10]);
    let report = data.render_at(0);
    assert_eq!(
        line_starting(&report, "**Merge Rate**: "),
        "**Merge Rate**: 0.33 | 0.67 | 0.12 | 0.01 | 1.00"
    );
    assert_eq!(
        line_starting(&report, "**Resolution Rate**: "),
        "**Resolution Rate**: 0.12 | 0.38 | 2.00 | 0.01 | 3.33"
    );
    assert_eq!(line_starting(&report, "**PR Growth**: "), "**PR Growth**: 2 | 1 | 7 | 199 | 0");
    assert_eq!(line_starting(&report, "**Issue Growth**: "), "**Issue Growth**: 7 | 5 | -7 | 995 | -7");
}

#[test]
fn rates_follow_the_float_quotient() {
    let mut data = GithubData::new();
    data.yesterday = window(Some(-1), [40, 1, 0, 40, 3]);
    data.last_week = window(Some(-8), [3, usize::MAX, 0, usize::MAX, 1]);
    data.last_month = window(Some(-31), [(1 << 53) + 1, usize::MAX, 0, usize::MAX, (1 << 53) + 1]);
    data.last_year = window(Some(-366), [3, 12345678901234567, 0, 7, 0]);
    data.all = window(None, [0, 0, 0, 1, 1]);
    let report = data.render_at(0);
    assert_eq!(
        line_starting(&report, "**Merge Rate**: "),
        "**Merge Rate**: 0.03 | 6148914691236516864.00 | 2048.00 | 4115226300411522.50 | NaN"
    );
    assert_eq!(
        line_starting(&report, "**Resolution Rate**: "),
        "**Resolution Rate**: 0.07 | 0.00 | 0.00 | 0.00 | 1.00"
    );
    for (num, den) in [(1usize, 200usize), (5, 1000), (1, 40), (3, 40), (1, 3), (7, 9)] {
        data.yesterday = window(Some(-1), [den, num, 0, 0, 0]);
        let report = data.render_at(0);
        let cell = format!("{:.2}", num as f64 / den as f64);
        let expected = format!("**Merge Rate**: {cell} | ");
        assert!(line_starting(&report, "**Merge Rate**: ").starts_with(&expected), "{num}/{den}");
    }
}

#[test]
fn fresh_snapshot_is_dated_today() {
    let today = (std::time::SystemTime::now()
        .duration_since(std::time::UNIX_EPOCH)
        .unwrap()
        .as_secs()
        / 86400) as i64;
    let data = GithubData::new();
    for w in [data.yesterday, data.last_week, data.last_month, data.last_year, data.all] {
        assert!(w.date == Some(today) || w.date == Some(today + 1));
        assert_eq!(
            (w.opened_prs, w.merged_prs, w.cancelled_prs, w.opened_issues, w.closed_issues),
            (0, 0, 0, 0, 0)
        );
    }
    assert_eq!(data.yesterday.date, data.all.date);
    assert_eq!((data.open_issues, data.open_pull_requests), (0, 0));
    assert!(data.stale_issues.is_empty() && data.most_recent_pull_requests.is_empty());
}

#[test]
fn window_links_search_date_ranges() {
    let mut data = GithubData::new();
    data.tally(19675 * DAY + 100, &[], &[]);
    let report = data.render_at(19675 * DAY + 100);
    let opened = line_starting(stats_section(&report), "**Opened PRs**: ");
    assert_eq!(
        opened,
        "**Opened PRs**: [0](https://github.com/rh-hideout/pokeemerald-expansion/pulls?q=is%3Apr+sort%3Aupdated-asc+created%3A2023-11-13) | [0](https://github.com/rh-hideout/pokeemerald-expansion/pulls?q=is%3Apr+sort%3Aupdated-asc+created%3A2023-11-06..2023-11-13) | [0](https://github.com/rh-hideout/pokeemerald-expansion/pulls?q=is%3Apr+sort%3Aupdated-asc+created%3A2023-10-14..2023-11-13) | [0](https://github.com/rh-hideout/pokeemerald-expansion/pulls?q=is%3Apr+sort%3Aupdated-asc+created%3A2022-11-13..2023-11-13) | [0](https://github.com/rh-hideout/pokeemerald-expansion/pulls?q=is%3Apr+sort%3Aupdated-asc)"
    );
    let closed = line_starting(&report, "**Closed Issues**: ");
    assert!(closed.starts_with("**Closed Issues**: [0](https://github.com/rh-hideout/pokeemerald-expansion/issues?q=is%253Aissue+is%253Aclosed+sort%3Aupdated-asc+closed%3A2023-11-13) | "));
}

#[test]
fn report_sections_in_order() {
    let issues = vec![issue(1, IssueState::Open, &["status: confirmed"])];
    let prs = vec![pr(2, PRState::Draft, IssueState::Open)];
    let mut data = GithubData::new();
    data.tally(101 * DAY, &issues, &prs);
    data.set_leaderboards(
        vec![issue(11, IssueState::Open, &[])],
        vec![pr(12, PRState::Open, IssueState::Open)],
        vec![issue(13, IssueState::Open, &[])],
        vec![pr(14, PRState::Open, IssueState::Open)],
    );
    let report = data.render_at(100 * DAY + 3 * 3600);
    let expected_head = "# Raw Stats (Currently Open)\n\n\
* [1 Issues](https://github.com/rh-hideout/pokeemerald-expansion/issues) ([1 Confirmed Bugs](https://github.com/rh-hideout/pokeemerald-expansion/issues?q=is%3Aissue+is%3Aopen+label%3A\"status%3A+confirmed\") / [0 Unconfirmed Bugs](https://github.com/rh-hideout/pokeemerald-expansion/issues?q=is%3Aissue+is%3Aopen+label%3A\"status%3A+unconfirmed\") / [0 Feature Requests](https://github.com/rh-hideout/pokeemerald-expansion/issues?q=is%3Aissue+is%3Aopen+label%3Afeature-request))\n\
* [1 Pull Requests](https://github.com/rh-hideout/pokeemerald-expansion/pulls?q=is%3Apr+is%3Aopen) ([0 Ready for Review](https://github.com/rh-hideout/pokeemerald-expansion/pulls?q=is%3Apr+is%3Aopen+draft%3Afalse) / [1 Draft](https://github.com/rh-hideout/pokeemerald-expansion/pulls?q=is%3Apr+is%3Aopen+draft%3Atrue))\n\
# Stales\n\n### [Pull Requests](https://github.com/rh-hideout/pokeemerald-expansion/pulls?q=is%3Apr+is%3Aopen+draft%3Afalse+sort%3Aupdated-asc)\n\
* [#12 - PR 12](https://github.com/rh-hideout/pokeemerald-expansion/pull/12) | Last updated 3 hours ago\n\
### [Bugs](https://github.com/rh-hideout/pokeemerald-expansion/issues?q=is%3Aopen+sort%3Aupdated-asc)\n\
* [#11 - Issue 11](https://github.com/rh-hideout/pokeemerald-expansion/issues/11) | Last updated 3 hours ago\n\
# Last Created\n\n### [Pull Requests](https://github.com/rh-hideout/pokeemerald-expansion/pulls?q=is%3Apr+is%3Aopen+sort%3Acreated-desc)\n\
* [#14 - PR 14](https://github.com/rh-hideout/pokeemerald-expansion/pull/14) | Last updated 3 hours ago\n\
### [Issues](https://github.com/rh-hideout/pokeemerald-expansion/issues?q=is%3Aissue+is%3Aopen+sort%3Acreated-desc))\n\
* [#13 - Issue 13](https://github.com/rh-hideout/pokeemerald-expansion/issues/13) | Last updated 3 hours ago\n\
# Stats\n\n";
    assert!(report.starts_with(expected_head), "{report}");
    assert!(report.ends_with("**Issue Growth**: 1 | 1 | 1 | 1 | 1\n\n"));
}

#[test]
fn list_lines_link_by_kind() {
    let i = issue(5, IssueState::Open, &[]);
    assert_eq!(
        i.list_render(100 * DAY + 20 * DAY, false),
        "* [#5 - Issue 5](https://github.com/rh-hideout/pokeemerald-expansion/issues/5) | Last updated 2 weeks ago\n"
    );
    assert_eq!(
        i.list_render(100 * DAY + 2 * DAY, true),
        "* [#5 - Issue 5](https://github.com/rh-hideout/pokeemerald-expansion/pull/5) | Last updated 2 days ago\n"
    );
    let p = pr(6, PRState::Open, IssueState::Open);
    assert_eq!(
        p.list_render(100 * DAY),
        "* [#6 - PR 6](https://github.com/rh-hideout/pokeemerald-expansion/pull/6) | Last updated 0 hours ago\n"
    );
}

#[test]
fn undated_windows_cannot_render() {
    let mut data = GithubData::new();
    assert!(data.can_render());
    data.last_month.date = None;
    assert!(!data.can_render());
    data.last_month.date = Some(95_026_237);
    assert!(!data.can_render());
    data.last_month.date = Some(95_026_236);
    assert!(data.can_render());
    data.last_month.date = Some(-96_465_293);
    assert!(!data.can_render());
    data.last_month.date = Some(-96_465_292);
    assert!(data.can_render());
}

#[test]
fn render_by_clock_has_no_leaderboard_ages_when_empty() {
    let data = GithubData::new();
    assert_eq!(data.render(), data.render_at(0));
}
