//! The Markdown rendering of a report snapshot.
use vstd::arithmetic::power2::{lemma2_to64, lemma_pow2_strictly_increases, pow2};
use vstd::prelude::*;

use crate::age::{age_text, elapsed, format_age, seconds_between, unix_now};
use crate::dates::{iso_date_text, push_date, MAX_DATED_DAY, MIN_DATED_DAY};
use crate::double::{
    double_hundredths, double_of_nat, double_of_nat_exec, hundredths_exec,
    lemma_bit_length_bounds, lemma_bit_length_le, nearest_double, nearest_double_exec,
};
use crate::records::{ParsedIssue, ParsedPR};
use crate::report::GithubData;
use crate::stats::TimedStats;
use crate::text::{decimal_text, digit_char, push_decimal, push_digit};

verus! {

pub const ISSUE_URL: &'static str = "https://github.com/rh-hideout/pokeemerald-expansion/issues";

pub const PRS_URL: &'static str = "https://github.com/rh-hideout/pokeemerald-expansion/pulls";

pub const PR_URL: &'static str = "https://github.com/rh-hideout/pokeemerald-expansion/pull";

pub const PR_OPENED: &'static str =
    "https://github.com/rh-hideout/pokeemerald-expansion/pulls?q=is%3Apr+sort%3Aupdated-asc";

pub const PR_MERGED: &'static str =
    "https://github.com/rh-hideout/pokeemerald-expansion/pulls?q=is%3Apr+is%3Amerged+sort%3Aupdated-asc+draft%3Afalse";

pub const ISSUE_OPENED: &'static str =
    "https://github.com/rh-hideout/pokeemerald-expansion/issues?q=is%253Aissue+sort%3Aupdated-asc";

pub const ISSUE_CLOSED: &'static str =
    "https://github.com/rh-hideout/pokeemerald-expansion/issues?q=is%253Aissue+is%253Aclosed+sort%3Aupdated-asc";

pub const CREATED_QUALIFIER: &'static str = "+created%3A";

pub const MERGED_QUALIFIER: &'static str = "+merged%3A";

pub const CLOSED_QUALIFIER: &'static str = "+closed%3A";

/// One leaderboard line: `* [#id - title](url/id) | age` and a line break.
pub open spec fn item_text(id: nat, title: Seq<char>, url: Seq<char>, updated: int, now: int) -> Seq<char> {
    "* [#"@ + decimal_text(id) + " - "@ + title + "]("@ + url + "/"@ + decimal_text(id) + ") | "@
        + age_text(elapsed(updated, now)) + "\n"@
}

fn render_item(id: u64, title: &String, url: &str, updated: i64, now: i64) -> (r: String)
    ensures
        r@ == item_text(id as nat, title@, url@, updated as int, now as int),
{
    let mut out = "* [#".to_owned();
    push_decimal(&mut out, id as u128);
    out.append(" - ");
    out.append(title.as_str());
    out.append("](");
    out.append(url);
    out.append("/");
    push_decimal(&mut out, id as u128);
    out.append(") | ");
    let age = format_age(seconds_between(updated, now));
    out.append(age.as_str());
    out.append("\n");
    out
}

impl ParsedIssue {
    /// The leaderboard line of this issue as of the instant `now`, linked under
    /// the pull-request path when `is_pr` is set.
    pub fn list_render(&self, now: i64, is_pr: bool) -> (r: String)
        ensures
            r@ == item_text(
                self.id as nat,
                self.title@,
                if is_pr {
                    PR_URL@
                } else {
                    ISSUE_URL@
                },
                self.updated_date as int,
                now as int,
            ),
    {
        let url = if is_pr {
            PR_URL
        } else {
            ISSUE_URL
        };
        render_item(self.id, &self.title, url, self.updated_date, now)
    }
}

impl ParsedPR {
    /// The leaderboard line of this pull request as of the instant `now`.
    pub fn list_render(&self, now: i64) -> (r: String)
        ensures
            r@ == item_text(self.id as nat, self.title@, PR_URL@, self.updated_date as int, now as int),
    {
        render_item(self.id, &self.title, PR_URL, self.updated_date, now)
    }
}

pub open spec fn issue_list_text(issues: Seq<ParsedIssue>, now: int) -> Seq<char>
    decreases issues.len(),
{
    if issues.len() == 0 {
        seq![]
    } else {
        issue_list_text(issues.drop_last(), now) + item_text(
            issues.last().id as nat,
            issues.last().title@,
            ISSUE_URL@,
            issues.last().updated_date as int,
            now,
        )
    }
}

pub open spec fn pr_list_text(prs: Seq<ParsedPR>, now: int) -> Seq<char>
    decreases prs.len(),
{
    if prs.len() == 0 {
        seq![]
    } else {
        pr_list_text(prs.drop_last(), now) + item_text(
            prs.last().id as nat,
            prs.last().title@,
            PR_URL@,
            prs.last().updated_date as int,
            now,
        )
    }
}

fn push_issue_list(out: &mut String, issues: &Vec<ParsedIssue>, now: i64)
    ensures
        final(out)@ == old(out)@ + issue_list_text(issues@, now as int),
{
    let ghost start = out@;
    let mut i: usize = 0;
    while i < issues.len()
        invariant
            i <= issues@.len(),
            out@ == start + issue_list_text(issues@.take(i as int), now as int),
        decreases issues@.len() - i,
    {
        let line = issues[i].list_render(now, false);
        proof {
            assert(issues@.take(i + 1).drop_last() =~= issues@.take(i as int));
        }
        out.append(line.as_str());
        i = i + 1;
    }
    assert(issues@.take(issues@.len() as int) =~= issues@);
}

fn push_pr_list(out: &mut String, prs: &Vec<ParsedPR>, now: i64)
    ensures
        final(out)@ == old(out)@ + pr_list_text(prs@, now as int),
{
    let ghost start = out@;
    let mut i: usize = 0;
    while i < prs.len()
        invariant
            i <= prs@.len(),
            out@ == start + pr_list_text(prs@.take(i as int), now as int),
        decreases prs@.len() - i,
    {
        let line = prs[i].list_render(now);
        proof {
            assert(prs@.take(i + 1).drop_last() =~= prs@.take(i as int));
        }
        out.append(line.as_str());
        i = i + 1;
    }
    assert(prs@.take(prs@.len() as int) =~= prs@);
}


/// A ratio of two counts as a float division writes it with two decimals:
/// each count is taken to its nearest double, the quotient is the double
/// nearest to their ratio, and its exact value is rounded to hundredths, a tie
/// going to the even digit. With nothing below the line the ratio is
/// undefined: `NaN` for zero over zero, `inf` otherwise.
pub open spec fn rate_text(num: nat, den: nat) -> Seq<char> {
    if den == 0 {
        if num == 0 {
            "NaN"@
        } else {
            "inf"@
        }
    } else if num == 0 {
        "0.00"@
    } else {
        hundredths_text(
            double_hundredths(nearest_double(double_of_nat(num), double_of_nat(den))),
        )
    }
}

/// A number of hundredths written with two decimals.
pub open spec fn hundredths_text(h: nat) -> Seq<char> {
    decimal_text(h / 100) + "."@ + seq![digit_char((h % 100) / 10), digit_char(h % 10)]
}

/// `plus - minus` as a signed decimal.
pub open spec fn growth_text(plus: nat, minus: nat) -> Seq<char> {
    if plus >= minus {
        decimal_text((plus - minus) as nat)
    } else {
        "-"@ + decimal_text((minus - plus) as nat)
    }
}

fn push_rate(out: &mut String, num: usize, den: usize)
    ensures
        final(out)@ == old(out)@ + rate_text(num as nat, den as nat),
{
    if den == 0 {
        if num == 0 {
            out.append("NaN");
        } else {
            out.append("inf");
        }
    } else if num == 0 {
        out.append("0.00");
    } else {
        proof {
            lemma_usize_below_pow2_64(num);
            lemma_usize_below_pow2_64(den);
        }
        let top = double_of_nat_exec(num as u128);
        let bottom = double_of_nat_exec(den as u128);
        proof {
            lemma_pow2_le_68();
        }
        let (significand, shift) = nearest_double_exec(top, bottom);
        proof {
            lemma_bit_length_le(top as nat, 66);
            lemma_bit_length_le(bottom as nat, 66);
            lemma_bit_length_bounds(top as nat);
            lemma_bit_length_bounds(bottom as nat);
        }
        let h = hundredths_exec(significand, shift);
        push_decimal(out, h / 100);
        out.append(".");
        let f: u64 = (h % 100) as u64;
        push_digit(out, f / 10);
        push_digit(out, f % 10);
    }
    assert(out@ =~= old(out)@ + rate_text(num as nat, den as nat));
}

proof fn lemma_usize_below_pow2_64(n: usize)
    ensures
        (n as nat) < pow2(64),
{
    lemma2_to64();
}

proof fn lemma_pow2_le_68()
    ensures
        pow2(65) < pow2(66),
        pow2(66) < pow2(68),
{
    lemma_pow2_strictly_increases(65, 66);
    lemma_pow2_strictly_increases(66, 68);
}

fn push_growth(out: &mut String, plus: usize, minus: usize)
    ensures
        final(out)@ == old(out)@ + growth_text(plus as nat, minus as nat),
{
    if plus >= minus {
        push_decimal(out, (plus - minus) as u128);
    } else {
        out.append("-");
        push_decimal(out, (minus - plus) as u128);
        assert(out@ =~= old(out)@ + growth_text(plus as nat, minus as nat));
    }
}

/// `[n](url)`.
pub open spec fn link_text(n: nat, url: Seq<char>) -> Seq<char> {
    "["@ + decimal_text(n) + "]("@ + url + ")"@
}

fn push_link(out: &mut String, n: usize, base: &str, qualifier: &str, span: &str)
    ensures
        final(out)@ == old(out)@ + link_text(n as nat, base@ + qualifier@ + span@),
{
    out.append("[");
    push_decimal(out, n as u128);
    out.append("](");
    out.append(base);
    out.append(qualifier);
    out.append(span);
    out.append(")");
    assert(out@ =~= old(out)@ + link_text(n as nat, base@ + qualifier@ + span@));
}

fn push_plain_link(out: &mut String, n: usize, url: &str)
    ensures
        final(out)@ == old(out)@ + link_text(n as nat, url@),
{
    out.append("[");
    push_decimal(out, n as u128);
    out.append("](");
    out.append(url);
    out.append(")");
    assert(out@ =~= old(out)@ + link_text(n as nat, url@));
}

/// A count of each of the five windows.
pub enum Metric {
    OpenedPrs,
    MergedPrs,
    OpenedIssues,
    ClosedIssues,
}

pub open spec fn metric_of(stats: TimedStats, m: Metric) -> nat {
    match m {
        Metric::OpenedPrs => stats.opened_prs as nat,
        Metric::MergedPrs => stats.merged_prs as nat,
        Metric::OpenedIssues => stats.opened_issues as nat,
        Metric::ClosedIssues => stats.closed_issues as nat,
    }
}

fn metric(stats: &TimedStats, m: &Metric) -> (r: usize)
    ensures
        r as nat == metric_of(*stats, *m),
{
    match m {
        Metric::OpenedPrs => stats.opened_prs,
        Metric::MergedPrs => stats.merged_prs,
        Metric::OpenedIssues => stats.opened_issues,
        Metric::ClosedIssues => stats.closed_issues,
    }
}

/// The date ranges that the links of the first four windows search:
/// yesterday, and from each window's first day to yesterday.
pub struct DateSpans {
    pub yesterday: Seq<char>,
    pub last_week: Seq<char>,
    pub last_month: Seq<char>,
    pub last_year: Seq<char>,
}

pub open spec fn range_text(from: int, to: int) -> Seq<char> {
    iso_date_text(from) + ".."@ + iso_date_text(to)
}

pub open spec fn date_spans(d: GithubData) -> DateSpans {
    let y = d.yesterday.date->Some_0 as int;
    DateSpans {
        yesterday: iso_date_text(y),
        last_week: range_text(d.last_week.date->Some_0 as int, y),
        last_month: range_text(d.last_month.date->Some_0 as int, y),
        last_year: range_text(d.last_year.date->Some_0 as int, y),
    }
}

/// A row of five linked counts; the first four links search their window's
/// date range with `qualifier`, the last one searches all time.
#[verifier::opaque]
pub open spec fn count_row(
    d: GithubData,
    title: Seq<char>,
    base: Seq<char>,
    qualifier: Seq<char>,
    m: Metric,
) -> Seq<char> {
    let spans = date_spans(d);
    title + link_text(metric_of(d.yesterday, m), base + qualifier + spans.yesterday) + " | "@
        + link_text(metric_of(d.last_week, m), base + qualifier + spans.last_week) + " | "@
        + link_text(metric_of(d.last_month, m), base + qualifier + spans.last_month) + " | "@
        + link_text(metric_of(d.last_year, m), base + qualifier + spans.last_year) + " | "@
        + link_text(metric_of(d.all, m), base) + "\n\n"@
}

/// A row of the five windows' ratios of `num` to `den`.
#[verifier::opaque]
pub open spec fn rate_row(d: GithubData, title: Seq<char>, num: Metric, den: Metric) -> Seq<char> {
    title + rate_text(metric_of(d.yesterday, num), metric_of(d.yesterday, den)) + " | "@
        + rate_text(metric_of(d.last_week, num), metric_of(d.last_week, den)) + " | "@
        + rate_text(metric_of(d.last_month, num), metric_of(d.last_month, den)) + " | "@
        + rate_text(metric_of(d.last_year, num), metric_of(d.last_year, den)) + " | "@
        + rate_text(metric_of(d.all, num), metric_of(d.all, den)) + "\n\n"@
}

/// A row of the five windows' differences `plus - minus`.
#[verifier::opaque]
pub open spec fn growth_row(d: GithubData, title: Seq<char>, plus: Metric, minus: Metric) -> Seq<char> {
    title + growth_text(metric_of(d.yesterday, plus), metric_of(d.yesterday, minus)) + " | "@
        + growth_text(metric_of(d.last_week, plus), metric_of(d.last_week, minus)) + " | "@
        + growth_text(metric_of(d.last_month, plus), metric_of(d.last_month, minus)) + " | "@
        + growth_text(metric_of(d.last_year, plus), metric_of(d.last_year, minus)) + " | "@
        + growth_text(metric_of(d.all, plus), metric_of(d.all, minus)) + "\n\n"@
}

fn push_rate_row(out: &mut String, d: &GithubData, title: &str, num: Metric, den: Metric)
    ensures
        final(out)@ == old(out)@ + rate_row(*d, title@, num, den),
{
    reveal(rate_row);
    out.append(title);
    push_rate(out, metric(&d.yesterday, &num), metric(&d.yesterday, &den));
    out.append(" | ");
    push_rate(out, metric(&d.last_week, &num), metric(&d.last_week, &den));
    out.append(" | ");
    push_rate(out, metric(&d.last_month, &num), metric(&d.last_month, &den));
    out.append(" | ");
    push_rate(out, metric(&d.last_year, &num), metric(&d.last_year, &den));
    out.append(" | ");
    push_rate(out, metric(&d.all, &num), metric(&d.all, &den));
    out.append("\n\n");
    assert(out@ =~= old(out)@ + rate_row(*d, title@, num, den));
}

fn push_growth_row(out: &mut String, d: &GithubData, title: &str, plus: Metric, minus: Metric)
    ensures
        final(out)@ == old(out)@ + growth_row(*d, title@, plus, minus),
{
    reveal(growth_row);
    out.append(title);
    push_growth(out, metric(&d.yesterday, &plus), metric(&d.yesterday, &minus));
    out.append(" | ");
    push_growth(out, metric(&d.last_week, &plus), metric(&d.last_week, &minus));
    out.append(" | ");
    push_growth(out, metric(&d.last_month, &plus), metric(&d.last_month, &minus));
    out.append(" | ");
    push_growth(out, metric(&d.last_year, &plus), metric(&d.last_year, &minus));
    out.append(" | ");
    push_growth(out, metric(&d.all, &plus), metric(&d.all, &minus));
    out.append("\n\n");
    assert(out@ =~= old(out)@ + growth_row(*d, title@, plus, minus));
}

fn push_count_row(
    out: &mut String,
    d: &GithubData,
    spans: &(String, String, String, String),
    title: &str,
    base: &str,
    qualifier: &str,
    m: Metric,
)
    requires
        spans.0@ == date_spans(*d).yesterday,
        spans.1@ == date_spans(*d).last_week,
        spans.2@ == date_spans(*d).last_month,
        spans.3@ == date_spans(*d).last_year,
    ensures
        final(out)@ == old(out)@ + count_row(*d, title@, base@, qualifier@, m),
{
    reveal(count_row);
    out.append(title);
    push_link(out, metric(&d.yesterday, &m), base, qualifier, spans.0.as_str());
    out.append(" | ");
    push_link(out, metric(&d.last_week, &m), base, qualifier, spans.1.as_str());
    out.append(" | ");
    push_link(out, metric(&d.last_month, &m), base, qualifier, spans.2.as_str());
    out.append(" | ");
    push_link(out, metric(&d.last_year, &m), base, qualifier, spans.3.as_str());
    out.append(" | ");
    push_plain_link(out, metric(&d.all, &m), base);
    out.append("\n\n");
    assert(out@ =~= old(out)@ + count_row(*d, title@, base@, qualifier@, m));
}

fn range_string(from: i64, to: i64) -> (r: String)
    requires
        MIN_DATED_DAY <= from <= MAX_DATED_DAY,
        MIN_DATED_DAY <= to <= MAX_DATED_DAY,
    ensures
        r@ == range_text(from as int, to as int),
{
    let mut out = String::new();
    push_date(&mut out, from);
    out.append("..");
    push_date(&mut out, to);
    assert(out@ =~= range_text(from as int, to as int));
    out
}

pub const STATS_INTRO: &'static str = "# Stats\n\nAll stats are displayed as:\n\n**Metric**: yesterday | last 7 days | last 30 days | last 365 days | all time.\n\nRate is \"For every X created, how many are completed?\". For example, 2 means \"For every bug that came in this month, we solved two of them\".\n\nGrowth is how many more of these occured in this time period. For example, -14 means \"This week we merged/closed 14 PRs\".\n\n";

/// `[n<label>](url)`.
pub open spec fn labeled_link(n: nat, label: Seq<char>, url: Seq<char>) -> Seq<char> {
    "["@ + decimal_text(n) + label + "]("@ + url + ")"@
}

fn push_labeled_link(out: &mut String, n: usize, label: &str, base: &str, query: &str)
    ensures
        final(out)@ == old(out)@ + labeled_link(n as nat, label@, base@ + query@),
{
    out.append("[");
    push_decimal(out, n as u128);
    out.append(label);
    out.append("](");
    out.append(base);
    out.append(query);
    out.append(")");
    assert(out@ =~= old(out)@ + labeled_link(n as nat, label@, base@ + query@));
}

/// The open issues, and how many of them fall under each category.
#[verifier::opaque]
pub open spec fn open_issues_line(d: GithubData) -> Seq<char> {
    "* "@ + labeled_link(d.open_issues as nat, " Issues"@, ISSUE_URL@ + ""@) + " ("@
        + labeled_link(
        d.confirmed_issues as nat,
        " Confirmed Bugs"@,
        ISSUE_URL@ + "?q=is%3Aissue+is%3Aopen+label%3A\"status%3A+confirmed\""@,
    ) + " / "@ + labeled_link(
        d.unconfirmed_issues as nat,
        " Unconfirmed Bugs"@,
        ISSUE_URL@ + "?q=is%3Aissue+is%3Aopen+label%3A\"status%3A+unconfirmed\""@,
    ) + " / "@ + labeled_link(
        d.feature_requests as nat,
        " Feature Requests"@,
        ISSUE_URL@ + "?q=is%3Aissue+is%3Aopen+label%3Afeature-request"@,
    ) + ")\n"@
}

/// The open pull requests, and how many of them are ready or drafts.
#[verifier::opaque]
pub open spec fn open_prs_line(d: GithubData) -> Seq<char> {
    "* "@ + labeled_link(
        d.open_pull_requests as nat,
        " Pull Requests"@,
        PRS_URL@ + "?q=is%3Apr+is%3Aopen"@,
    ) + " ("@ + labeled_link(
        d.ready_pull_requests as nat,
        " Ready for Review"@,
        PRS_URL@ + "?q=is%3Apr+is%3Aopen+draft%3Afalse"@,
    ) + " / "@ + labeled_link(
        d.draft_pull_requests as nat,
        " Draft"@,
        PRS_URL@ + "?q=is%3Apr+is%3Aopen+draft%3Atrue"@,
    ) + ")\n"@
}

/// The counts of what is open now, each linked to its search.
pub open spec fn raw_stats_text(d: GithubData) -> Seq<char> {
    "# Raw Stats (Currently Open)\n\n"@ + open_issues_line(d) + open_prs_line(d)
}

/// The least recently updated pull requests and bugs.
pub open spec fn stales_text(d: GithubData, now: int) -> Seq<char> {
    "# Stales\n\n### [Pull Requests](https://github.com/rh-hideout/pokeemerald-expansion/pulls?q=is%3Apr+is%3Aopen+draft%3Afalse+sort%3Aupdated-asc)\n"@
        + pr_list_text(d.stale_pull_requests@, now)
        + "### [Bugs](https://github.com/rh-hideout/pokeemerald-expansion/issues?q=is%3Aopen+sort%3Aupdated-asc)\n"@
        + issue_list_text(d.stale_issues@, now)
}

/// The most recently created pull requests and issues.
pub open spec fn last_created_text(d: GithubData, now: int) -> Seq<char> {
    "# Last Created\n\n### [Pull Requests](https://github.com/rh-hideout/pokeemerald-expansion/pulls?q=is%3Apr+is%3Aopen+sort%3Acreated-desc)\n"@
        + pr_list_text(d.most_recent_pull_requests@, now)
        + "### [Issues](https://github.com/rh-hideout/pokeemerald-expansion/issues?q=is%3Aissue+is%3Aopen+sort%3Acreated-desc))\n"@
        + issue_list_text(d.most_recent_issues@, now)
}

/// The five-window table: pull requests, then issues.
pub open spec fn stats_text(d: GithubData) -> Seq<char> {
    STATS_INTRO@ + count_row(
        d,
        "## Pull Requests\n\n**Opened PRs**: "@,
        PR_OPENED@,
        CREATED_QUALIFIER@,
        Metric::OpenedPrs,
    ) + count_row(d, "**Merged PRs**: "@, PR_MERGED@, MERGED_QUALIFIER@, Metric::MergedPrs)
        + rate_row(d, "**Merge Rate**: "@, Metric::MergedPrs, Metric::OpenedPrs) + growth_row(
        d,
        "**PR Growth**: "@,
        Metric::OpenedPrs,
        Metric::MergedPrs,
    ) + count_row(
        d,
        "## Issues\n\n**Opened Issues**: "@,
        ISSUE_OPENED@,
        CREATED_QUALIFIER@,
        Metric::OpenedIssues,
    ) + count_row(
        d,
        "**Closed Issues**: "@,
        ISSUE_CLOSED@,
        CLOSED_QUALIFIER@,
        Metric::ClosedIssues,
    ) + rate_row(d, "**Resolution Rate**: "@, Metric::ClosedIssues, Metric::OpenedIssues)
        + growth_row(d, "**Issue Growth**: "@, Metric::OpenedIssues, Metric::ClosedIssues)
}

/// The whole report of `d`, ages taken as of the instant `now`.
pub open spec fn report_text(d: GithubData, now: int) -> Seq<char> {
    raw_stats_text(d) + stales_text(d, now) + last_created_text(d, now) + stats_text(d)
}

pub open spec fn dated_in_range(stats: TimedStats) -> bool {
    stats.date is Some && MIN_DATED_DAY <= stats.date->Some_0 <= MAX_DATED_DAY
}

impl GithubData {
    /// The four dated windows are anchored at days that can be written as dates.
    pub open spec fn dates_in_range(self) -> bool {
        &&& dated_in_range(self.yesterday)
        &&& dated_in_range(self.last_week)
        &&& dated_in_range(self.last_month)
        &&& dated_in_range(self.last_year)
    }

    pub fn can_render(&self) -> (r: bool)
        ensures
            r == self.dates_in_range(),
    {
        in_range(&self.yesterday) && in_range(&self.last_week) && in_range(&self.last_month)
            && in_range(&self.last_year)
    }

    /// The Markdown report, with leaderboard ages taken as of the instant `now`.
    pub fn render_at(&self, now: i64) -> (r: String)
        requires
            self.dates_in_range(),
        ensures
            r@ == report_text(*self, now as int),
    {
        let mut md = String::new();
        push_raw_stats(&mut md, self);
        push_stales(&mut md, self, now);
        push_last_created(&mut md, self, now);
        push_stats(&mut md, self);
        assert(md@ =~= report_text(*self, now as int));
        md
    }

    /// The Markdown report, with leaderboard ages taken by the system clock.
    pub fn render(&self) -> (r: String)
        requires
            self.dates_in_range(),
        ensures
            exists|now: i64| r@ == report_text(*self, now as int),
    {
        let now = unix_now();
        self.render_at(now)
    }
}

fn in_range(stats: &TimedStats) -> (r: bool)
    ensures
        r == dated_in_range(*stats),
{
    match stats.date {
        Some(d) => MIN_DATED_DAY <= d && d <= MAX_DATED_DAY,
        None => false,
    }
}

fn push_open_issues_line(out: &mut String, d: &GithubData)
    ensures
        final(out)@ == old(out)@ + open_issues_line(*d),
{
    reveal(open_issues_line);
    out.append("* ");
    push_labeled_link(out, d.open_issues, " Issues", ISSUE_URL, "");
    out.append(" (");
    push_labeled_link(
        out,
        d.confirmed_issues,
        " Confirmed Bugs",
        ISSUE_URL,
        "?q=is%3Aissue+is%3Aopen+label%3A\"status%3A+confirmed\"",
    );
    out.append(" / ");
    push_labeled_link(
        out,
        d.unconfirmed_issues,
        " Unconfirmed Bugs",
        ISSUE_URL,
        "?q=is%3Aissue+is%3Aopen+label%3A\"status%3A+unconfirmed\"",
    );
    out.append(" / ");
    push_labeled_link(
        out,
        d.feature_requests,
        " Feature Requests",
        ISSUE_URL,
        "?q=is%3Aissue+is%3Aopen+label%3Afeature-request",
    );
    out.append(")\n");
    assert(out@ =~= old(out)@ + open_issues_line(*d));
}

fn push_open_prs_line(out: &mut String, d: &GithubData)
    ensures
        final(out)@ == old(out)@ + open_prs_line(*d),
{
    reveal(open_prs_line);
    out.append("* ");
    push_labeled_link(out, d.open_pull_requests, " Pull Requests", PRS_URL, "?q=is%3Apr+is%3Aopen");
    out.append(" (");
    push_labeled_link(
        out,
        d.ready_pull_requests,
        " Ready for Review",
        PRS_URL,
        "?q=is%3Apr+is%3Aopen+draft%3Afalse",
    );
    out.append(" / ");
    push_labeled_link(
        out,
        d.draft_pull_requests,
        " Draft",
        PRS_URL,
        "?q=is%3Apr+is%3Aopen+draft%3Atrue",
    );
    out.append(")\n");
    assert(out@ =~= old(out)@ + open_prs_line(*d));
}

fn push_raw_stats(out: &mut String, d: &GithubData)
    ensures
        final(out)@ == old(out)@ + raw_stats_text(*d),
{
    out.append("# Raw Stats (Currently Open)\n\n");
    push_open_issues_line(out, d);
    push_open_prs_line(out, d);
    assert(out@ =~= old(out)@ + raw_stats_text(*d));
}

fn push_stales(out: &mut String, d: &GithubData, now: i64)
    ensures
        final(out)@ == old(out)@ + stales_text(*d, now as int),
{
    out.append(
        "# Stales\n\n### [Pull Requests](https://github.com/rh-hideout/pokeemerald-expansion/pulls?q=is%3Apr+is%3Aopen+draft%3Afalse+sort%3Aupdated-asc)\n",
    );
    push_pr_list(out, &d.stale_pull_requests, now);
    out.append(
        "### [Bugs](https://github.com/rh-hideout/pokeemerald-expansion/issues?q=is%3Aopen+sort%3Aupdated-asc)\n",
    );
    push_issue_list(out, &d.stale_issues, now);
    assert(out@ =~= old(out)@ + stales_text(*d, now as int));
}

fn push_last_created(out: &mut String, d: &GithubData, now: i64)
    ensures
        final(out)@ == old(out)@ + last_created_text(*d, now as int),
{
    out.append(
        "# Last Created\n\n### [Pull Requests](https://github.com/rh-hideout/pokeemerald-expansion/pulls?q=is%3Apr+is%3Aopen+sort%3Acreated-desc)\n",
    );
    push_pr_list(out, &d.most_recent_pull_requests, now);
    out.append(
        "### [Issues](https://github.com/rh-hideout/pokeemerald-expansion/issues?q=is%3Aissue+is%3Aopen+sort%3Acreated-desc))\n",
    );
    push_issue_list(out, &d.most_recent_issues, now);
    assert(out@ =~= old(out)@ + last_created_text(*d, now as int));
}

fn push_stats(out: &mut String, d: &GithubData)
    requires
        d.dates_in_range(),
    ensures
        final(out)@ == old(out)@ + stats_text(*d),
{
    let y = match d.yesterday.date {
        Some(y) => y,
        None => 0,
    };
    let w = match d.last_week.date {
        Some(w) => w,
        None => 0,
    };
    let m = match d.last_month.date {
        Some(m) => m,
        None => 0,
    };
    let a = match d.last_year.date {
        Some(a) => a,
        None => 0,
    };
    let mut ys = String::new();
    push_date(&mut ys, y);
    assert(ys@ =~= iso_date_text(y as int));
    let spans = (ys, range_string(w, y), range_string(m, y), range_string(a, y));
    out.append(STATS_INTRO);
    push_count_row(
        out,
        d,
        &spans,
        "## Pull Requests\n\n**Opened PRs**: ",
        PR_OPENED,
        CREATED_QUALIFIER,
        Metric::OpenedPrs,
    );
    push_count_row(out, d, &spans, "**Merged PRs**: ", PR_MERGED, MERGED_QUALIFIER, Metric::MergedPrs);
    push_rate_row(out, d, "**Merge Rate**: ", Metric::MergedPrs, Metric::OpenedPrs);
    push_growth_row(out, d, "**PR Growth**: ", Metric::OpenedPrs, Metric::MergedPrs);
    push_count_row(
        out,
        d,
        &spans,
        "## Issues\n\n**Opened Issues**: ",
        ISSUE_OPENED,
        CREATED_QUALIFIER,
        Metric::OpenedIssues,
    );
    push_count_row(
        out,
        d,
        &spans,
        "**Closed Issues**: ",
        ISSUE_CLOSED,
        CLOSED_QUALIFIER,
        Metric::ClosedIssues,
    );
    push_rate_row(out, d, "**Resolution Rate**: ", Metric::ClosedIssues, Metric::OpenedIssues);
    push_growth_row(out, d, "**Issue Growth**: ", Metric::OpenedIssues, Metric::ClosedIssues);
    assert(out@ =~= old(out)@ + stats_text(*d));
}

} // verus!
