//! Read-only reporting over the issue store: the issue list and the
//! dashboard aggregates.
//!
//! Dates are carried as day numbers (seconds since the epoch divided by
//! the length of a day); the caller supplies the current day.

use vstd::prelude::*;
use vstd::arithmetic::div_mod::{lemma_div_is_ordered, lemma_div_multiples_vanish};

use crate::record::{opt_view, strings_view, IssueRecord, RecordView, SECONDS_PER_DAY};
use crate::store::{store_wf, IssueStore};

verus! {

/// The day number a creation time falls on.
pub open spec fn day_of(t: i64) -> int {
    t as int / (SECONDS_PER_DAY as int)
}

/// How many records satisfy a predicate.
pub open spec fn count_records(s: Seq<RecordView>, p: spec_fn(RecordView) -> bool) -> nat
    decreases s.len(),
{
    if s.len() == 0 {
        0
    } else {
        count_records(s.drop_last(), p) + (if p(s.last()) {
            1nat
        } else {
            0nat
        })
    }
}

/// Counting never exceeds the number of records.
pub proof fn lemma_count_records_le_len(s: Seq<RecordView>, p: spec_fn(RecordView) -> bool)
    ensures
        count_records(s, p) <= s.len(),
    decreases s.len(),
{
    if s.len() > 0 {
        lemma_count_records_le_len(s.drop_last(), p);
    }
}

/// One row of the issue list served to the reporting layer.
pub struct Issue {
    pub original_poster: Option<String>,
    pub discord_thread_link: String,
    pub severity: i16,
    pub first_responder: Option<String>,
    pub github_link: Option<String>,
    pub resolved_by: Option<String>,
    pub categories: Option<Vec<String>>,
    pub creation_date: i64,
}

/// Mathematical model of an `Issue` row.
pub struct IssueView {
    pub original_poster: Option<Seq<char>>,
    pub discord_thread_link: Seq<char>,
    pub severity: i16,
    pub first_responder: Option<Seq<char>>,
    pub github_link: Option<Seq<char>>,
    pub resolved_by: Option<Seq<char>>,
    pub categories: Option<Seq<Seq<char>>>,
    pub creation_date: i64,
}

impl View for Issue {
    type V = IssueView;

    open spec fn view(&self) -> IssueView {
        IssueView {
            original_poster: opt_view(self.original_poster),
            discord_thread_link: self.discord_thread_link@,
            severity: self.severity,
            first_responder: opt_view(self.first_responder),
            github_link: opt_view(self.github_link),
            resolved_by: opt_view(self.resolved_by),
            categories: match self.categories {
                Option::Some(v) => Option::Some(strings_view(v@)),
                Option::None => Option::None,
            },
            creation_date: self.creation_date,
        }
    }
}

/// The issue-list row a record is reported as.
pub open spec fn issue_of_record(r: RecordView) -> IssueView {
    IssueView {
        original_poster: r.original_poster,
        discord_thread_link: r.thread_link,
        severity: r.severity,
        first_responder: r.first_responder,
        github_link: r.github_link,
        resolved_by: r.resolved_by,
        categories: Option::Some(r.categories),
        creation_date: day_of(r.creation_time) as i64,
    }
}

/// Threads still waiting for someone: no first responder yet, not yet
/// resolved, or elevated but not yet resolved.
pub struct IssuesAwaitingResponse {
    pub unanswered_threads: i64,
    pub unresolved_issues: i64,
    pub unresolved_github_issues: i64,
}

/// How many threads were opened on one day.
pub struct IssuesOpenedLastWeek {
    pub day: i64,
    pub total_issues_per_day: i64,
}

/// Seconds from a record's creation to its first response, floored at
/// zero; zero when no response is recorded.
pub open spec fn response_secs(r: RecordView) -> int {
    match r.first_response_time {
        Option::Some(t) => if t >= r.creation_time {
            t - r.creation_time
        } else {
            0
        },
        Option::None => 0,
    }
}

/// Total response seconds over all answered records.
pub open spec fn response_time_sum(s: Seq<RecordView>) -> int
    decreases s.len(),
{
    if s.len() == 0 {
        0
    } else {
        response_time_sum(s.drop_last()) + response_secs(s.last())
    }
}

/// The average response time in seconds over the answered records, `None`
/// when no record is answered yet.
pub open spec fn spec_average_response(s: Seq<RecordView>) -> Option<i64> {
    let c = count_records(s, |rv: RecordView| rv.first_response_time is Some);
    if c == 0 {
        Option::None
    } else {
        Option::Some((response_time_sum(s) / c as int) as i64)
    }
}

/// How often a name occurs in a list of names.
pub open spec fn count_occ(ns: Seq<Seq<char>>, v: Seq<char>) -> nat
    decreases ns.len(),
{
    if ns.len() == 0 {
        0
    } else {
        count_occ(ns.drop_last(), v) + (if ns.last() == v {
            1nat
        } else {
            0nat
        })
    }
}

/// Position `b` holds the first occurrence of its name.
pub open spec fn is_first_occurrence(ns: Seq<Seq<char>>, b: int) -> bool {
    &&& 0 <= b < ns.len()
    &&& forall|j: int| 0 <= j < b ==> ns[j] != ns[b]
}

/// Position `b` names the best performer: the most frequent name, and the
/// earliest-appearing of the names tied for that frequency.
pub open spec fn is_best_at(ns: Seq<Seq<char>>, b: int) -> bool {
    &&& is_first_occurrence(ns, b)
    &&& forall|j: int| 0 <= j < ns.len() ==> count_occ(ns, #[trigger] ns[j]) <= count_occ(ns, ns[b])
    &&& forall|j: int|
        #[trigger] is_first_occurrence(ns, j) && count_occ(ns, ns[j]) == count_occ(ns, ns[b])
            ==> b <= j
}

/// The best performer of a list of names, `None` when the list is empty.
pub open spec fn best_of(ns: Seq<Seq<char>>) -> Option<Seq<char>> {
    if ns.len() == 0 {
        Option::None
    } else {
        Option::Some(ns[choose|b: int| is_best_at(ns, b)])
    }
}

/// The best position is unique.
pub proof fn lemma_best_at_unique(ns: Seq<Seq<char>>, b1: int, b2: int)
    requires
        is_best_at(ns, b1),
        is_best_at(ns, b2),
    ensures
        b1 == b2,
{
    assert(count_occ(ns, ns[b1]) <= count_occ(ns, ns[b2]));
    assert(count_occ(ns, ns[b2]) <= count_occ(ns, ns[b1]));
    assert(b1 <= b2);
    assert(b2 <= b1);
}

/// The resolver names of the resolved records, in store order.
pub open spec fn resolver_names(s: Seq<RecordView>) -> Seq<Seq<char>>
    decreases s.len(),
{
    if s.len() == 0 {
        Seq::empty()
    } else {
        resolver_names(s.drop_last()) + (match s.last().resolved_by {
            Option::Some(v) => seq![v],
            Option::None => Seq::empty(),
        })
    }
}

/// The first-responder names of the answered records, in store order.
pub open spec fn responder_names(s: Seq<RecordView>) -> Seq<Seq<char>>
    decreases s.len(),
{
    if s.len() == 0 {
        Seq::empty()
    } else {
        responder_names(s.drop_last()) + (match s.last().first_responder {
            Option::Some(v) => seq![v],
            Option::None => Seq::empty(),
        })
    }
}

/// How often a name occurs in a prefix of the list.
#[verifier::loop_isolation(false)]
fn count_occurrences(names: &Vec<String>, target: &String) -> (r: usize)
    ensures
        r == count_occ(strings_view(names@), target@),
        r <= names@.len(),
{
    let ghost ns = strings_view(names@);
    let n = names.len();
    let mut count: usize = 0;
    let mut j: usize = 0;
    proof {
        assert(ns.take(0) =~= Seq::<Seq<char>>::empty());
    }
    while j < n
        invariant
            j <= n,
            count <= j,
            count == count_occ(ns.take(j as int), target@),
        decreases n - j,
    {
        proof {
            assert(ns.take(j + 1).drop_last() =~= ns.take(j as int));
            assert(ns.take(j + 1).last() == ns[j as int]);
        }
        let nj = &names[j];
        if *nj == *target {
            count = count + 1;
        }
        j = j + 1;
    }
    proof {
        assert(ns.take(n as int) =~= ns);
    }
    count
}

/// Whether position `i` holds the first occurrence of its name.
#[verifier::loop_isolation(false)]
fn first_occurrence_at(names: &Vec<String>, i: usize) -> (r: bool)
    requires
        i < names@.len(),
    ensures
        r == is_first_occurrence(strings_view(names@), i as int),
{
    let ghost ns = strings_view(names@);
    let mut j: usize = 0;
    while j < i
        invariant
            j <= i,
            forall|t: int| 0 <= t < j ==> ns[t] != ns[i as int],
        decreases i - j,
    {
        let nj = &names[j];
        let ni = &names[i];
        if *nj == *ni {
            assert(ns[j as int] == ns[i as int]);
            return false;
        }
        j = j + 1;
    }
    true
}

/// The most frequent name of the list, ties broken in favor of the name
/// appearing first; `None` exactly when the list is empty.
#[verifier::loop_isolation(false)]
fn best_name(names: &Vec<String>) -> (r: Option<String>)
    ensures
        (r is None) == (names@.len() == 0),
        (r matches Some(s) ==> opt_view(r) == best_of(strings_view(names@))),
        r is None ==> best_of(strings_view(names@)) is None,
{
    let ghost ns = strings_view(names@);
    let n = names.len();
    if n == 0 {
        return Option::None;
    }
    let mut best_idx: usize = 0;
    let mut best_count: usize = count_occurrences(names, &names[0]);
    let mut i: usize = 1;
    assert(is_first_occurrence(ns, 0));
    while i < n
        invariant
            1 <= i <= n,
            best_idx < i,
            is_first_occurrence(ns, best_idx as int),
            best_count == count_occ(ns, ns[best_idx as int]),
            forall|j: int| 0 <= j < i ==> count_occ(ns, #[trigger] ns[j]) <= best_count,
            forall|j: int|
                0 <= j < i && #[trigger] is_first_occurrence(ns, j) && count_occ(ns, ns[j])
                    == best_count ==> best_idx <= j,
        decreases n - i,
    {
        let first = first_occurrence_at(names, i);
        if first {
            let c = count_occurrences(names, &names[i]);
            if c > best_count {
                best_idx = i;
                best_count = c;
            }
        } else {
            proof {
                let j = choose|j: int| 0 <= j < i && ns[j] == ns[i as int];
                assert(count_occ(ns, ns[i as int]) == count_occ(ns, ns[j]));
            }
        }
        i = i + 1;
    }
    proof {
        assert(is_best_at(ns, best_idx as int));
        let b0 = choose|b: int| is_best_at(ns, b);
        lemma_best_at_unique(ns, b0, best_idx as int);
    }
    Option::Some(names[best_idx].clone())
}

/// Clones an optional string, preserving its model.
fn clone_opt_string(o: &Option<String>) -> (r: Option<String>)
    ensures
        opt_view(r) == opt_view(*o),
{
    match o {
        Option::Some(s) => Option::Some(s.clone()),
        Option::None => Option::None,
    }
}

/// Clones a list of strings, preserving its model.
fn clone_strings(v: &Vec<String>) -> (r: Vec<String>)
    ensures
        strings_view(r@) == strings_view(v@),
{
    let n = v.len();
    let mut out: Vec<String> = Vec::new();
    let mut i: usize = 0;
    while i < n
        invariant
            i <= n,
            n == v@.len(),
            out@.len() == i,
            forall|k: int| 0 <= k < i ==> #[trigger] out@[k]@ == v@[k]@,
        decreases n - i,
    {
        out.push(v[i].clone());
        i = i + 1;
    }
    proof {
        assert(strings_view(out@) =~= strings_view(v@));
    }
    out
}

/// Aggregate statistics of one week of thread activity, together with the
/// repository-wide totals reported beside it.
pub struct LastFourWeeksStats {
    pub date_range: i64,
    pub total_issues: i64,
    pub total_elevated_issues: i64,
    pub total_resolved_issues: i64,
    pub total_one_touch_threads: i64,
    pub extended_threads: i64,
    pub average_response_time: Option<i64>,
    pub best_solver: Option<String>,
    pub best_first_responder: Option<String>,
}

/// Mathematical model of a `LastFourWeeksStats` row.
pub struct LastFourWeeksStatsView {
    pub date_range: i64,
    pub total_issues: i64,
    pub total_elevated_issues: i64,
    pub total_resolved_issues: i64,
    pub total_one_touch_threads: i64,
    pub extended_threads: i64,
    pub average_response_time: Option<i64>,
    pub best_solver: Option<Seq<char>>,
    pub best_first_responder: Option<Seq<char>>,
}

impl View for LastFourWeeksStats {
    type V = LastFourWeeksStatsView;

    open spec fn view(&self) -> LastFourWeeksStatsView {
        LastFourWeeksStatsView {
            date_range: self.date_range,
            total_issues: self.total_issues,
            total_elevated_issues: self.total_elevated_issues,
            total_resolved_issues: self.total_resolved_issues,
            total_one_touch_threads: self.total_one_touch_threads,
            extended_threads: self.extended_threads,
            average_response_time: self.average_response_time,
            best_solver: opt_view(self.best_solver),
            best_first_responder: opt_view(self.best_first_responder),
        }
    }
}

/// The statistics row of week `k` back from today (week 0 ends today):
/// the issue count of that week's seven days, beside the repository-wide
/// totals, the average response time and the best performers by count.
pub open spec fn spec_week_stats(s: Seq<RecordView>, today: i64, k: int) -> LastFourWeeksStatsView {
    LastFourWeeksStatsView {
        date_range: (today - 7 * k - 6) as i64,
        total_issues: count_records(
            s,
            |rv: RecordView| today - 7 * k - 6 <= day_of(rv.creation_time) <= today - 7 * k,
        ) as i64,
        total_elevated_issues: count_records(s, |rv: RecordView| rv.github_link is Some) as i64,
        total_resolved_issues: count_records(s, |rv: RecordView| rv.resolved_by is Some) as i64,
        total_one_touch_threads: count_records(
            s,
            |rv: RecordView| (rv.message_count matches Some(c) && c > 6) && (rv.participant_count
                matches Some(u) && u >= 2),
        ) as i64,
        extended_threads: count_records(
            s,
            |rv: RecordView| rv.message_count matches Some(c) && c > 50,
        ) as i64,
        average_response_time: spec_average_response(s),
        best_solver: best_of(resolver_names(s)),
        best_first_responder: best_of(responder_names(s)),
    }
}

/// The whole dashboard payload.
pub struct DashboardData {
    pub last_four_weeks_stats: Vec<LastFourWeeksStats>,
    pub issues_awaiting_response: IssuesAwaitingResponse,
    pub issues_opened_last_week: Vec<IssuesOpenedLastWeek>,
}

impl IssueStore {
    /// The full issue list, one row per record, in store order.
    pub fn get_all_issues(&self) -> (r: Vec<Issue>)
        requires
            store_wf(self@),
        ensures
            r@.len() == self@.len(),
            forall|i: int| 0 <= i < r@.len() ==> #[trigger] r@[i]@ == issue_of_record(self@[i]),
    {
        let n = self.records.len();
        let mut out: Vec<Issue> = Vec::new();
        let mut i: usize = 0;
        while i < n
            invariant
                i <= n,
                n == self@.len(),
                store_wf(self@),
                out@.len() == i,
                forall|k: int| 0 <= k < i ==> #[trigger] out@[k]@ == issue_of_record(self@[k]),
            decreases n - i,
        {
            let rec = &self.records[i];
            proof {
                assert(self@[i as int] == self.records@[i as int]@);
                assert(self@[i as int].wf());
            }
            let row = Issue {
                original_poster: clone_opt_string(&rec.original_poster),
                discord_thread_link: rec.thread_link.clone(),
                severity: rec.severity,
                first_responder: clone_opt_string(&rec.first_responder),
                github_link: clone_opt_string(&rec.github_link),
                resolved_by: clone_opt_string(&rec.resolved_by),
                categories: Option::Some(clone_strings(&rec.categories)),
                creation_date: rec.creation_time / SECONDS_PER_DAY,
            };
            out.push(row);
            i = i + 1;
        }
        out
    }

    /// The counts of threads still awaiting attention: unanswered (no
    /// first responder), unresolved, and elevated-but-unresolved.
    #[verifier::loop_isolation(false)]
    pub fn get_issues_awaiting_response(&self) -> (r: IssuesAwaitingResponse)
        requires
            store_wf(self@),
            self@.len() <= i64::MAX,
        ensures
            r.unanswered_threads == count_records(
                self@,
                |rv: RecordView| rv.first_responder is None,
            ) as i64,
            r.unresolved_issues == count_records(self@, |rv: RecordView| rv.resolved_by is None) as i64,
            r.unresolved_github_issues == count_records(
                self@,
                |rv: RecordView| rv.github_link is Some && rv.resolved_by is None,
            ) as i64,
    {
        let ghost p_unanswered = |rv: RecordView| rv.first_responder is None;
        let ghost p_unresolved = |rv: RecordView| rv.resolved_by is None;
        let ghost p_github = |rv: RecordView| rv.github_link is Some && rv.resolved_by is None;
        let n = self.records.len();
        let mut unanswered: usize = 0;
        let mut unresolved: usize = 0;
        let mut github: usize = 0;
        let mut i: usize = 0;
        proof {
            assert(self@.take(0) =~= Seq::<RecordView>::empty());
        }
        while i < n
            invariant
                i <= n,
                n == self@.len(),
                unanswered == count_records(self@.take(i as int), p_unanswered),
                unresolved == count_records(self@.take(i as int), p_unresolved),
                github == count_records(self@.take(i as int), p_github),
                unanswered <= i && unresolved <= i && github <= i,
            decreases n - i,
        {
            proof {
                assert(self@.take(i + 1).drop_last() =~= self@.take(i as int));
                assert(self@.take(i + 1).last() == self@[i as int]);
                assert(self@[i as int] == self.records@[i as int]@);
                assert(p_unanswered(self@[i as int]) == (self@[i as int].first_responder is None));
                assert(p_unresolved(self@[i as int]) == (self@[i as int].resolved_by is None));
                assert(p_github(self@[i as int]) == (self@[i as int].github_link is Some
                    && self@[i as int].resolved_by is None));
                assert(count_records(self@.take(i + 1), p_unanswered) == count_records(
                    self@.take(i as int),
                    p_unanswered,
                ) + (if p_unanswered(self@[i as int]) {
                    1nat
                } else {
                    0nat
                }));
                assert(count_records(self@.take(i + 1), p_unresolved) == count_records(
                    self@.take(i as int),
                    p_unresolved,
                ) + (if p_unresolved(self@[i as int]) {
                    1nat
                } else {
                    0nat
                }));
                assert(count_records(self@.take(i + 1), p_github) == count_records(
                    self@.take(i as int),
                    p_github,
                ) + (if p_github(self@[i as int]) {
                    1nat
                } else {
                    0nat
                }));
            }
            let rec = &self.records[i];
            if rec.first_responder.is_none() {
                unanswered = unanswered + 1;
            }
            if rec.resolved_by.is_none() {
                unresolved = unresolved + 1;
            }
            if rec.github_link.is_some() && rec.resolved_by.is_none() {
                github = github + 1;
            }
            i = i + 1;
        }
        proof {
            assert(self@.take(n as int) =~= self@);
        }
        IssuesAwaitingResponse {
            unanswered_threads: unanswered as i64,
            unresolved_issues: unresolved as i64,
            unresolved_github_issues: github as i64,
        }
    }

    /// How many records were created on one given day.
    #[verifier::loop_isolation(false)]
    fn count_opened_on(&self, day: i64) -> (r: usize)
        requires
            store_wf(self@),
        ensures
            r == count_records(self@, |rv: RecordView| day_of(rv.creation_time) == day),
            r <= self@.len(),
    {
        let ghost p = |rv: RecordView| day_of(rv.creation_time) == day;
        let n = self.records.len();
        let mut count: usize = 0;
        let mut i: usize = 0;
        proof {
            assert(self@.take(0) =~= Seq::<RecordView>::empty());
        }
        while i < n
            invariant
                i <= n,
                n == self@.len(),
                store_wf(self@),
                count == count_records(self@.take(i as int), p),
                count <= i,
            decreases n - i,
        {
            proof {
                assert(self@.take(i + 1).drop_last() =~= self@.take(i as int));
                assert(self@.take(i + 1).last() == self@[i as int]);
                assert(self@[i as int] == self.records@[i as int]@);
                assert(self@[i as int].wf());
                assert(p(self@[i as int]) == (day_of(self@[i as int].creation_time) == day));
                assert(count_records(self@.take(i + 1), p) == count_records(
                    self@.take(i as int),
                    p,
                ) + (if p(self@[i as int]) {
                    1nat
                } else {
                    0nat
                }));
            }
            let rec = &self.records[i];
            if rec.creation_time / SECONDS_PER_DAY == day {
                count = count + 1;
            }
            i = i + 1;
        }
        proof {
            assert(self@.take(n as int) =~= self@);
            lemma_count_records_le_len(self@, p);
        }
        count
    }

    /// The average response time in seconds over the answered records.
    #[verifier::loop_isolation(false)]
    fn average_response_seconds(&self) -> (r: Option<i64>)
        requires
            store_wf(self@),
        ensures
            r == spec_average_response(self@),
    {
        let ghost s = self@;
        let ghost p_some = |rv: RecordView| rv.first_response_time is Some;
        let ghost m: int = i64::MAX as int;
        let n = self.records.len();
        let mut sum: u128 = 0;
        let mut count: usize = 0;
        let mut i: usize = 0;
        proof {
            assert(s.take(0) =~= Seq::<RecordView>::empty());
        }
        while i < n
            invariant
                i <= n,
                n == s.len(),
                count <= i,
                count == count_records(s.take(i as int), p_some),
                sum as int == response_time_sum(s.take(i as int)),
                sum as int <= count * m,
            decreases n - i,
        {
            proof {
                assert(s.take(i + 1).drop_last() =~= s.take(i as int));
                assert(s.take(i + 1).last() == s[i as int]);
                assert(s[i as int] == self.records@[i as int]@);
                assert(s[i as int].wf());
            }
            let rec = &self.records[i];
            match rec.first_response_time {
                Option::Some(t) => {
                    let d: i64 = if t >= rec.creation_time {
                        t - rec.creation_time
                    } else {
                        0
                    };
                    proof {
                        assert(d as int == response_secs(s[i as int]));
                        assert(0 <= d as int <= m);
                        assert(sum as int + d as int <= (count + 1) * m) by (nonlinear_arith)
                            requires
                                sum as int <= count * m,
                                d as int <= m,
                        ;
                        assert((count + 1) * m <= 0xffff_ffff_ffff_ffff_ffff_ffff_ffff_ffff)
                            by (nonlinear_arith)
                            requires
                                0 <= count + 1 <= 0x1_0000_0000_0000_0000,
                                m == 0x7fff_ffff_ffff_ffff,
                        ;
                    }
                    sum = sum + (d as u128);
                    count = count + 1;
                },
                Option::None => {
                    proof {
                        assert(response_secs(s[i as int]) == 0);
                    }
                },
            }
            i = i + 1;
        }
        proof {
            assert(s.take(n as int) =~= s);
        }
        if count == 0 {
            return Option::None;
        }
        let avg: u128 = sum / (count as u128);
        proof {
            lemma_div_is_ordered(sum as int, count * m, count as int);
            lemma_div_multiples_vanish(m, count as int);
            assert((count * m) / (count as int) == m);
            assert(avg as int == response_time_sum(s) / (count as int));
            assert(avg as int <= m);
        }
        Option::Some(avg as i64)
    }

    /// The resolver names of the resolved records, in store order.
    #[verifier::loop_isolation(false)]
    fn collect_resolver_names(&self) -> (r: Vec<String>)
        ensures
            strings_view(r@) == resolver_names(self@),
    {
        let ghost s = self@;
        let n = self.records.len();
        let mut out: Vec<String> = Vec::new();
        let mut i: usize = 0;
        proof {
            assert(s.take(0) =~= Seq::<RecordView>::empty());
            assert(strings_view(out@) =~= resolver_names(s.take(0)));
        }
        while i < n
            invariant
                i <= n,
                n == s.len(),
                strings_view(out@) == resolver_names(s.take(i as int)),
            decreases n - i,
        {
            proof {
                assert(s.take(i + 1).drop_last() =~= s.take(i as int));
                assert(s.take(i + 1).last() == s[i as int]);
                assert(s[i as int] == self.records@[i as int]@);
            }
            let rec = &self.records[i];
            match &rec.resolved_by {
                Option::Some(name) => {
                    out.push(name.clone());
                    proof {
                        assert(strings_view(out@) =~= resolver_names(s.take(i as int)).push(
                            s[i as int].resolved_by->Some_0,
                        ));
                        assert(resolver_names(s.take(i + 1)) =~= resolver_names(
                            s.take(i as int),
                        ).push(s[i as int].resolved_by->Some_0));
                    }
                },
                Option::None => {
                    proof {
                        assert(resolver_names(s.take(i + 1)) =~= resolver_names(s.take(i as int)));
                    }
                },
            }
            i = i + 1;
        }
        proof {
            assert(s.take(n as int) =~= s);
        }
        out
    }

    /// The first-responder names of the answered records, in store order.
    #[verifier::loop_isolation(false)]
    fn collect_responder_names(&self) -> (r: Vec<String>)
        ensures
            strings_view(r@) == responder_names(self@),
    {
        let ghost s = self@;
        let n = self.records.len();
        let mut out: Vec<String> = Vec::new();
        let mut i: usize = 0;
        proof {
            assert(s.take(0) =~= Seq::<RecordView>::empty());
            assert(strings_view(out@) =~= responder_names(s.take(0)));
        }
        while i < n
            invariant
                i <= n,
                n == s.len(),
                strings_view(out@) == responder_names(s.take(i as int)),
            decreases n - i,
        {
            proof {
                assert(s.take(i + 1).drop_last() =~= s.take(i as int));
                assert(s.take(i + 1).last() == s[i as int]);
                assert(s[i as int] == self.records@[i as int]@);
            }
            let rec = &self.records[i];
            match &rec.first_responder {
                Option::Some(name) => {
                    out.push(name.clone());
                    proof {
                        assert(strings_view(out@) =~= responder_names(s.take(i as int)).push(
                            s[i as int].first_responder->Some_0,
                        ));
                        assert(responder_names(s.take(i + 1)) =~= responder_names(
                            s.take(i as int),
                        ).push(s[i as int].first_responder->Some_0));
                    }
                },
                Option::None => {
                    proof {
                        assert(responder_names(s.take(i + 1)) =~= responder_names(s.take(i as int)));
                    }
                },
            }
            i = i + 1;
        }
        proof {
            assert(s.take(n as int) =~= s);
        }
        out
    }

    /// How many records were created in a closed range of day numbers.
    #[verifier::loop_isolation(false)]
    fn count_created_between(&self, lo: i64, hi: i64) -> (r: usize)
        requires
            store_wf(self@),
        ensures
            r == count_records(
                self@,
                |rv: RecordView| lo <= day_of(rv.creation_time) <= hi,
            ),
            r <= self@.len(),
    {
        let ghost s = self@;
        let ghost p = |rv: RecordView| lo <= day_of(rv.creation_time) <= hi;
        let n = self.records.len();
        let mut count: usize = 0;
        let mut i: usize = 0;
        proof {
            assert(s.take(0) =~= Seq::<RecordView>::empty());
        }
        while i < n
            invariant
                i <= n,
                n == s.len(),
                count <= i,
                count == count_records(s.take(i as int), p),
            decreases n - i,
        {
            proof {
                assert(s.take(i + 1).drop_last() =~= s.take(i as int));
                assert(s.take(i + 1).last() == s[i as int]);
                assert(s[i as int] == self.records@[i as int]@);
                assert(s[i as int].wf());
            }
            let rec = &self.records[i];
            let d = rec.creation_time / SECONDS_PER_DAY;
            if lo <= d && d <= hi {
                count = count + 1;
            }
            i = i + 1;
        }
        proof {
            assert(s.take(n as int) =~= s);
        }
        count
    }

    /// The weekly statistics rows for the last four weeks, newest week
    /// first. Week 0 covers the seven days ending today.
    #[verifier::loop_isolation(false)]
    pub fn get_last_four_weeks_stats(&self, today: i64) -> (r: Vec<LastFourWeeksStats>)
        requires
            store_wf(self@),
            self@.len() <= i64::MAX,
            today >= 0,
        ensures
            r@.len() == 4,
            forall|k: int| 0 <= k < 4 ==> #[trigger] r@[k]@ == spec_week_stats(self@, today, k),
    {
        let ghost s = self@;
        let ghost p_elevated = |rv: RecordView| rv.github_link is Some;
        let ghost p_resolved = |rv: RecordView| rv.resolved_by is Some;
        let ghost p_one_touch = |rv: RecordView| (rv.message_count matches Some(c) && c > 6) && (
        rv.participant_count matches Some(u) && u >= 2);
        let ghost p_extended = |rv: RecordView| rv.message_count matches Some(c) && c > 50;
        let n = self.records.len();
        let mut elevated: usize = 0;
        let mut resolved: usize = 0;
        let mut one_touch: usize = 0;
        let mut extended: usize = 0;
        let mut i: usize = 0;
        proof {
            assert(s.take(0) =~= Seq::<RecordView>::empty());
        }
        while i < n
            invariant
                i <= n,
                n == s.len(),
                elevated <= i && resolved <= i && one_touch <= i && extended <= i,
                elevated == count_records(s.take(i as int), p_elevated),
                resolved == count_records(s.take(i as int), p_resolved),
                one_touch == count_records(s.take(i as int), p_one_touch),
                extended == count_records(s.take(i as int), p_extended),
            decreases n - i,
        {
            proof {
                assert(s.take(i + 1).drop_last() =~= s.take(i as int));
                assert(s.take(i + 1).last() == s[i as int]);
                assert(s[i as int] == self.records@[i as int]@);
            }
            let rec = &self.records[i];
            if rec.github_link.is_some() {
                elevated = elevated + 1;
            }
            if rec.resolved_by.is_some() {
                resolved = resolved + 1;
            }
            match (rec.message_count, rec.participant_count) {
                (Option::Some(c), Option::Some(u)) => {
                    if c > 6 && u >= 2 {
                        one_touch = one_touch + 1;
                    }
                },
                _ => {},
            }
            match rec.message_count {
                Option::Some(c) => {
                    if c > 50 {
                        extended = extended + 1;
                    }
                },
                Option::None => {},
            }
            i = i + 1;
        }
        proof {
            assert(s.take(n as int) =~= s);
        }
        let average_response_time = self.average_response_seconds();
        let solver_list = self.collect_resolver_names();
        let best_solver = best_name(&solver_list);
        let responder_list = self.collect_responder_names();
        let best_first_responder = best_name(&responder_list);
        let mut out: Vec<LastFourWeeksStats> = Vec::new();
        let mut k: usize = 0;
        while k < 4
            invariant
                k <= 4,
                out@.len() == k,
                forall|t: int| 0 <= t < k ==> #[trigger] out@[t]@ == spec_week_stats(s, today, t),
                s == self@,
                store_wf(self@),
                s.len() <= i64::MAX,
                today >= 0,
                elevated == count_records(s, p_elevated),
                resolved == count_records(s, p_resolved),
                one_touch == count_records(s, p_one_touch),
                extended == count_records(s, p_extended),
                elevated <= s.len() && resolved <= s.len() && one_touch <= s.len() && extended
                    <= s.len(),
                average_response_time == spec_average_response(s),
                opt_view(best_solver) == best_of(resolver_names(s)),
                opt_view(best_first_responder) == best_of(responder_names(s)),
            decreases 4 - k,
        {
            let ki = k as i64;
            let lo = today - 7 * ki - 6;
            let hi = today - 7 * ki;
            let week_count = self.count_created_between(lo, hi);
            let row = LastFourWeeksStats {
                date_range: lo,
                total_issues: week_count as i64,
                total_elevated_issues: elevated as i64,
                total_resolved_issues: resolved as i64,
                total_one_touch_threads: one_touch as i64,
                extended_threads: extended as i64,
                average_response_time,
                best_solver: clone_opt_string(&best_solver),
                best_first_responder: clone_opt_string(&best_first_responder),
            };
            proof {
                assert(row@ == spec_week_stats(s, today, k as int));
            }
            out.push(row);
            k = k + 1;
        }
        out
    }

    /// The whole dashboard payload: weekly statistics, threads awaiting
    /// attention and per-day creation counts.
    pub fn dashboard(&self, today: i64) -> (r: DashboardData)
        requires
            store_wf(self@),
            self@.len() <= i64::MAX,
            today >= 0,
        ensures
            r.last_four_weeks_stats@.len() == 4,
            forall|k: int|
                0 <= k < 4 ==> #[trigger] r.last_four_weeks_stats@[k]@ == spec_week_stats(
                    self@,
                    today,
                    k,
                ),
            r.issues_awaiting_response.unanswered_threads == count_records(
                self@,
                |rv: RecordView| rv.first_responder is None,
            ) as i64,
            r.issues_awaiting_response.unresolved_issues == count_records(
                self@,
                |rv: RecordView| rv.resolved_by is None,
            ) as i64,
            r.issues_awaiting_response.unresolved_github_issues == count_records(
                self@,
                |rv: RecordView| rv.github_link is Some && rv.resolved_by is None,
            ) as i64,
            r.issues_opened_last_week@.len() == 7,
            forall|k: int|
                0 <= k < 7 ==> (#[trigger] r.issues_opened_last_week@[k]).day == today - k
                    && r.issues_opened_last_week@[k].total_issues_per_day == count_records(
                    self@,
                    |rv: RecordView| day_of(rv.creation_time) == today - k,
                ) as i64,
    {
        DashboardData {
            last_four_weeks_stats: self.get_last_four_weeks_stats(today),
            issues_awaiting_response: self.get_issues_awaiting_response(),
            issues_opened_last_week: self.get_issues_opened_last_7_days(today),
        }
    }

    /// Per-day creation counts for the last seven days, newest day first.
    pub fn get_issues_opened_last_7_days(&self, today: i64) -> (r: Vec<IssuesOpenedLastWeek>)
        requires
            store_wf(self@),
            self@.len() <= i64::MAX,
            today >= 0,
        ensures
            r@.len() == 7,
            forall|k: int|
                0 <= k < 7 ==> (#[trigger] r@[k]).day == today - k && r@[k].total_issues_per_day
                    == count_records(
                    self@,
                    |rv: RecordView| day_of(rv.creation_time) == today - k,
                ) as i64,
    {
        let mut out: Vec<IssuesOpenedLastWeek> = Vec::new();
        let mut k: usize = 0;
        while k < 7
            invariant
                k <= 7,
                today >= 0,
                store_wf(self@),
                self@.len() <= i64::MAX,
                out@.len() == k,
                forall|t: int|
                    0 <= t < k ==> (#[trigger] out@[t]).day == today - t
                        && out@[t].total_issues_per_day == count_records(
                        self@,
                        |rv: RecordView| day_of(rv.creation_time) == today - t,
                    ) as i64,
            decreases 7 - k,
        {
            let day = today - (k as i64);
            let count = self.count_opened_on(day);
            out.push(IssuesOpenedLastWeek { day, total_issues_per_day: count as i64 });
            k = k + 1;
        }
        out
    }
}

} // verus!
