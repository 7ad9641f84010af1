//! The metrics registry: counters of requests, errors and logins, and
//! gauges of what the store holds. The registry is a value that the
//! application owns and hands to the operations that count.
use crate::clock::Timestamp;
use crate::decimal::{decimal, to_decimal};
use crate::store::{same_text, Store};
use vstd::prelude::*;

verus! {

/// A counter value after one more event. A counter that has reached the
/// end of its range starts again at 0.
pub open spec fn bumped(count: u64) -> u64 {
    if count == u64::MAX {
        0
    } else {
        (count + 1) as u64
    }
}

/// A pair of label values: endpoint and method for requests, endpoint
/// and status code for errors.
pub type Labels = (Seq<char>, Seq<char>);

/// The count of one pair of label values.
struct LabelCount {
    first: String,
    second: String,
    count: u64,
}

/// The registry.
pub struct Metrics {
    requests_total: u64,
    requests: Vec<LabelCount>,
    errors: Vec<LabelCount>,
    login_attempts: u64,
    successful_logins: u64,
    failed_logins: u64,
    active_polls: i64,
    total_polls: i64,
    total_votes: i64,
    total_users: i64,
}

/// The mathematical view of the registry. The counters with labels are
/// maps from the label values to the count; a pair that was never counted
/// is not in the map and has the count 0.
pub struct MetricsView {
    pub requests_total: u64,
    /// By endpoint and method.
    pub requests: Map<Labels, u64>,
    /// By endpoint and status code, the code in decimal.
    pub errors: Map<Labels, u64>,
    pub login_attempts: u64,
    pub successful_logins: u64,
    pub failed_logins: u64,
    pub active_polls: i64,
    pub total_polls: i64,
    pub total_votes: i64,
    pub total_users: i64,
}

/// The count of a pair of label values in a counter.
pub open spec fn count_of(counter: Map<Labels, u64>, labels: Labels) -> u64 {
    if counter.dom().contains(labels) {
        counter[labels]
    } else {
        0
    }
}

/// The counter after one more event with the label values.
pub open spec fn counted(counter: Map<Labels, u64>, labels: Labels) -> Map<Labels, u64> {
    counter.insert(labels, bumped(count_of(counter, labels)))
}

impl MetricsView {
    /// The registry before anything was counted.
    pub open spec fn zero() -> MetricsView {
        MetricsView {
            requests_total: 0,
            requests: Map::empty(),
            errors: Map::empty(),
            login_attempts: 0,
            successful_logins: 0,
            failed_logins: 0,
            active_polls: 0,
            total_polls: 0,
            total_votes: 0,
            total_users: 0,
        }
    }

    /// The count of requests to the endpoint by the method.
    pub open spec fn request_count(self, endpoint: Seq<char>, method: Seq<char>) -> u64 {
        count_of(self.requests, (endpoint, method))
    }

    /// The count of errors of the endpoint with the status code.
    pub open spec fn error_count(self, endpoint: Seq<char>, status_code: u16) -> u64 {
        count_of(self.errors, (endpoint, decimal(status_code as int)))
    }

    /// The registry after one more request.
    pub open spec fn with_request(self, endpoint: Seq<char>, method: Seq<char>) -> MetricsView {
        MetricsView {
            requests_total: bumped(self.requests_total),
            requests: counted(self.requests, (endpoint, method)),
            ..self
        }
    }

    /// The registry after one more error.
    pub open spec fn with_error(self, endpoint: Seq<char>, status_code: u16) -> MetricsView {
        MetricsView {
            errors: counted(self.errors, (endpoint, decimal(status_code as int))),
            ..self
        }
    }
}

impl LabelCount {
    spec fn labels(self) -> Labels {
        (self.first@, self.second@)
    }
}

/// The counts by label values.
spec fn counter_map(entries: Seq<LabelCount>) -> Map<Labels, u64>
    decreases entries.len(),
{
    if entries.len() == 0 {
        Map::empty()
    } else {
        counter_map(entries.drop_last()).insert(entries.last().labels(), entries.last().count)
    }
}

/// Each pair of label values has one entry at most.
spec fn labels_distinct(entries: Seq<LabelCount>) -> bool {
    forall|i: int, j: int|
        #![trigger entries[i], entries[j]]
        0 <= i < j < entries.len() ==> entries[i].labels() != entries[j].labels()
}

/// The entries before the last have distinct labels, none of them those of
/// the last.
proof fn lemma_front_distinct(entries: Seq<LabelCount>)
    requires
        labels_distinct(entries),
        entries.len() > 0,
    ensures
        labels_distinct(entries.drop_last()),
        forall|k: int|
            0 <= k < entries.len() - 1 ==> (#[trigger] entries[k]).labels()
                != entries.last().labels(),
{
    let front = entries.drop_last();
    assert forall|i: int, j: int|
        #![trigger front[i], front[j]]
        0 <= i < j < front.len() implies front[i].labels() != front[j].labels() by {
        assert(entries[i].labels() != entries[j].labels());
    }
    assert forall|k: int| 0 <= k < entries.len() - 1 implies (#[trigger] entries[k]).labels()
        != entries.last().labels() by {
        assert(entries[k].labels() != entries[entries.len() - 1].labels());
    }
}

/// A pair without an entry is not in the map.
proof fn lemma_labels_absent(entries: Seq<LabelCount>, labels: Labels)
    requires
        forall|k: int| 0 <= k < entries.len() ==> (#[trigger] entries[k]).labels() != labels,
    ensures
        !counter_map(entries).dom().contains(labels),
    decreases entries.len(),
{
    if entries.len() > 0 {
        let front = entries.drop_last();
        assert forall|k: int| 0 <= k < front.len() implies (#[trigger] front[k]).labels()
            != labels by {
            assert(front[k] == entries[k]);
        }
        lemma_labels_absent(front, labels);
        assert(entries[entries.len() - 1].labels() != labels);
    }
}

/// The entry of a pair holds the count of the pair.
proof fn lemma_labels_present(entries: Seq<LabelCount>, k: int)
    requires
        labels_distinct(entries),
        0 <= k < entries.len(),
    ensures
        counter_map(entries).dom().contains(entries[k].labels()),
        counter_map(entries)[entries[k].labels()] == entries[k].count,
    decreases entries.len(),
{
    if k < entries.len() - 1 {
        lemma_front_distinct(entries);
        lemma_labels_present(entries.drop_last(), k);
    }
}

/// Changing the count of one entry changes the map at its pair only.
proof fn lemma_count_changed(entries: Seq<LabelCount>, k: int, entry: LabelCount)
    requires
        labels_distinct(entries),
        0 <= k < entries.len(),
        entry.labels() == entries[k].labels(),
    ensures
        counter_map(entries.update(k, entry)) == counter_map(entries).insert(
            entry.labels(),
            entry.count,
        ),
        labels_distinct(entries.update(k, entry)),
    decreases entries.len(),
{
    let changed = entries.update(k, entry);
    assert forall|i: int, j: int|
        #![trigger changed[i], changed[j]]
        0 <= i < j < changed.len() implies changed[i].labels() != changed[j].labels() by {
        assert(entries[i].labels() != entries[j].labels());
    }
    let front = entries.drop_last();
    lemma_front_distinct(entries);
    if k == entries.len() - 1 {
        assert(changed.drop_last() =~= front);
        assert(counter_map(changed) =~= counter_map(entries).insert(entry.labels(), entry.count));
    } else {
        lemma_count_changed(front, k, entry);
        assert(changed.drop_last() =~= front.update(k, entry));
        assert(changed.last() == entries.last());
        assert(counter_map(changed) =~= counter_map(entries).insert(entry.labels(), entry.count));
    }
}

impl View for Metrics {
    type V = MetricsView;

    closed spec fn view(&self) -> MetricsView {
        MetricsView {
            requests_total: self.requests_total,
            requests: counter_map(self.requests@),
            errors: counter_map(self.errors@),
            login_attempts: self.login_attempts,
            successful_logins: self.successful_logins,
            failed_logins: self.failed_logins,
            active_polls: self.active_polls,
            total_polls: self.total_polls,
            total_votes: self.total_votes,
            total_users: self.total_users,
        }
    }
}

/// One more than the count, starting again at 0 at the end of the range.
fn bump(count: u64) -> (r: u64)
    ensures
        r == bumped(count),
{
    if count == u64::MAX {
        0
    } else {
        count + 1
    }
}

/// The position of the entry with the label values.
fn entry_index(entries: &Vec<LabelCount>, first: &str, second: &str) -> (r: Option<usize>)
    ensures
        match r {
            Some(i) => i < entries.len() && entries@[i as int].labels() == (first@, second@),
            None => forall|k: int|
                0 <= k < entries.len() ==> (#[trigger] entries@[k]).labels() != (
                    first@,
                    second@,
                ),
        },
{
    let mut i: usize = 0;
    while i < entries.len()
        invariant
            i <= entries.len(),
            forall|k: int| 0 <= k < i ==> (#[trigger] entries@[k]).labels() != (first@, second@),
        decreases entries.len() - i,
    {
        if same_text(entries[i].first.as_str(), first) && same_text(
            entries[i].second.as_str(),
            second,
        ) {
            return Some(i);
        }
        i += 1;
    }
    None
}

/// The count of the label values in the counter.
fn lookup(entries: &Vec<LabelCount>, first: &str, second: &str) -> (r: u64)
    requires
        labels_distinct(entries@),
    ensures
        r == count_of(counter_map(entries@), (first@, second@)),
{
    match entry_index(entries, first, second) {
        Some(i) => {
            proof {
                lemma_labels_present(entries@, i as int);
            }
            entries[i].count
        },
        None => {
            proof {
                lemma_labels_absent(entries@, (first@, second@));
            }
            0
        },
    }
}

/// Counts one more event with the label values.
fn count_event(entries: &mut Vec<LabelCount>, first: &str, second: &str)
    requires
        labels_distinct(old(entries)@),
    ensures
        labels_distinct(final(entries)@),
        counter_map(final(entries)@) == counted(counter_map(old(entries)@), (first@, second@)),
{
    match entry_index(entries, first, second) {
        Some(i) => {
            proof {
                lemma_labels_present(entries@, i as int);
            }
            entries[i].count = bump(entries[i].count);
            proof {
                assert(entries@ =~= old(entries)@.update(i as int, entries@[i as int]));
                lemma_count_changed(old(entries)@, i as int, entries@[i as int]);
            }
        },
        None => {
            proof {
                lemma_labels_absent(entries@, (first@, second@));
            }
            entries.push(
                LabelCount { first: first.to_owned(), second: second.to_owned(), count: 1 },
            );
            proof {
                assert(entries@.drop_last() =~= old(entries)@);
                assert forall|a: int, b: int|
                    #![trigger entries@[a], entries@[b]]
                    0 <= a < b < entries@.len() implies entries@[a].labels()
                    != entries@[b].labels() by {
                    if b < old(entries)@.len() {
                        assert(old(entries)@[a].labels() != old(entries)@[b].labels());
                    } else {
                        assert(old(entries)@[a].labels() != (first@, second@));
                    }
                }
            }
        },
    }
}

/// The pairs of label values of the counter with their counts.
fn listing(entries: &Vec<LabelCount>) -> (r: Vec<(String, String, u64)>)
    requires
        labels_distinct(entries@),
    ensures
        lists(r@, counter_map(entries@)),
{
    let mut out: Vec<(String, String, u64)> = Vec::new();
    let mut i: usize = 0;
    while i < entries.len()
        invariant
            i <= entries.len(),
            out.len() == i,
            forall|k: int|
                0 <= k < i ==> ((#[trigger] out@[k]).0@, out@[k].1@) == entries@[k].labels()
                    && out@[k].2 == entries@[k].count,
        decreases entries.len() - i,
    {
        let entry = &entries[i];
        out.push((entry.first.clone(), entry.second.clone(), entry.count));
        i += 1;
    }
    proof {
        let counter = counter_map(entries@);
        assert forall|k: int| 0 <= k < out.len() implies counter.dom().contains(
            ((#[trigger] out@[k]).0@, out@[k].1@),
        ) && counter[(out@[k].0@, out@[k].1@)] == out@[k].2 by {
            lemma_labels_present(entries@, k);
        }
        assert forall|a: int, b: int|
            #![trigger out@[a], out@[b]]
            0 <= a < b < out.len() implies (out@[a].0@, out@[a].1@) != (out@[b].0@, out@[b].1@) by {
            assert(entries@[a].labels() != entries@[b].labels());
        }
        assert forall|labels: Labels| #[trigger] counter.dom().contains(labels) implies exists|
            k: int,
        |
            0 <= k < out.len() && ((#[trigger] out@[k]).0@, out@[k].1@) == labels by {
            if forall|k: int|
                0 <= k < entries@.len() ==> (#[trigger] entries@[k]).labels() != labels {
                lemma_labels_absent(entries@, labels);
            } else {
                let k = choose|k: int|
                    0 <= k < entries@.len() && (#[trigger] entries@[k]).labels() == labels;
                assert((out@[k].0@, out@[k].1@) == labels);
            }
        }
    }
    out
}

/// `rows` lists the counter: each pair of label values that was counted,
/// once, with its count.
pub open spec fn lists(rows: Seq<(String, String, u64)>, counter: Map<Labels, u64>) -> bool {
    &&& forall|k: int|
        0 <= k < rows.len() ==> counter.dom().contains(((#[trigger] rows[k]).0@, rows[k].1@))
            && counter[(rows[k].0@, rows[k].1@)] == rows[k].2
    &&& forall|i: int, j: int|
        #![trigger rows[i], rows[j]]
        0 <= i < j < rows.len() ==> (rows[i].0@, rows[i].1@) != (rows[j].0@, rows[j].1@)
    &&& forall|labels: Labels| #[trigger]
        counter.dom().contains(labels) ==> exists|k: int|
            0 <= k < rows.len() && ((#[trigger] rows[k]).0@, rows[k].1@) == labels
}

impl Metrics {
    /// Each pair of label values has one entry at most.
    pub closed spec fn wf(&self) -> bool {
        labels_distinct(self.requests@) && labels_distinct(self.errors@)
    }

    /// A registry in which nothing has been counted yet.
    pub fn new() -> (m: Metrics)
        ensures
            m.wf(),
            m@ == MetricsView::zero(),
    {
        Metrics {
            requests_total: 0,
            requests: Vec::new(),
            errors: Vec::new(),
            login_attempts: 0,
            successful_logins: 0,
            failed_logins: 0,
            active_polls: 0,
            total_polls: 0,
            total_votes: 0,
            total_users: 0,
        }
    }

    /// The number of requests counted.
    pub fn requests_total(&self) -> (r: u64)
        ensures
            r == self@.requests_total,
    {
        self.requests_total
    }

    /// The count of requests to the endpoint by the method.
    pub fn request_count(&self, endpoint: &str, method: &str) -> (r: u64)
        requires
            self.wf(),
        ensures
            r == self@.request_count(endpoint@, method@),
    {
        lookup(&self.requests, endpoint, method)
    }

    /// The count of errors of the endpoint with the status code.
    pub fn error_count(&self, endpoint: &str, status_code: u16) -> (r: u64)
        requires
            self.wf(),
        ensures
            r == self@.error_count(endpoint@, status_code),
    {
        lookup(&self.errors, endpoint, to_decimal(status_code as i64).as_str())
    }

    /// The requests counter: each endpoint and method that was counted,
    /// once, with its count.
    pub fn request_counts(&self) -> (r: Vec<(String, String, u64)>)
        requires
            self.wf(),
        ensures
            lists(r@, self@.requests),
    {
        listing(&self.requests)
    }

    /// The errors counter: each endpoint and status code that was
    /// counted, once, with its count; the status code in decimal.
    pub fn error_counts(&self) -> (r: Vec<(String, String, u64)>)
        requires
            self.wf(),
        ensures
            lists(r@, self@.errors),
    {
        listing(&self.errors)
    }

    /// The number of attempts to log in.
    pub fn login_attempts(&self) -> (r: u64)
        ensures
            r == self@.login_attempts,
    {
        self.login_attempts
    }

    /// The number of logins that succeeded.
    pub fn successful_logins(&self) -> (r: u64)
        ensures
            r == self@.successful_logins,
    {
        self.successful_logins
    }

    /// The number of logins that failed.
    pub fn failed_logins(&self) -> (r: u64)
        ensures
            r == self@.failed_logins,
    {
        self.failed_logins
    }

    /// The number of polls that took votes when the gauges were last set.
    pub fn active_polls(&self) -> (r: i64)
        ensures
            r == self@.active_polls,
    {
        self.active_polls
    }

    /// The number of polls when the gauges were last set.
    pub fn total_polls(&self) -> (r: i64)
        ensures
            r == self@.total_polls,
    {
        self.total_polls
    }

    /// The number of votes when the gauges were last set.
    pub fn total_votes(&self) -> (r: i64)
        ensures
            r == self@.total_votes,
    {
        self.total_votes
    }

    /// The number of users when the gauges were last set.
    pub fn total_users(&self) -> (r: i64)
        ensures
            r == self@.total_users,
    {
        self.total_users
    }
}

/// Counts a request: the total and the count of the endpoint and method
/// each go up by one. Nothing else changes.
pub fn record_request(metrics: &mut Metrics, endpoint: &str, method: &str)
    requires
        old(metrics).wf(),
    ensures
        final(metrics).wf(),
        final(metrics)@ == old(metrics)@.with_request(endpoint@, method@),
{
    metrics.requests_total = bump(metrics.requests_total);
    count_event(&mut metrics.requests, endpoint, method);
}

/// Counts an error of the endpoint with the status code. Nothing else
/// changes.
pub fn record_error(metrics: &mut Metrics, endpoint: &str, status_code: u16)
    requires
        old(metrics).wf(),
    ensures
        final(metrics).wf(),
        final(metrics)@ == old(metrics)@.with_error(endpoint@, status_code),
{
    count_event(&mut metrics.errors, endpoint, to_decimal(status_code as i64).as_str());
}

/// Counts an attempt to log in, whatever comes of it.
pub fn increment_login_attempt(metrics: &mut Metrics)
    requires
        old(metrics).wf(),
    ensures
        final(metrics).wf(),
        final(metrics)@ == (MetricsView {
            login_attempts: bumped(old(metrics)@.login_attempts),
            ..old(metrics)@
        }),
{
    metrics.login_attempts = bump(metrics.login_attempts);
}

/// Counts a login that succeeded.
pub fn increment_successful_login(metrics: &mut Metrics)
    requires
        old(metrics).wf(),
    ensures
        final(metrics).wf(),
        final(metrics)@ == (MetricsView {
            successful_logins: bumped(old(metrics)@.successful_logins),
            ..old(metrics)@
        }),
{
    metrics.successful_logins = bump(metrics.successful_logins);
}

/// Counts a login that failed.
pub fn increment_failed_login(metrics: &mut Metrics)
    requires
        old(metrics).wf(),
    ensures
        final(metrics).wf(),
        final(metrics)@ == (MetricsView {
            failed_logins: bumped(old(metrics)@.failed_logins),
            ..old(metrics)@
        }),
{
    metrics.failed_logins = bump(metrics.failed_logins);
}

/// The polls that take votes at `now`.
pub open spec fn open_at(now: Timestamp) -> spec_fn(crate::models::PollView) -> bool {
    |p: crate::models::PollView| p.open_at(now)
}

/// Sets the gauges to what the store holds at `now`: the polls that take
/// votes, all polls, all votes, all users. The counters stay.
pub fn update_metrics(metrics: &mut Metrics, store: &Store, now: Timestamp)
    requires
        old(metrics).wf(),
        store.wf(),
    ensures
        final(metrics).wf(),
        final(metrics)@ == (MetricsView {
            active_polls: store@.polls.filter(open_at(now)).len() as i64,
            total_polls: store@.polls.len() as i64,
            total_votes: store@.votes.len() as i64,
            total_users: store@.users.len() as i64,
            ..old(metrics)@
        }),
{
    proof {
        store.view_is();
        reveal(Seq::filter);
        assert(store@.polls.take(0) =~= Seq::<crate::models::PollView>::empty());
    }
    let mut active: i64 = 0;
    let mut i: usize = 0;
    while i < store.polls.len()
        invariant
            i <= store.polls.len() <= i64::MAX,
            0 <= active <= i,
            store@.polls == crate::store::poll_views(store.polls@),
            active == store@.polls.take(i as int).filter(open_at(now)).len(),
        decreases store.polls.len() - i,
    {
        proof {
            let p = store@.polls[i as int];
            assert(store@.polls.take(i as int + 1) =~= store@.polls.take(i as int).push(p));
            store@.polls.take(i as int).lemma_filter_push(p, open_at(now));
        }
        if store.polls[i].is_active(&now) {
            active = active + 1;
        }
        i += 1;
    }
    proof {
        assert(store@.polls.take(store@.polls.len() as int) =~= store@.polls);
    }
    metrics.active_polls = active;
    metrics.total_polls = store.polls.len() as i64;
    metrics.total_votes = store.votes.len() as i64;
    metrics.total_users = store.users.len() as i64;
}

} // verus!
