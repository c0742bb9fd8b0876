use vstd::prelude::*;

use crate::extentions::arc_string::ArcString;
use crate::extentions::name_map::NameMap;

verus! {

/// The page that a throttled request is sent to.
pub const TOO_MANY_REQUESTS_URI: &'static str = "/too_many_requests";

/// How many requests one sender has made in one minute, overall and per endpoint.
pub struct PerMinuteRequestsCounter {
    pub minute: u64,
    pub total_requests: u64,
    pub per_endpoint_requests: NameMap<u64>,
}

/// The count of requests to an endpoint as recorded in `m` (none if no entry).
pub open spec fn requests_to(m: Map<Seq<char>, u64>, endpoint: Seq<char>) -> u64 {
    if m.contains_key(endpoint) {
        m[endpoint]
    } else {
        0
    }
}

/// The sum of a sequence of counts.
pub open spec fn count_sum(s: Seq<u64>) -> int
    decreases s.len(),
{
    if s.len() == 0 {
        0
    } else {
        count_sum(s.drop_last()) + s.last()
    }
}

/// Changing one count changes the sum by the difference.
pub proof fn lemma_count_sum_update(s: Seq<u64>, i: int, v: u64)
    requires
        0 <= i < s.len(),
    ensures
        count_sum(s.update(i, v)) == count_sum(s) - s[i] + v,
    decreases s.len(),
{
    if i == s.len() - 1 {
        assert(s.update(i, v).drop_last() =~= s.drop_last());
    } else {
        lemma_count_sum_update(s.drop_last(), i, v);
        assert(s.update(i, v).drop_last() =~= s.drop_last().update(i, v));
    }
}

/// No count is more than the sum.
pub proof fn lemma_count_at_most_sum(s: Seq<u64>, i: int)
    requires
        0 <= i < s.len(),
    ensures
        s[i] <= count_sum(s),
    decreases s.len(),
{
    if i < s.len() - 1 {
        lemma_count_at_most_sum(s.drop_last(), i);
    }
    lemma_count_sum_nonneg(s.drop_last());
}

/// A sum of counts is not negative.
pub proof fn lemma_count_sum_nonneg(s: Seq<u64>)
    ensures
        count_sum(s) >= 0,
    decreases s.len(),
{
    if s.len() > 0 {
        lemma_count_sum_nonneg(s.drop_last());
    }
}

/// Where the total is the sum of the counts per endpoint, no endpoint has counted more
/// requests than the total.
pub proof fn lemma_count_at_most_total(c: PerMinuteRequestsCounter, endpoint: Seq<char>)
    requires
        c.wf(),
        c.counts_add_up(),
    ensures
        requests_to(c.per_endpoint_requests@, endpoint) <= c.total_requests,
{
    if c.per_endpoint_requests@.contains_key(endpoint) {
        c.per_endpoint_requests.lemma_value_seq_at(endpoint);
        lemma_count_at_most_sum(
            c.per_endpoint_requests.value_seq(),
            c.per_endpoint_requests.key_index(endpoint),
        );
    }
}

impl PerMinuteRequestsCounter {
    pub open spec fn wf(&self) -> bool {
        self.per_endpoint_requests.wf()
    }

    /// The total is the sum of the counts per endpoint.
    pub open spec fn counts_add_up(&self) -> bool {
        self.total_requests == count_sum(self.per_endpoint_requests.value_seq())
    }

    /// A counter with no request yet, for the given minute.
    pub fn new(current_minute: u64) -> (c: Self)
        ensures
            c.wf(),
            c.minute == current_minute,
            c.total_requests == 0,
            c.per_endpoint_requests@ == Map::<Seq<char>, u64>::empty(),
            c.counts_add_up(),
    {
        Self { minute: current_minute, total_requests: 0, per_endpoint_requests: NameMap::new() }
    }

    /// Counts one more request, overall and for the endpoint (which starts at zero).
    pub fn increment(&mut self, endpoint: ArcString)
        requires
            old(self).wf(),
            old(self).total_requests < u64::MAX,
            requests_to(old(self).per_endpoint_requests@, endpoint@) < u64::MAX,
        ensures
            final(self).wf(),
            final(self).minute == old(self).minute,
            final(self).total_requests == old(self).total_requests + 1,
            final(self).per_endpoint_requests@ == old(self).per_endpoint_requests@.insert(
                endpoint@,
                (requests_to(old(self).per_endpoint_requests@, endpoint@) + 1) as u64,
            ),
            old(self).counts_add_up() ==> final(self).counts_add_up(),
    {
        self.total_requests += 1;
        let current: u64 = match self.per_endpoint_requests.get(&endpoint) {
            Some(n) => *n,
            None => 0,
        };
        let ghost before = self.per_endpoint_requests;
        self.per_endpoint_requests.insert(endpoint, current + 1);
        proof {
            if before@.contains_key(endpoint@) {
                lemma_count_sum_update(
                    before.value_seq(),
                    before.key_index(endpoint@),
                    (current + 1) as u64,
                );
            } else {
                assert(self.per_endpoint_requests.value_seq().drop_last() =~= before.value_seq());
            }
        }
    }

    /// Starts counting afresh for a new minute.
    pub fn reset(&mut self, current_minute: u64)
        ensures
            final(self).wf(),
            final(self).minute == current_minute,
            final(self).total_requests == 0,
            final(self).per_endpoint_requests@ == Map::<Seq<char>, u64>::empty(),
            final(self).counts_add_up(),
    {
        self.minute = current_minute;
        self.total_requests = 0;
        self.per_endpoint_requests = NameMap::new();
    }
}

} // verus!
