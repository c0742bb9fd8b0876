use chashmap::CHashMap;
use vstd::prelude::*;

use crate::extentions::arc_string::ArcString;
use crate::extentions::name_map::{lemma_push_to_set, string_texts};
use crate::throttling::utils::{requests_to, PerMinuteRequestsCounter};

verus! {

#[verifier::external_type_specification]
#[verifier::external_body]
#[verifier::reject_recursive_types(K)]
#[verifier::reject_recursive_types(V)]
pub struct ExCHashMap<K, V>(CHashMap<K, V>);

/// What a table of endpoints holds: each endpoint's name, mapped to the text of its value.
pub uninterp spec fn endpoint_entries(m: CHashMap<String, ArcString>) -> Map<Seq<char>, Seq<char>>;

/// What a table of limits holds: each endpoint's name, mapped to its limit.
pub uninterp spec fn limit_entries(m: CHashMap<ArcString, u64>) -> Map<Seq<char>, u64>;

/// `CHashMap::new` (chashmap) for a table of endpoints: a table with no entry.
#[verifier::external_body]
fn new_endpoint_table() -> (table: CHashMap<String, ArcString>)
    ensures
        endpoint_entries(table).dom() == Set::<Seq<char>>::empty(),
{
    CHashMap::new()
}

/// `CHashMap::insert` (chashmap) on a table of endpoints: the entry of the key (found by
/// the text of the key, as `String`'s `Hash` and `==` go) now holds the value, and the
/// other entries stay. Taken through `&mut`, since the table changes.
#[verifier::external_body]
fn endpoint_table_insert(m: &mut CHashMap<String, ArcString>, key: String, value: ArcString)
    ensures
        endpoint_entries(*final(m)) == endpoint_entries(*old(m)).insert(key@, value@),
{
    m.insert(key, value);
}

/// `CHashMap::get` (chashmap) on a table of endpoints, with the value behind the guard
/// cloned (`ArcString::clone` shares the same string): the value of the key's entry,
/// if there is one.
#[verifier::external_body]
fn endpoint_table_get(m: &CHashMap<String, ArcString>, key: &str) -> (r: Option<ArcString>)
    ensures
        r is None <==> !endpoint_entries(*m).contains_key(key@),
        r matches Some(v) ==> v@ == endpoint_entries(*m)[key@],
{
    match m.get(key) {
        Some(guard) => Some((*guard).clone()),
        None => None,
    }
}

/// `CHashMap::new` (chashmap) for a table of limits: a table with no entry.
#[verifier::external_body]
fn new_limit_table() -> (table: CHashMap<ArcString, u64>)
    ensures
        limit_entries(table).dom() == Set::<Seq<char>>::empty(),
{
    CHashMap::new()
}

/// `CHashMap::insert` (chashmap) on a table of limits: the entry of the key (found by the
/// text of the key, which `ArcString`'s derived `Hash` and `==` go by) now holds the
/// value, and the other entries stay. Taken through `&mut`, since the table changes.
#[verifier::external_body]
fn limit_table_insert(m: &mut CHashMap<ArcString, u64>, key: ArcString, value: u64)
    ensures
        limit_entries(*final(m)) == limit_entries(*old(m)).insert(key@, value),
{
    m.insert(key, value);
}

/// `CHashMap::get` (chashmap) on a table of limits, with the value behind the guard
/// copied: the limit of the key's entry, if there is one.
#[verifier::external_body]
fn limit_table_get(m: &CHashMap<ArcString, u64>, key: &ArcString) -> (r: Option<u64>)
    ensures
        r is None <==> !limit_entries(*m).contains_key(key@),
        r matches Some(v) ==> v == limit_entries(*m)[key@],
{
    match m.get(key) {
        Some(guard) => Some(*guard),
        None => None,
    }
}

/// Requests per minute that one sender may make in all.
pub const TOTAL_REQUESTS_LIMIT: u64 = 400;
/// Requests per minute that one sender may make to one endpoint, unless overridden.
pub const PER_ENDPOINT_DEFAULT_REQUESTS_LIMIT: u64 = 100;
/// Requests per minute that one sender may make to create games.
pub const CREATE_GAME_REQUESTS_LIMIT: u64 = 5;

/// What becomes of a request after the rate check.
#[derive(Debug, Clone, Copy, PartialEq, Eq, Structural)]
pub enum RateDecision {
    /// The request goes on to its endpoint.
    Allow,
    /// The request goes to the too-many-requests page.
    TooManyRequests,
}

/// The limits on how often one sender may call the endpoints, per minute.
pub struct RateLimiter {
    /// The known endpoints, each mapped to itself, so that counters share one string.
    endpoints: CHashMap<String, ArcString>,
    total_requests_limit: u64,
    per_endpoint_default_requests_limit: u64,
    per_endpoint_override_limits: CHashMap<ArcString, u64>,
}

impl RateLimiter {
    pub closed spec fn wf(&self) -> bool {
        &&& forall|k: Seq<char>| #[trigger] endpoint_entries(self.endpoints).contains_key(k)
            ==> endpoint_entries(self.endpoints)[k] == k
        &&& self.total_requests_limit > 0
        &&& self.per_endpoint_default_requests_limit > 0
        &&& forall|k: Seq<char>| #[trigger] limit_entries(self.per_endpoint_override_limits).contains_key(k)
            ==> limit_entries(self.per_endpoint_override_limits)[k] > 0
    }

    /// The endpoints whose requests are counted under their own name.
    pub closed spec fn known_endpoints(&self) -> Set<Seq<char>> {
        endpoint_entries(self.endpoints).dom()
    }

    pub closed spec fn total_limit(&self) -> u64 {
        self.total_requests_limit
    }

    /// The limit for requests to an endpoint, per minute.
    pub closed spec fn endpoint_limit(&self, endpoint: Seq<char>) -> u64 {
        if limit_entries(self.per_endpoint_override_limits).contains_key(endpoint) {
            limit_entries(self.per_endpoint_override_limits)[endpoint]
        } else {
            self.per_endpoint_default_requests_limit
        }
    }

    /// The name under which a request to the endpoint is counted: its own if it is known,
    /// the empty name otherwise.
    pub open spec fn counted_as(&self, endpoint: Seq<char>) -> Seq<char> {
        if self.known_endpoints().contains(endpoint) {
            endpoint
        } else {
            Seq::empty()
        }
    }

    /// The rate limiter for the endpoints named by the first segment of the routes.
    pub fn new(route_endpoints: Vec<String>) -> (r: Self)
        ensures
            r.wf(),
            r.known_endpoints() == string_texts(route_endpoints@).to_set(),
            r.total_limit() == TOTAL_REQUESTS_LIMIT,
            r.endpoint_limit("create_game"@) == CREATE_GAME_REQUESTS_LIMIT,
            forall|e: Seq<char>| e != "create_game"@ ==> #[trigger] r.endpoint_limit(e)
                == PER_ENDPOINT_DEFAULT_REQUESTS_LIMIT,
    {
        // Initialize the endpoints map with the base URIs of the routes
        let mut endpoints = new_endpoint_table();
        let mut i: usize = 0;
        while i < route_endpoints.len()
            invariant
                i <= route_endpoints@.len(),
                endpoint_entries(endpoints).dom() == string_texts(route_endpoints@.take(i as int)).to_set(),
                forall|k: Seq<char>| #[trigger] endpoint_entries(endpoints).contains_key(k)
                    ==> endpoint_entries(endpoints)[k] == k,
            decreases route_endpoints@.len() - i,
        {
            let route_uri = route_endpoints[i].clone();
            endpoint_table_insert(&mut endpoints, route_uri.clone(), ArcString::new(route_uri));
            proof {
                let t = string_texts(route_endpoints@.take(i + 1));
                assert(t =~= string_texts(route_endpoints@.take(i as int)).push(route_endpoints@[i as int]@));
                lemma_push_to_set(string_texts(route_endpoints@.take(i as int)), route_endpoints@[i as int]@);
                assert(endpoint_entries(endpoints).dom() =~= t.to_set());
            }
            i = i + 1;
        }
        assert(route_endpoints@.take(route_endpoints@.len() as int) =~= route_endpoints@);

        // Set override limits for specific endpoints
        let mut per_endpoint_override_limits = new_limit_table();
        limit_table_insert(
            &mut per_endpoint_override_limits,
            ArcString::from_str("create_game"),
            CREATE_GAME_REQUESTS_LIMIT,
        );

        Self {
            endpoints,
            total_requests_limit: TOTAL_REQUESTS_LIMIT,
            per_endpoint_default_requests_limit: PER_ENDPOINT_DEFAULT_REQUESTS_LIMIT,
            per_endpoint_override_limits,
        }
    }

    /// The shared string under which a request to the endpoint is counted.
    pub fn endpoint_for_throttling(&self, endpoint: &str) -> (r: ArcString)
        requires
            self.wf(),
        ensures
            r@ == self.counted_as(endpoint@),
    {
        match endpoint_table_get(&self.endpoints, endpoint) {
            Some(e) => e,
            None => ArcString::new(String::new()),
        }
    }

    fn limit_for(&self, endpoint: &ArcString) -> (limit: u64)
        ensures
            limit == self.endpoint_limit(endpoint@),
    {
        match limit_table_get(&self.per_endpoint_override_limits, endpoint) {
            Some(limit) => limit,
            None => self.per_endpoint_default_requests_limit,
        }
    }
    /// The counter of a sender's first request: it counts this request.
    pub fn first_request_counter(&self, current_minute: u64, endpoint: &str) -> (c: PerMinuteRequestsCounter)
        requires
            self.wf(),
        ensures
            c.wf(),
            c.minute == current_minute,
            c.total_requests == 1,
            c.counts_add_up(),
            c.per_endpoint_requests@ == Map::<Seq<char>, u64>::empty().insert(
                self.counted_as(endpoint@),
                1,
            ),
    {
        let endpoint_for_throttling = self.endpoint_for_throttling(endpoint);
        let mut counter = PerMinuteRequestsCounter::new(current_minute);
        counter.increment(endpoint_for_throttling);
        counter
    }

    /// The rate check of a request to `endpoint` at `minute` that found the counter `b`,
    /// left it as `a` and decided `r`. In a new minute the counter starts afresh with this
    /// request, which is counted and let through. In the counter's minute, the request is
    /// throttled where the sender has reached the total limit or the endpoint's limit,
    /// and counted and let through otherwise.
    pub open spec fn request_checked(
        &self,
        b: PerMinuteRequestsCounter,
        a: PerMinuteRequestsCounter,
        minute: u64,
        endpoint: Seq<char>,
        r: RateDecision,
    ) -> bool {
        let e = self.counted_as(endpoint);
        let made = requests_to(b.per_endpoint_requests@, e);
        &&& b.minute != minute ==> {
            &&& r == RateDecision::Allow
            &&& a.minute == minute
            &&& a.total_requests == 1
            &&& a.per_endpoint_requests@ == Map::<Seq<char>, u64>::empty().insert(e, 1)
        }
        &&& b.minute == minute && (b.total_requests >= self.total_limit() || made
            >= self.endpoint_limit(e)) ==> r == RateDecision::TooManyRequests && a == b
        &&& b.minute == minute && b.total_requests < self.total_limit() && made
            < self.endpoint_limit(e) ==> {
            &&& r == RateDecision::Allow
            &&& a.minute == b.minute
            &&& a.total_requests == b.total_requests + 1
            &&& a.per_endpoint_requests@ == b.per_endpoint_requests@.insert(e, (made + 1) as u64)
        }
    }

    /// The rate check of a request from a sender with a counter. In a new minute the
    /// counter starts afresh with this request, which is counted and let through. In the counter's minute,
    /// the request is throttled where the sender has reached the total limit or the
    /// endpoint's limit, and counted and let through otherwise.
    pub fn check_request(
        &self,
        counter: &mut PerMinuteRequestsCounter,
        current_minute: u64,
        endpoint: &str,
    ) -> (r: RateDecision)
        requires
            self.wf(),
            old(counter).wf(),
        ensures
            final(counter).wf(),
            old(counter).counts_add_up() ==> final(counter).counts_add_up(),
            old(counter).total_requests <= self.total_limit() ==> final(counter).total_requests
                <= self.total_limit(),
            forall|e: Seq<char>| #[trigger] requests_to(old(counter).per_endpoint_requests@, e)
                <= self.endpoint_limit(e) ==> requests_to(final(counter).per_endpoint_requests@, e)
                <= self.endpoint_limit(e),
            self.request_checked(*old(counter), *final(counter), current_minute, endpoint@, r),
    {
        let endpoint_for_throttling = self.endpoint_for_throttling(endpoint);

        // If it's a new minute, start counting afresh with this request, which no limit stops
        if counter.minute != current_minute {
            counter.reset(current_minute);
            counter.increment(endpoint_for_throttling);
            return RateDecision::Allow;
        }
        let current_endpoint_requests: u64 = match counter.per_endpoint_requests.get(&endpoint_for_throttling) {
            Some(n) => *n,
            None => 0,
        };
        let current_endpoint_limit = self.limit_for(&endpoint_for_throttling);
        if counter.total_requests >= self.total_requests_limit
            || current_endpoint_requests >= current_endpoint_limit {
            return RateDecision::TooManyRequests;
        }
        counter.increment(endpoint_for_throttling);
        RateDecision::Allow
    }
}

/// How many of the first `n` requests, to the endpoints `es` with the decisions `rs`,
/// were let through and counted under the name `e`.
pub open spec fn allowed_to(
    limiter: RateLimiter,
    rs: Seq<RateDecision>,
    es: Seq<Seq<char>>,
    e: Seq<char>,
    n: int,
) -> int
    decreases n,
{
    if n <= 0 {
        0
    } else {
        allowed_to(limiter, rs, es, e, n - 1) + if rs[n - 1] == RateDecision::Allow
            && limiter.counted_as(es[n - 1]) == e {
            1int
        } else {
            0int
        }
    }
}

/// How many of the first `n` requests with the decisions `rs` were let through.
pub open spec fn allowed_total(rs: Seq<RateDecision>, n: int) -> int
    decreases n,
{
    if n <= 0 {
        0
    } else {
        allowed_total(rs, n - 1) + if rs[n - 1] == RateDecision::Allow {
            1int
        } else {
            0int
        }
    }
}

/// What a counter had counted in the minute before the requests: nothing where it was
/// for another minute.
pub open spec fn counted_before(c: PerMinuteRequestsCounter, minute: u64, e: Seq<char>) -> int {
    if c.minute == minute {
        requests_to(c.per_endpoint_requests@, e) as int
    } else {
        0
    }
}

pub open spec fn total_before(c: PerMinuteRequestsCounter, minute: u64) -> int {
    if c.minute == minute {
        c.total_requests as int
    } else {
        0
    }
}

proof fn lemma_minute_prefix(
    limiter: RateLimiter,
    cs: Seq<PerMinuteRequestsCounter>,
    minute: u64,
    es: Seq<Seq<char>>,
    rs: Seq<RateDecision>,
    k: int,
)
    requires
        limiter.wf(),
        cs.len() == es.len() + 1,
        rs.len() == es.len(),
        0 <= k <= es.len(),
        cs[0].minute == minute ==> {
            &&& cs[0].total_requests <= limiter.total_limit()
            &&& forall|e: Seq<char>| #[trigger] requests_to(cs[0].per_endpoint_requests@, e)
                <= limiter.endpoint_limit(e)
        },
        forall|i: int|
            0 <= i < es.len() ==> #[trigger] limiter.request_checked(cs[i], cs[i + 1], minute, es[i], rs[i]),
    ensures
        k > 0 || cs[0].minute == minute ==> {
            &&& cs[k].minute == minute
            &&& cs[k].total_requests == total_before(cs[0], minute) + allowed_total(rs, k)
            &&& cs[k].total_requests <= limiter.total_limit()
            &&& forall|e: Seq<char>| #[trigger] requests_to(cs[k].per_endpoint_requests@, e)
                == counted_before(cs[0], minute, e) + allowed_to(limiter, rs, es, e, k)
            &&& forall|e: Seq<char>| #[trigger] requests_to(cs[k].per_endpoint_requests@, e)
                <= limiter.endpoint_limit(e)
        },
    decreases k,
{
    if k > 0 {
        lemma_minute_prefix(limiter, cs, minute, es, rs, k - 1);
        let i = k - 1;
        assert(limiter.request_checked(cs[i], cs[i + 1], minute, es[i], rs[i]));
        let ek = limiter.counted_as(es[i]);
        if cs[i].minute != minute {
            // only the first request can open the minute
            assert(i == 0);
            assert(allowed_total(rs, 0) == 0);
            assert forall|e: Seq<char>| #[trigger] requests_to(cs[k].per_endpoint_requests@, e)
                == counted_before(cs[0], minute, e) + allowed_to(limiter, rs, es, e, k) by {
                assert(allowed_to(limiter, rs, es, e, 0) == 0);
            }
            assert forall|e: Seq<char>| #[trigger] requests_to(cs[k].per_endpoint_requests@, e)
                <= limiter.endpoint_limit(e) by {
            }
        } else {
            assert forall|e: Seq<char>| #[trigger] requests_to(cs[k].per_endpoint_requests@, e)
                == counted_before(cs[0], minute, e) + allowed_to(limiter, rs, es, e, k) by {
                assert(requests_to(cs[i].per_endpoint_requests@, e) == counted_before(cs[0], minute, e)
                    + allowed_to(limiter, rs, es, e, i));
            }
            assert forall|e: Seq<char>| #[trigger] requests_to(cs[k].per_endpoint_requests@, e)
                <= limiter.endpoint_limit(e) by {
                assert(requests_to(cs[i].per_endpoint_requests@, e) <= limiter.endpoint_limit(e));
            }
        }
    }
}

/// Within one minute, the requests of one sender that are let through stay within the
/// limits: starting from the counter the sender had before the minute (or one already
/// in the minute and within the limits), after any requests checked in the minute, the
/// requests let through and counted under each endpoint, with those counted before in
/// the minute, are at most the endpoint's limit, and all of them at most the total limit.
pub proof fn law_per_minute_limits(
    limiter: RateLimiter,
    cs: Seq<PerMinuteRequestsCounter>,
    minute: u64,
    es: Seq<Seq<char>>,
    rs: Seq<RateDecision>,
)
    requires
        limiter.wf(),
        cs.len() == es.len() + 1,
        rs.len() == es.len(),
        cs[0].minute == minute ==> {
            &&& cs[0].total_requests <= limiter.total_limit()
            &&& forall|e: Seq<char>| #[trigger] requests_to(cs[0].per_endpoint_requests@, e)
                <= limiter.endpoint_limit(e)
        },
        forall|i: int|
            0 <= i < es.len() ==> #[trigger] limiter.request_checked(cs[i], cs[i + 1], minute, es[i], rs[i]),
    ensures
        forall|e: Seq<char>| #[trigger] allowed_to(limiter, rs, es, e, es.len() as int)
            + counted_before(cs[0], minute, e) <= limiter.endpoint_limit(e),
        allowed_total(rs, es.len() as int) + total_before(cs[0], minute) <= limiter.total_limit(),
{
    let n = es.len() as int;
    lemma_minute_prefix(limiter, cs, minute, es, rs, n);
    if n > 0 || cs[0].minute == minute {
        assert forall|e: Seq<char>| #[trigger] allowed_to(limiter, rs, es, e, n)
            + counted_before(cs[0], minute, e) <= limiter.endpoint_limit(e) by {
            assert(requests_to(cs[n].per_endpoint_requests@, e) <= limiter.endpoint_limit(e));
        }
    } else {
        assert forall|e: Seq<char>| #[trigger] allowed_to(limiter, rs, es, e, n)
            + counted_before(cs[0], minute, e) <= limiter.endpoint_limit(e) by {
            assert(allowed_to(limiter, rs, es, e, 0) == 0);
        }
    }
}

/// In the counter's minute, a request is throttled exactly when the sender has reached
/// the total limit or the limit of the request's endpoint, counted by that endpoint's own
/// requests: other endpoints' requests do not count against it, so a request below both
/// limits is let through and counted. A throttled request changes nothing.
pub proof fn law_throttled_exactly_at_the_limits(
    limiter: RateLimiter,
    b: PerMinuteRequestsCounter,
    a: PerMinuteRequestsCounter,
    minute: u64,
    endpoint: Seq<char>,
    r: RateDecision,
)
    requires
        limiter.request_checked(b, a, minute, endpoint, r),
        b.minute == minute,
    ensures
        (r == RateDecision::TooManyRequests) <==> (b.total_requests >= limiter.total_limit()
            || requests_to(b.per_endpoint_requests@, limiter.counted_as(endpoint))
            >= limiter.endpoint_limit(limiter.counted_as(endpoint))),
        r == RateDecision::TooManyRequests ==> a == b,
        r == RateDecision::Allow ==> a.total_requests == b.total_requests + 1 && requests_to(
            a.per_endpoint_requests@,
            limiter.counted_as(endpoint),
        ) == requests_to(b.per_endpoint_requests@, limiter.counted_as(endpoint)) + 1,
        forall|e: Seq<char>|
            e != limiter.counted_as(endpoint) ==> #[trigger] requests_to(a.per_endpoint_requests@, e)
                == requests_to(b.per_endpoint_requests@, e),
{
}

} // verus!
