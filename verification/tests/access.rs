use shapka::auth::authenticator::{AuthOutcome, AuthScope, Authenticator};
use shapka::auth::utils::{authorize_token, generate_token, FORBIDDEN_URI, UNAUTHORIZED_URI};
use shapka::extentions::arc_string::ArcString;
use shapka::extentions::name_map::NameMap;
use shapka::extentions::vec_utils::{find_text, RemoveElem};
use shapka::throttling::rate_limiting::{
    RateDecision, RateLimiter, CREATE_GAME_REQUESTS_LIMIT, PER_ENDPOINT_DEFAULT_REQUESTS_LIMIT,
    TOTAL_REQUESTS_LIMIT,
};
use shapka::throttling::utils::{PerMinuteRequestsCounter, TOO_MANY_REQUESTS_URI};

#[test]
fn tokens_bind_game_player_and_secret() {
    assert_eq!(generate_token(1, "ana".to_string(), "s".to_string()), "1/ana/s");
    assert_eq!(generate_token(-12, "bo".to_string(), "x-y".to_string()), "-12/bo/x-y");
    assert!(authorize_token("1/ana/s".to_string(), 1, "ana".to_string(), "s".to_string()));
    assert!(!authorize_token("anything".to_string(), 1, "ana".to_string(), "s".to_string()));
    assert!(!authorize_token("2/ana/s".to_string(), 1, "ana".to_string(), "s".to_string()));
    assert!(!authorize_token("1/bo/s".to_string(), 1, "ana".to_string(), "s".to_string()));
    assert!(!authorize_token("1/ana/t".to_string(), 1, "ana".to_string(), "s".to_string()));
    assert_eq!(FORBIDDEN_URI, "/forbidden");
    assert_eq!(UNAUTHORIZED_URI, "/unauthorized");
}

#[test]
fn authenticator_scopes() {
    let a = Authenticator::new();
    for e in ["add_word", "delete_word", "authorize", "leave_game", "fetch_word", "guess_word", "host", "await", "game", "is_game_active", "kick_player"] {
        assert_eq!(a.scope(e), AuthScope::GameAndPlayer, "{}", e);
    }
    for e in ["fetch_players", "start_game", "fetch_game_state", "update_timer_state", "next_turn", "next_round", "has_game_started"] {
        assert_eq!(a.scope(e), AuthScope::GameOnly, "{}", e);
    }
    for e in ["", "join_game", "create_game", "gameevents", "results", "undo_guess_word"] {
        assert_eq!(a.scope(e), AuthScope::Open, "{}", e);
    }
}

#[test]
fn token_check() {
    let a = Authenticator::new();
    let players = vec![ArcString::from_str("ana"), ArcString::from_str("bo")];
    let ana = generate_token(3, "ana".to_string(), "s".to_string());
    let check = |scope, token: Option<&str>, player: Option<&str>| {
        a.check_token(
            scope,
            token.map(|t| t.to_string()),
            3,
            player.map(|p| p.to_string()),
            &players,
            "s".to_string(),
        )
    };
    assert_eq!(check(AuthScope::Open, None, None), AuthOutcome::Proceed);
    assert_eq!(check(AuthScope::GameAndPlayer, None, Some("ana")), AuthOutcome::Unauthorized);
    assert_eq!(check(AuthScope::GameOnly, None, None), AuthOutcome::Unauthorized);
    assert_eq!(check(AuthScope::GameAndPlayer, Some(&ana), Some("ana")), AuthOutcome::Proceed);
    assert_eq!(check(AuthScope::GameAndPlayer, Some(&ana), Some("bo")), AuthOutcome::Forbidden);
    assert_eq!(check(AuthScope::GameAndPlayer, Some(&ana), None), AuthOutcome::Forbidden);
    assert_eq!(check(AuthScope::GameAndPlayer, Some("t"), Some("ana")), AuthOutcome::Forbidden);
    assert_eq!(check(AuthScope::GameOnly, Some(&ana), None), AuthOutcome::Proceed);
    assert_eq!(check(AuthScope::GameOnly, Some("3/cy/s"), None), AuthOutcome::Forbidden);
    assert_eq!(check(AuthScope::GameOnly, Some("4/ana/s"), None), AuthOutcome::Forbidden);
}

#[test]
fn counter_new_increment_reset() {
    let mut c = PerMinuteRequestsCounter::new(10);
    assert_eq!(c.minute, 10);
    assert_eq!(c.total_requests, 0);
    c.increment(ArcString::from_str("a"));
    c.increment(ArcString::from_str("a"));
    c.increment(ArcString::from_str("b"));
    assert_eq!(c.total_requests, 3);
    assert_eq!(*c.per_endpoint_requests.get(&ArcString::from_str("a")).unwrap(), 2);
    assert_eq!(*c.per_endpoint_requests.get(&ArcString::from_str("b")).unwrap(), 1);
    c.reset(11);
    assert_eq!(c.minute, 11);
    assert_eq!(c.total_requests, 0);
    assert_eq!(c.per_endpoint_requests.len(), 0);
    assert_eq!(TOO_MANY_REQUESTS_URI, "/too_many_requests");
}

#[test]
fn total_is_the_sum_of_the_endpoint_counts() {
    let l = limiter();
    let mut c = l.first_request_counter(3, "join_game");
    for (minute, endpoint) in [(3, "create_game"), (3, "join_game"), (3, "other"), (4, "join_game"), (4, "create_game")] {
        l.check_request(&mut c, minute, endpoint);
        let sum: u64 = c.per_endpoint_requests.values().iter().sum();
        assert_eq!(c.total_requests, sum);
    }
    assert_eq!(c.total_requests, 2);
}

fn limiter() -> RateLimiter {
    RateLimiter::new(vec!["create_game".to_string(), "join_game".to_string(), "".to_string()])
}

#[test]
fn endpoints_are_counted_by_name() {
    let l = limiter();
    assert_eq!(l.endpoint_for_throttling("join_game").to_owned_string(), "join_game");
    assert_eq!(l.endpoint_for_throttling("unknown").to_owned_string(), "");
    let c = l.first_request_counter(5, "join_game");
    assert_eq!(c.minute, 5);
    assert_eq!(c.total_requests, 1);
    assert_eq!(*c.per_endpoint_requests.get(&ArcString::from_str("join_game")).unwrap(), 1);
}

#[test]
fn create_game_is_limited_to_five_a_minute() {
    let l = limiter();
    let mut c = l.first_request_counter(5, "create_game");
    for _ in 1..CREATE_GAME_REQUESTS_LIMIT {
        assert_eq!(l.check_request(&mut c, 5, "create_game"), RateDecision::Allow);
    }
    assert_eq!(*c.per_endpoint_requests.get(&ArcString::from_str("create_game")).unwrap(), 5);
    assert_eq!(l.check_request(&mut c, 5, "create_game"), RateDecision::TooManyRequests);
    assert_eq!(c.total_requests, 5);
    // other endpoints still go through
    assert_eq!(l.check_request(&mut c, 5, "join_game"), RateDecision::Allow);
    // a new minute starts afresh, counting the request that opens it
    assert_eq!(l.check_request(&mut c, 6, "create_game"), RateDecision::Allow);
    assert_eq!(c.minute, 6);
    assert_eq!(c.total_requests, 1);
    assert_eq!(*c.per_endpoint_requests.get(&ArcString::from_str("create_game")).unwrap(), 1);
    assert!(c.per_endpoint_requests.get(&ArcString::from_str("join_game")).is_none());
}

#[test]
fn no_more_than_five_create_game_in_a_new_minute() {
    let l = limiter();
    let mut c = l.first_request_counter(5, "join_game");
    let mut allowed = 0;
    for _ in 0..10 {
        if l.check_request(&mut c, 6, "create_game") == RateDecision::Allow {
            allowed += 1;
        }
    }
    assert_eq!(allowed, CREATE_GAME_REQUESTS_LIMIT);
}

#[test]
fn default_and_total_limits() {
    let l = limiter();
    let mut c = l.first_request_counter(1, "join_game");
    let mut allowed = 1;
    while l.check_request(&mut c, 1, "join_game") == RateDecision::Allow {
        allowed += 1;
    }
    assert_eq!(allowed, PER_ENDPOINT_DEFAULT_REQUESTS_LIMIT);
    let mut c = PerMinuteRequestsCounter::new(1);
    c.total_requests = TOTAL_REQUESTS_LIMIT;
    assert_eq!(l.check_request(&mut c, 1, "join_game"), RateDecision::TooManyRequests);
    assert_eq!(c.total_requests, TOTAL_REQUESTS_LIMIT);
    assert!(c.total_requests <= TOTAL_REQUESTS_LIMIT);
}

#[test]
fn name_map_basics() {
    let mut m: NameMap<u64> = NameMap::new();
    m.insert(ArcString::from_str("a"), 1);
    m.insert(ArcString::from_str("b"), 2);
    m.insert(ArcString::from_str("a"), 3);
    assert_eq!(m.len(), 2);
    assert_eq!(m.get(&ArcString::from_str("a")), Some(&3));
    assert!(m.contains_key(&ArcString::from_str("b")));
    let (k, v) = m.remove_entry(&ArcString::from_str("a")).unwrap();
    assert_eq!((k.to_owned_string(), v), ("a".to_string(), 3));
    assert!(m.remove_entry(&ArcString::from_str("a")).is_none());
    assert_eq!(m.keys().len(), 1);
    assert_eq!(m.values(), &vec![2]);
}

#[test]
fn remove_element_removes_first_match() {
    let mut v = vec![ArcString::from_str("a"), ArcString::from_str("b"), ArcString::from_str("a")];
    assert!(v.remove_element(ArcString::from_str("a")));
    let texts: Vec<String> = v.iter().map(|a| a.to_owned_string()).collect();
    assert_eq!(texts, vec!["b", "a"]);
    assert!(!v.remove_element(ArcString::from_str("z")));
    assert_eq!(v.len(), 2);
    assert_eq!(find_text(&v, &ArcString::from_str("a")), Some(1));
    assert_eq!(find_text(&v, &ArcString::from_str("q")), None);
}
