use balancebeam::config::{ConfigError, ProxyConfig};
use balancebeam::connection::{
    error_status, react, Action, Connection, Event, Phase, RequestError, BAD_GATEWAY, BAD_REQUEST,
    PAYLOAD_TOO_LARGE, SERVICE_UNAVAILABLE, TOO_MANY_REQUESTS,
};
use balancebeam::header::extend_header_value;
use balancebeam::health::{alive_set, HealthRound, ProbeOutcome};
use balancebeam::rate_limit::{Admission, RateLimiter};
use balancebeam::upstream::UpstreamSet;
use rand::rngs::StdRng;
use rand::SeedableRng;

fn addresses(names: &[&str]) -> Vec<String> {
    names.iter().map(|n| n.to_string()).collect()
}

fn sorted(mut v: Vec<String>) -> Vec<String> {
    v.sort();
    v
}

fn run_round(upstreams: &Vec<String>, outcomes: &[ProbeOutcome], set: &mut UpstreamSet) {
    let mut round = HealthRound::begin(upstreams);
    let mut i = 0;
    while let Some(target) = round.next_target() {
        assert_eq!(target, upstreams[i]);
        round = round.record(outcomes[i]);
        i += 1;
    }
    assert!(round.is_complete());
    round.finish(set);
}

#[test]
fn config_needs_an_upstream() {
    let refused = ProxyConfig::new("0.0.0.0:1100".to_string(), Vec::new(), 10, "/".to_string(), 0);
    assert!(matches!(refused, Err(ConfigError::NoUpstream)));
}

#[test]
fn config_keeps_its_settings() {
    let ups = addresses(&["10.0.0.1:80", "10.0.0.2:80"]);
    let config =
        ProxyConfig::new("0.0.0.0:1100".to_string(), ups.clone(), 10, "/health".to_string(), 5)
            .ok()
            .unwrap();
    assert_eq!(config.bind(), "0.0.0.0:1100");
    assert_eq!(config.upstreams(), &ups);
    assert_eq!(config.health_check_interval(), 10);
    assert_eq!(config.health_check_path(), "/health");
    assert_eq!(config.max_requests_per_minute(), 5);
    assert_eq!(sorted(config.initial_upstreams().snapshot()), ups);
    assert_eq!(config.new_limiter().threshold(), 5);
    let round = config.begin_round();
    assert!(!round.is_complete());
    assert_eq!(round.next_target(), Some("10.0.0.1:80".to_string()));
}

#[test]
fn upstream_set_has_no_repetitions() {
    let set = UpstreamSet::from_addresses(&addresses(&["a:1", "b:1", "a:1"]));
    assert_eq!(set.len(), 2);
    assert_eq!(set.snapshot(), addresses(&["a:1", "b:1"]));
    assert!(set.contains(&"a:1".to_string()));
    assert!(!set.contains(&"c:1".to_string()));
}

#[test]
fn upstream_set_insert_and_remove() {
    let mut set = UpstreamSet::none_alive(&addresses(&["a:1", "b:1", "c:1"]));
    assert!(set.is_empty());
    assert!(set.insert("a:1".to_string()));
    assert!(!set.insert("a:1".to_string()));
    assert!(set.insert("b:1".to_string()));
    assert!(set.insert("c:1".to_string()));
    assert_eq!(set.position(&"b:1".to_string()), Some(1));
    assert!(set.remove(&"b:1".to_string()));
    assert!(!set.remove(&"b:1".to_string()));
    assert_eq!(set.snapshot(), addresses(&["a:1", "c:1"]));
    assert_eq!(set.get(1), "c:1");
    assert_eq!(set.pick(Some(0)), Some("a:1".to_string()));
    assert_eq!(set.pick(None), None);
    set.replace(UpstreamSet::new());
    assert!(set.is_empty());
}

#[test]
fn upstream_set_stays_within_the_configured() {
    let mut set = UpstreamSet::from_addresses(&addresses(&["a:1", "b:1"]));
    assert!(set.is_configured(&"a:1".to_string()));
    assert!(!set.is_configured(&"z:1".to_string()));
    assert!(!set.insert("z:1".to_string()));
    assert_eq!(set.snapshot(), addresses(&["a:1", "b:1"]));
    assert!(set.remove(&"a:1".to_string()));
    assert!(set.is_configured(&"a:1".to_string()));
    assert!(set.insert("a:1".to_string()));
    assert_eq!(set.snapshot(), addresses(&["b:1", "a:1"]));
    let mut none = UpstreamSet::new();
    assert!(!none.insert("a:1".to_string()));
    assert!(none.is_empty());
}

#[test]
fn draw_stays_within_the_set() {
    let set = UpstreamSet::from_addresses(&addresses(&["a:1", "b:1", "c:1"]));
    let mut seen = [false; 3];
    for seed in 0..200u64 {
        let mut rng = StdRng::seed_from_u64(seed);
        let index = set.draw(&mut rng).unwrap();
        assert!(index < 3);
        seen[index] = true;
        let chosen = set.choose_random(&mut rng).unwrap();
        assert!(set.contains(&chosen));
    }
    assert_eq!(seen, [true, true, true]);
}

#[test]
fn nothing_is_drawn_from_an_empty_set() {
    let set = UpstreamSet::new();
    let mut rng = StdRng::seed_from_u64(1);
    assert_eq!(set.draw(&mut rng), None);
    assert_eq!(set.choose_random(&mut rng), None);
}

#[test]
fn round_keeps_exactly_those_that_answered_200() {
    let ups = addresses(&["a:1", "b:1", "c:1", "d:1", "e:1"]);
    let outcomes = [
        ProbeOutcome::Status(200),
        ProbeOutcome::ConnectFailed,
        ProbeOutcome::Status(404),
        ProbeOutcome::Status(200),
        ProbeOutcome::ReadFailed,
    ];
    let mut set = UpstreamSet::from_addresses(&ups);
    run_round(&ups, &outcomes, &mut set);
    assert_eq!(set.snapshot(), addresses(&["a:1", "d:1"]));
    for alive in set.snapshot() {
        assert!(ups.contains(&alive));
    }
    assert_eq!(alive_set(&ups, &outcomes.to_vec()).snapshot(), addresses(&["a:1", "d:1"]));
}

#[test]
fn round_revives_an_upstream_that_was_removed() {
    let ups = addresses(&["a:1", "b:1"]);
    let mut set = UpstreamSet::from_addresses(&ups);
    set.remove(&"a:1".to_string());
    run_round(&ups, &[ProbeOutcome::Status(200), ProbeOutcome::Status(200)], &mut set);
    assert_eq!(set.snapshot(), ups);
}

#[test]
fn probe_outcomes_alive_only_on_200() {
    assert!(ProbeOutcome::Status(200).is_alive());
    assert!(!ProbeOutcome::Status(201).is_alive());
    assert!(!ProbeOutcome::Status(500).is_alive());
    assert!(!ProbeOutcome::ConnectFailed.is_alive());
    assert!(!ProbeOutcome::WriteFailed.is_alive());
    assert!(!ProbeOutcome::ReadFailed.is_alive());
}

#[test]
fn round_with_every_upstream_down_gives_bad_gateway() {
    let ups = addresses(&["a:1", "b:1"]);
    let mut set = UpstreamSet::from_addresses(&ups);
    run_round(&ups, &[ProbeOutcome::Status(500), ProbeOutcome::ConnectFailed], &mut set);
    assert!(set.is_empty());
    let mut limiter = RateLimiter::new(0);
    let mut rng = StdRng::seed_from_u64(3);
    let mut conn = Connection::new(1);
    let action = conn.step(Event::Accepted, &mut set, &mut limiter, &mut rng);
    assert_eq!(action, Action::ReplyAndClose(502));
    assert!(conn.is_closed());
    assert_eq!(conn.upstream(), None);
}

#[test]
fn only_the_healthy_upstream_is_routed_to() {
    let ups = addresses(&["A:80", "B:80"]);
    let mut set = UpstreamSet::from_addresses(&ups);
    run_round(&ups, &[ProbeOutcome::Status(500), ProbeOutcome::Status(200)], &mut set);
    assert_eq!(set.snapshot(), addresses(&["B:80"]));
    let mut limiter = RateLimiter::new(0);
    for seed in 0..100u64 {
        let mut rng = StdRng::seed_from_u64(seed);
        let mut conn = Connection::new(seed as u128);
        let action = conn.step(Event::Accepted, &mut set, &mut limiter, &mut rng);
        assert_eq!(action, Action::Connect);
        assert_eq!(conn.upstream(), Some("B:80".to_string()));
    }
}

#[test]
fn second_request_reuses_the_upstream() {
    let ups = addresses(&["A:80", "B:80"]);
    let mut set = UpstreamSet::from_addresses(&ups);
    let mut limiter = RateLimiter::new(0);
    let mut rng = StdRng::seed_from_u64(11);
    let mut conn = Connection::new(7);
    assert_eq!(conn.phase(), Phase::Idle);
    assert_eq!(conn.step(Event::Accepted, &mut set, &mut limiter, &mut rng), Action::Connect);
    let upstream = conn.upstream().unwrap();
    assert_eq!(conn.step(Event::Connected, &mut set, &mut limiter, &mut rng), Action::ReadRequest);
    assert_eq!(conn.step(Event::RequestRead, &mut set, &mut limiter, &mut rng), Action::Forward);
    assert_eq!(conn.step(Event::Forwarded, &mut set, &mut limiter, &mut rng), Action::ReadResponse);
    assert_eq!(conn.step(Event::ResponseRead, &mut set, &mut limiter, &mut rng), Action::Relay);
    assert_eq!(conn.step(Event::ResponseSent, &mut set, &mut limiter, &mut rng), Action::ReadRequest);
    // the health monitor drops the upstream between the two requests
    run_round(&ups, &[ProbeOutcome::Status(500), ProbeOutcome::Status(500)], &mut set);
    assert!(set.is_empty());
    assert_eq!(conn.step(Event::RequestRead, &mut set, &mut limiter, &mut rng), Action::Forward);
    assert_eq!(conn.upstream(), Some(upstream));
    assert_eq!(conn.phase(), Phase::ForwardRequest);
    assert!(set.is_empty());
    assert_eq!(conn.step(Event::Forwarded, &mut set, &mut limiter, &mut rng), Action::ReadResponse);
    assert_eq!(conn.step(Event::ResponseRead, &mut set, &mut limiter, &mut rng), Action::Relay);
}

#[test]
fn failed_connect_removes_the_upstream_and_retries() {
    let mut set = UpstreamSet::from_addresses(&addresses(&["A:80", "B:80"]));
    let mut limiter = RateLimiter::new(0);
    let mut conn = Connection::new(7);
    let first = conn.advance(Event::Accepted, &mut set, &mut limiter, Some("A:80".to_string()));
    assert_eq!(first, Action::Connect);
    assert_eq!(conn.phase(), Phase::ConnectUpstream);
    assert_eq!(conn.upstream(), Some("A:80".to_string()));
    let mut rng = StdRng::seed_from_u64(5);
    let second = conn.step(Event::ConnectFailed, &mut set, &mut limiter, &mut rng);
    assert_eq!(second, Action::Connect);
    assert_eq!(conn.upstream(), Some("B:80".to_string()));
    assert_eq!(set.snapshot(), addresses(&["B:80"]));
    let third = conn.step(Event::ConnectFailed, &mut set, &mut limiter, &mut rng);
    assert_eq!(third, Action::ReplyAndClose(BAD_GATEWAY));
    assert!(set.is_empty());
    assert!(conn.is_closed());
    assert!(!conn.accepts(Event::Accepted));
}

#[test]
fn upstream_failures_after_connect_leave_the_set_alone() {
    let mut set = UpstreamSet::from_addresses(&addresses(&["A:80"]));
    let mut limiter = RateLimiter::new(0);
    let mut rng = StdRng::seed_from_u64(5);
    let mut conn = Connection::new(7);
    conn.step(Event::Accepted, &mut set, &mut limiter, &mut rng);
    conn.step(Event::Connected, &mut set, &mut limiter, &mut rng);
    conn.step(Event::RequestRead, &mut set, &mut limiter, &mut rng);
    let action = conn.step(Event::ForwardFailed, &mut set, &mut limiter, &mut rng);
    assert_eq!(action, Action::ReplyAndClose(502));
    assert!(conn.is_closed());
    assert_eq!(set.snapshot(), addresses(&["A:80"]));

    let mut conn = Connection::new(8);
    conn.step(Event::Accepted, &mut set, &mut limiter, &mut rng);
    conn.step(Event::Connected, &mut set, &mut limiter, &mut rng);
    conn.step(Event::RequestRead, &mut set, &mut limiter, &mut rng);
    conn.step(Event::Forwarded, &mut set, &mut limiter, &mut rng);
    let action = conn.step(Event::ResponseFailed, &mut set, &mut limiter, &mut rng);
    assert_eq!(action, Action::ReplyAndClose(502));
    assert_eq!(set.snapshot(), addresses(&["A:80"]));
}

#[test]
fn request_errors_are_answered_or_end_the_connection() {
    let read = Phase::ReadRequest;
    let ok = Admission::Admitted;
    let failed = |e| react(read, Event::RequestFailed(e), ok);
    assert_eq!(failed(RequestError::IncompleteRequest(0)), (Phase::Closed, Action::Close));
    assert_eq!(failed(RequestError::ConnectionError), (Phase::Closed, Action::Close));
    assert_eq!(
        failed(RequestError::IncompleteRequest(12)),
        (Phase::SendResponse, Action::Reply(400))
    );
    assert_eq!(failed(RequestError::MalformedRequest), (Phase::SendResponse, Action::Reply(400)));
    assert_eq!(
        failed(RequestError::InvalidContentLength),
        (Phase::SendResponse, Action::Reply(400))
    );
    assert_eq!(
        failed(RequestError::ContentLengthMismatch),
        (Phase::SendResponse, Action::Reply(400))
    );
    assert_eq!(
        failed(RequestError::RequestBodyTooLarge),
        (Phase::SendResponse, Action::Reply(413))
    );
    assert_eq!(react(Phase::SendResponse, Event::ResponseSent, ok), (read, Action::ReadRequest));
}

#[test]
fn error_statuses() {
    assert_eq!(error_status(RequestError::IncompleteRequest(3)), BAD_REQUEST);
    assert_eq!(error_status(RequestError::MalformedRequest), 400);
    assert_eq!(error_status(RequestError::InvalidContentLength), 400);
    assert_eq!(error_status(RequestError::ContentLengthMismatch), 400);
    assert_eq!(error_status(RequestError::RequestBodyTooLarge), PAYLOAD_TOO_LARGE);
    assert_eq!(error_status(RequestError::ConnectionError), SERVICE_UNAVAILABLE);
    assert_eq!((PAYLOAD_TOO_LARGE, TOO_MANY_REQUESTS, SERVICE_UNAVAILABLE), (413, 429, 503));
}

#[test]
fn connection_accepts_only_what_its_phase_expects() {
    let conn = Connection::new(9);
    assert_eq!(conn.client(), 9);
    assert!(conn.accepts(Event::Accepted));
    assert!(!conn.accepts(Event::Connected));
    assert!(!conn.accepts(Event::RequestRead));
    assert!(!conn.accepts(Event::ResponseSent));
}

#[test]
fn limiter_admits_up_to_the_threshold() {
    let threshold = 3;
    let mut limiter = RateLimiter::new(threshold);
    assert_eq!(limiter.threshold(), 3);
    for _ in 0..threshold {
        assert_eq!(limiter.check_and_increment(42), Admission::Admitted);
    }
    assert_eq!(limiter.check_and_increment(42), Admission::Rejected);
    assert_eq!(limiter.count(42), 4);
    // a rejected request is counted too
    assert_eq!(limiter.check_and_increment(42), Admission::Rejected);
    assert_eq!(limiter.count(42), 5);
    // other clients have counters of their own
    assert_eq!(limiter.check_and_increment(43), Admission::Admitted);
    assert_eq!(limiter.count(43), 1);
    limiter.clear();
    assert_eq!(limiter.count(42), 0);
    assert_eq!(limiter.check_and_increment(42), Admission::Admitted);
    assert_eq!(limiter.count(42), 1);
}

#[test]
fn limiter_allows_a_double_burst_across_the_window_boundary() {
    let mut limiter = RateLimiter::new(2);
    assert_eq!(limiter.check_and_increment(1), Admission::Admitted);
    assert_eq!(limiter.check_and_increment(1), Admission::Admitted);
    limiter.clear();
    assert_eq!(limiter.check_and_increment(1), Admission::Admitted);
    assert_eq!(limiter.check_and_increment(1), Admission::Admitted);
    assert_eq!(limiter.check_and_increment(1), Admission::Rejected);
}

#[test]
fn limiter_switched_off_counts_nothing() {
    let mut limiter = RateLimiter::new(0);
    for _ in 0..100 {
        assert_eq!(limiter.check_and_increment(5), Admission::Admitted);
    }
    assert_eq!(limiter.count(5), 0);
}

#[test]
fn rejected_request_is_answered_429_and_the_connection_goes_on() {
    let mut set = UpstreamSet::from_addresses(&addresses(&["A:80"]));
    let mut limiter = RateLimiter::new(1);
    let mut rng = StdRng::seed_from_u64(5);
    let mut conn = Connection::new(7);
    conn.step(Event::Accepted, &mut set, &mut limiter, &mut rng);
    conn.step(Event::Connected, &mut set, &mut limiter, &mut rng);
    assert_eq!(conn.step(Event::RequestRead, &mut set, &mut limiter, &mut rng), Action::Forward);
    conn.step(Event::Forwarded, &mut set, &mut limiter, &mut rng);
    conn.step(Event::ResponseRead, &mut set, &mut limiter, &mut rng);
    conn.step(Event::ResponseSent, &mut set, &mut limiter, &mut rng);
    assert_eq!(
        conn.step(Event::RequestRead, &mut set, &mut limiter, &mut rng),
        Action::Reply(TOO_MANY_REQUESTS)
    );
    assert_eq!(conn.phase(), Phase::SendResponse);
    assert_eq!(
        conn.step(Event::ResponseSent, &mut set, &mut limiter, &mut rng),
        Action::ReadRequest
    );
    assert_eq!(limiter.count(7), 2);
}

#[test]
fn forwarded_for_is_created_when_absent() {
    assert_eq!(extend_header_value(None, b"10.1.2.3"), b"10.1.2.3".to_vec());
}

#[test]
fn forwarded_for_is_appended_when_present() {
    assert_eq!(
        extend_header_value(Some(b"192.168.0.9"), b"10.1.2.3"),
        b"192.168.0.9, 10.1.2.3".to_vec()
    );
    assert_eq!(
        extend_header_value(Some(b"1.1.1.1, 2.2.2.2"), b"3.3.3.3"),
        b"1.1.1.1, 2.2.2.2, 3.3.3.3".to_vec()
    );
}
