use load_balancer::health::Health;
use load_balancer::internal_error::InternalError;
use load_balancer::least_response_load_balancer::LeastResponseLoadBalancer;
use load_balancer::outcome::{ForwardOutcome, ProbeOutcome};
use load_balancer::simple_backend::SimpleBackend;

fn pool(addresses: &[&str]) -> Vec<SimpleBackend> {
    addresses
        .iter()
        .map(|a| SimpleBackend::new(a.to_string(), Health::Healthy))
        .collect()
}

/// Drives one full request: pops candidates best-first, forwarding to each
/// until one answers. `answer(address)` yields the response time and body
/// of a reachable backend, `None` for one that refuses connections.
fn send(
    lb: &mut LeastResponseLoadBalancer,
    answer: &dyn Fn(&str) -> Option<(u64, String)>,
) -> Result<String, InternalError> {
    loop {
        let backend = match lb.send_request_begin() {
            Ok(b) => b,
            Err(e) => return Err(e),
        };
        let outcome = match answer(backend.address()) {
            Some((elapsed_ms, body)) => ForwardOutcome::Success { elapsed_ms, body },
            None => ForwardOutcome::Failure { elapsed_ms: 3 },
        };
        if let Some(body) = lb.send_request_finish(backend, outcome) {
            return Ok(body);
        }
    }
}

/// Drives one health refresh: drains the pool, probes every backend, and
/// rebuilds the two sides. `probe(address)` yields the response time of a
/// reachable backend, `None` for one that refuses connections.
fn refresh(lb: &mut LeastResponseLoadBalancer, probe: &dyn Fn(&str) -> Option<u64>) {
    let backends = lb.check_backends_healths_begin();
    let outcomes: Vec<ProbeOutcome> = backends
        .iter()
        .map(|b| match probe(b.address()) {
            Some(elapsed_ms) => ProbeOutcome {
                reachable: true,
                elapsed_ms,
            },
            None => ProbeOutcome {
                reachable: false,
                elapsed_ms: 2,
            },
        })
        .collect();
    lb.check_backends_healths_finish(backends, &outcomes);
}

#[test]
fn least_response_selection() {
    let mut lb = LeastResponseLoadBalancer::new(pool(&["http://a/", "http://b/", "http://c/"]));
    // One prior probe round seeds the priorities: a 50 ms, b 10 ms, c 100 ms.
    refresh(&mut lb, &|address| match address {
        "http://a/" => Some(50),
        "http://b/" => Some(10),
        _ => Some(100),
    });
    // The fastest backend answers first.
    let body = send(&mut lb, &|address| {
        assert_eq!(address, "http://b/");
        Some((10, "B".to_string()))
    })
    .unwrap();
    assert_eq!(body, "B");
    // Its measured time stayed smallest, so it is selected again; this
    // time the observed time jumps to 200 ms.
    let body = send(&mut lb, &|address| {
        assert_eq!(address, "http://b/");
        Some((200, "B".to_string()))
    })
    .unwrap();
    assert_eq!(body, "B");
    // Now a (50 ms) is the fastest.
    let body = send(&mut lb, &|address| {
        assert_eq!(address, "http://a/");
        Some((50, "A".to_string()))
    })
    .unwrap();
    assert_eq!(body, "A");
}

#[test]
fn failover_within_one_request() {
    let mut lb = LeastResponseLoadBalancer::new(pool(&["http://a/", "http://b/"]));
    refresh(&mut lb, &|address| match address {
        "http://a/" => Some(10),
        _ => Some(50),
    });
    // a is killed: its forward fails, the policy re-selects b within the
    // same request, and the client sees b's body.
    let body = send(&mut lb, &|address| match address {
        "http://b/" => Some((50, "B".to_string())),
        _ => None,
    })
    .unwrap();
    assert_eq!(body, "B");
    // Pool state afterwards: H = {b}, U = {a}.
    assert_eq!(lb.healthy_count(), 1);
    assert_eq!(lb.unhealthy_count(), 1);
    assert_eq!(lb.unhealthy_backend(0).address(), "http://a/");
    assert_eq!(lb.unhealthy_backend(0).health(), Health::Unhealthy);
    assert_eq!(lb.healthy_backend(0).address(), "http://b/");
    assert_eq!(lb.next_available_backend().unwrap().address(), "http://b/");
}

#[test]
fn health_recovery() {
    let mut lb = LeastResponseLoadBalancer::new(pool(&["http://a/"]));
    // a is down at startup: the first refresh probes it Unhealthy.
    refresh(&mut lb, &|_| None);
    assert_eq!(lb.healthy_count(), 0);
    assert_eq!(lb.unhealthy_count(), 1);
    assert!(lb.next_available_backend().is_none());
    // The operator restarts a; the next tick probes it back to health.
    refresh(&mut lb, &|_| Some(42));
    assert_eq!(lb.healthy_count(), 1);
    assert_eq!(lb.unhealthy_count(), 0);
    let best = lb.next_available_backend().unwrap();
    assert_eq!(best.address(), "http://a/");
    assert_eq!(best.health(), Health::Healthy);
    assert_eq!(best.response_time_ms(), 42);
}

#[test]
fn next_available_backend_returns_fastest() {
    let mut lb = LeastResponseLoadBalancer::new(pool(&["http://a/", "http://b/", "http://c/"]));
    refresh(&mut lb, &|address| match address {
        "http://a/" => Some(31),
        "http://b/" => Some(8),
        _ => Some(19),
    });
    // The returned backend's response time is the minimum over the
    // healthy set.
    assert_eq!(lb.next_available_backend().unwrap().response_time_ms(), 8);
}

#[test]
fn refresh_partitions_pool() {
    let mut lb = LeastResponseLoadBalancer::new(pool(&[
        "http://a/",
        "http://b/",
        "http://c/",
        "http://d/",
    ]));
    refresh(&mut lb, &|address| match address {
        "http://b/" => None,
        "http://d/" => None,
        _ => Some(5),
    });
    // Every backend sits in exactly one of the two sides.
    assert_eq!(lb.healthy_count(), 2);
    assert_eq!(lb.unhealthy_count(), 2);
    assert_eq!(lb.unhealthy_backend(0).address(), "http://b/");
    assert_eq!(lb.unhealthy_backend(1).address(), "http://d/");
}

#[test]
fn refresh_membership_idempotent() {
    let mut lb = LeastResponseLoadBalancer::new(pool(&["http://a/", "http://b/", "http://c/"]));
    let probe = |address: &str| match address {
        "http://b/" => None,
        _ => Some(11),
    };
    refresh(&mut lb, &probe);
    let healthy_first = lb.healthy_count();
    let unhealthy_first: Vec<String> = (0..lb.unhealthy_count())
        .map(|i| lb.unhealthy_backend(i).address().to_string())
        .collect();
    let best_first = lb.next_available_backend().unwrap().address().to_string();
    // A second refresh with no network change leaves membership identical.
    refresh(&mut lb, &probe);
    assert_eq!(lb.healthy_count(), healthy_first);
    let unhealthy_second: Vec<String> = (0..lb.unhealthy_count())
        .map(|i| lb.unhealthy_backend(i).address().to_string())
        .collect();
    assert_eq!(unhealthy_second, unhealthy_first);
    assert_eq!(
        lb.next_available_backend().unwrap().address(),
        best_first.as_str()
    );
}

#[test]
fn single_healthy_backend_serves_every_request() {
    let mut lb = LeastResponseLoadBalancer::new(pool(&["http://a/"]));
    for _ in 0..5 {
        let body = send(&mut lb, &|_| Some((14, "A".to_string()))).unwrap();
        assert_eq!(body, "A");
    }
    assert_eq!(lb.healthy_count(), 1);
    assert_eq!(lb.unhealthy_count(), 0);
}

#[test]
fn empty_pool_is_no_backend_available() {
    let mut lb = LeastResponseLoadBalancer::new(Vec::new());
    assert!(lb.next_available_backend().is_none());
    assert!(matches!(
        lb.send_request_begin(),
        Err(InternalError::NoBackendAvailable)
    ));
}

#[test]
fn all_backends_failing_exhausts_the_pool() {
    let mut lb = LeastResponseLoadBalancer::new(pool(&["http://a/", "http://b/"]));
    let result = send(&mut lb, &|_| None);
    assert!(matches!(result, Err(InternalError::NoBackendAvailable)));
    // Both backends were tried once and moved to the unhealthy side.
    assert_eq!(lb.healthy_count(), 0);
    assert_eq!(lb.unhealthy_count(), 2);
}
