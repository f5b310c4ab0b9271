use load_balancer::dispatcher::dispatch_response;
use load_balancer::health::Health;
use load_balancer::internal_error::InternalError;
use load_balancer::outcome::{ForwardOutcome, ProbeOutcome};
use load_balancer::round_robin_load_balancer::{RoundRobinLoadBalancer, SelectStep, SendStep};
use load_balancer::simple_backend::SimpleBackend;

fn pool(addresses: &[&str]) -> Vec<SimpleBackend> {
    addresses
        .iter()
        .map(|a| SimpleBackend::new(a.to_string(), Health::Healthy))
        .collect()
}

/// Drives one full request: selection (probing each candidate until a
/// reachable one is found), the forward to the chosen backend, and — on
/// a failed forward — the failover back into the same pass.
/// `probe_up[i]` says whether backend `i` answers its probe,
/// `forward_up[i]` whether its forward succeeds, `bodies[i]` its reply;
/// every forwarded index is appended to `forwarded`.
fn send_tracked(
    lb: &mut RoundRobinLoadBalancer,
    probe_up: &[bool],
    forward_up: &[bool],
    bodies: &[&str],
    forwarded: &mut Vec<usize>,
) -> Result<String, InternalError> {
    let mut sel = match lb.next_available_backend_begin() {
        Err(e) => return Err(e),
        Ok(s) => s,
    };
    loop {
        let idx = sel.pending;
        let outcome = ProbeOutcome {
            reachable: probe_up[idx],
            elapsed_ms: 5,
        };
        match lb.next_available_backend_step(sel, &outcome) {
            SelectStep::Chosen(chosen) => {
                let i = chosen.pending;
                forwarded.push(i);
                let forward = if forward_up[i] {
                    ForwardOutcome::Success {
                        elapsed_ms: 7,
                        body: bodies[i].to_string(),
                    }
                } else {
                    ForwardOutcome::Failure { elapsed_ms: 7 }
                };
                match lb.send_request_finish(chosen, forward) {
                    SendStep::Done(body) => return Ok(body),
                    SendStep::Probe(next) => sel = next,
                    SendStep::Failed(e) => return Err(e),
                }
            }
            SelectStep::Probe(next) => sel = next,
            SelectStep::Failed(e) => return Err(e),
        }
    }
}

/// Drives one full request where a backend that answers its probe also
/// answers its forward.
fn send(
    lb: &mut RoundRobinLoadBalancer,
    up: &[bool],
    bodies: &[&str],
) -> Result<String, InternalError> {
    let mut forwarded = Vec::new();
    send_tracked(lb, up, up, bodies, &mut forwarded)
}

#[test]
fn round_robin_distribution() {
    let mut lb = RoundRobinLoadBalancer::new(pool(&["http://a/", "http://b/", "http://c/"]));
    let up = [true, true, true];
    let bodies = ["A", "B", "C"];
    let mut seen = Vec::new();
    for _ in 0..6 {
        seen.push(send(&mut lb, &up, &bodies).unwrap());
    }
    assert_eq!(seen, vec!["A", "B", "C", "A", "B", "C"]);
}

#[test]
fn skip_unhealthy() {
    let mut lb = RoundRobinLoadBalancer::new(pool(&["http://a/", "http://b/", "http://c/"]));
    let up = [true, false, true];
    let bodies = ["A", "B", "C"];
    // One probe round has run before the first request, as the probe
    // scheduler would: b is already marked Unhealthy.
    let seed: Vec<ProbeOutcome> = up
        .iter()
        .map(|reachable| ProbeOutcome {
            reachable: *reachable,
            elapsed_ms: 5,
        })
        .collect();
    lb.check_backends_healths(&seed);
    let mut seen = Vec::new();
    for _ in 0..3 {
        seen.push(send(&mut lb, &up, &bodies).unwrap());
        assert_eq!(lb.backend(1).health(), Health::Unhealthy);
    }
    assert_eq!(seen, vec!["A", "C", "A"]);
}

#[test]
fn all_unhealthy() {
    let mut lb = RoundRobinLoadBalancer::new(pool(&["http://a/", "http://b/", "http://c/"]));
    let up = [false, false, false];
    let bodies = ["A", "B", "C"];
    let result = send(&mut lb, &up, &bodies);
    assert!(matches!(result, Err(InternalError::NoBackendAvailable)));
    let (status, body) = dispatch_response(result);
    assert_eq!(status, 500);
    assert_eq!(body, "Failed to send request to backend server");
}

#[test]
fn fair_counts_over_seven_selections() {
    let mut lb = RoundRobinLoadBalancer::new(pool(&["http://a/", "http://b/", "http://c/"]));
    let up = [true, true, true];
    let bodies = ["A", "B", "C"];
    let mut counts = [0u32; 3];
    for _ in 0..7 {
        let body = send(&mut lb, &up, &bodies).unwrap();
        let i = bodies.iter().position(|b| *b == body).unwrap();
        counts[i] += 1;
    }
    // 7 selections over 3 backends: every backend 2 or 3 times.
    assert_eq!(counts.iter().sum::<u32>(), 7);
    for c in counts {
        assert!(c == 2 || c == 3);
    }
    assert_eq!(counts[0], 3);
}

#[test]
fn failover_within_one_round_robin_request() {
    let mut lb = RoundRobinLoadBalancer::new(pool(&["http://a/", "http://b/", "http://c/"]));
    // a answers its probe but its forward fails; the same request fails
    // over to b, whose forward succeeds.
    let probe_up = [true, true, true];
    let forward_up = [false, true, true];
    let bodies = ["A", "B", "C"];
    let mut forwarded = Vec::new();
    let body = send_tracked(&mut lb, &probe_up, &forward_up, &bodies, &mut forwarded).unwrap();
    assert_eq!(body, "B");
    assert_eq!(forwarded, vec![0, 1]);
    assert_eq!(lb.backend(0).health(), Health::Unhealthy);
    assert_eq!(lb.backend(1).health(), Health::Healthy);
}

#[test]
fn every_forward_failing_tries_each_backend_once() {
    let mut lb = RoundRobinLoadBalancer::new(pool(&["http://a/", "http://b/", "http://c/"]));
    // Every probe answers, every forward fails: the request tries each
    // backend exactly once, then reports the unreachable backends.
    let probe_up = [true, true, true];
    let forward_up = [false, false, false];
    let bodies = ["A", "B", "C"];
    let mut forwarded = Vec::new();
    let result = send_tracked(&mut lb, &probe_up, &forward_up, &bodies, &mut forwarded);
    assert!(matches!(result, Err(InternalError::BackendUnreachable)));
    assert_eq!(forwarded, vec![0, 1, 2]);
    for i in 0..3 {
        assert_eq!(lb.backend(i).health(), Health::Unhealthy);
    }
}

#[test]
fn failed_forward_then_failing_probes_is_backend_unreachable() {
    let mut lb = RoundRobinLoadBalancer::new(pool(&["http://a/", "http://b/", "http://c/"]));
    // a's forward fails, and the remaining candidates fail their probes:
    // a forward did fail this call, so the error is BackendUnreachable.
    let probe_up = [true, false, false];
    let forward_up = [false, true, true];
    let bodies = ["A", "B", "C"];
    let mut forwarded = Vec::new();
    let result = send_tracked(&mut lb, &probe_up, &forward_up, &bodies, &mut forwarded);
    assert!(matches!(result, Err(InternalError::BackendUnreachable)));
    assert_eq!(forwarded, vec![0]);
}

#[test]
fn empty_pool_has_no_backend() {
    let mut lb = RoundRobinLoadBalancer::new(Vec::new());
    assert!(matches!(
        lb.next_available_backend_begin(),
        Err(InternalError::NoBackendAvailable)
    ));
}

#[test]
fn single_unhealthy_backend_probed_once() {
    let mut lb = RoundRobinLoadBalancer::new(pool(&["http://a/"]));
    let sel = lb.next_available_backend_begin().unwrap();
    let outcome = ProbeOutcome {
        reachable: false,
        elapsed_ms: 4,
    };
    // One probe attempt, then no backend is available: no forward ever
    // failed this call.
    assert_eq!(
        lb.next_available_backend_step(sel, &outcome),
        SelectStep::Failed(InternalError::NoBackendAvailable)
    );
}

#[test]
fn single_backend_forward_failure_is_backend_unreachable() {
    let mut lb = RoundRobinLoadBalancer::new(pool(&["http://a/"]));
    let sel = lb.next_available_backend_begin().unwrap();
    let probe = ProbeOutcome {
        reachable: true,
        elapsed_ms: 4,
    };
    let chosen = match lb.next_available_backend_step(sel, &probe) {
        SelectStep::Chosen(s) => s,
        other => panic!("expected a chosen backend, got {:?}", other),
    };
    let finish = lb.send_request_finish(chosen, ForwardOutcome::Failure { elapsed_ms: 9 });
    assert!(matches!(
        finish,
        SendStep::Failed(InternalError::BackendUnreachable)
    ));
    assert_eq!(lb.backend(0).health(), Health::Unhealthy);
    assert_eq!(lb.backend(0).response_time_ms(), 9);
}

#[test]
fn refresh_updates_every_backend() {
    let mut lb = RoundRobinLoadBalancer::new(pool(&["http://a/", "http://b/"]));
    let outcomes = vec![
        ProbeOutcome {
            reachable: true,
            elapsed_ms: 12,
        },
        ProbeOutcome {
            reachable: false,
            elapsed_ms: 34,
        },
    ];
    lb.check_backends_healths(&outcomes);
    assert_eq!(lb.backend(0).health(), Health::Healthy);
    assert_eq!(lb.backend(0).response_time_ms(), 12);
    assert_eq!(lb.backend(1).health(), Health::Unhealthy);
    assert_eq!(lb.backend(1).response_time_ms(), 34);
    assert_eq!(lb.backend(0).address(), "http://a/");
}
