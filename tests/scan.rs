use ip_sniffer::scan::{Coordinator, Phase, Worker};

/// Runs a whole scan with `n` workers, one after another, where a probe
/// finds a port open exactly when `listening` holds it.
fn run_scan(n: u16, listening: &[u16]) -> Vec<u16> {
    let mut c = Coordinator::new(n);
    assert_eq!(c.phase(), Phase::Idle);
    let workers = c.dispatch();
    assert_eq!(c.phase(), Phase::Dispatched);
    assert_eq!(workers.len(), n as usize);
    let mut sent = Vec::new();
    for mut w in workers {
        while let Some(port) = w.current() {
            if let Some(p) = w.advance(listening.contains(&port)) {
                sent.push(p);
            }
        }
    }
    c.workers_finished();
    assert_eq!(c.phase(), Phase::Collecting);
    for p in sent {
        c.collect(p);
    }
    let out = c.report();
    assert_eq!(c.phase(), Phase::Reported);
    c.finish();
    assert_eq!(c.phase(), Phase::Done);
    out
}

#[test]
fn one_listener_on_8080_with_four_workers() {
    let out = run_scan(4, &[8080]);
    assert_eq!(out, vec![8080]);
    let lines: Vec<String> = out.iter().map(|p| format!("{} is open", p)).collect();
    assert_eq!(lines, vec!["8080 is open".to_string()]);
}

#[test]
fn no_listeners_with_eight_workers() {
    assert_eq!(run_scan(8, &[]), Vec::<u16>::new());
}

#[test]
fn no_port_without_a_listener_is_reported() {
    let out = run_scan(3, &[22, 80, 443, 65000]);
    assert_eq!(out, vec![22, 80, 443, 65000]);
}

#[test]
fn single_worker_finds_what_many_find() {
    let listening = [1, 2, 1024, 30000, 65534];
    assert_eq!(run_scan(1, &listening), run_scan(16, &listening));
}

#[test]
fn top_port_is_probed_only_with_one_worker_per_port() {
    assert_eq!(run_scan(4, &[65535]), Vec::<u16>::new());
    assert_eq!(run_scan(65535, &[65535]), vec![65535]);
}

#[test]
fn worker_reports_only_open_probes() {
    let mut w = Worker::new(0, 4);
    assert_eq!(w.current(), Some(1));
    assert_eq!(w.advance(false), None);
    assert_eq!(w.current(), Some(5));
    assert_eq!(w.advance(true), Some(5));
    assert_eq!(w.current(), Some(9));
}

#[test]
fn worker_stops_at_the_boundary() {
    let mut w = Worker::new(0, 65535);
    assert_eq!(w.current(), Some(1));
    assert_eq!(w.advance(true), Some(1));
    assert_eq!(w.current(), None);
}
