use ip_sniffer::partition::{first_port, next_port, worker_ports, MAX_PORT};

fn coverage_counts(n: u16) -> Vec<u32> {
    let mut counts = vec![0u32; 65536];
    for i in 0..n {
        for p in worker_ports(i, n) {
            counts[p as usize] += 1;
        }
    }
    counts
}

#[test]
fn four_workers_cover_all_but_top_port_once() {
    let counts = coverage_counts(4);
    assert_eq!(counts[0], 0);
    for p in 1..65535usize {
        assert_eq!(counts[p], 1, "port {}", p);
    }
    assert_eq!(counts[65535], 0);
}

#[test]
fn seven_workers_partitions_are_disjoint() {
    let counts = coverage_counts(7);
    assert!(counts.iter().all(|&c| c <= 1));
    let missed = (1..=65535usize).filter(|&p| counts[p] == 0).count();
    assert!(missed <= 6);
    assert_eq!(missed, 1);
}

#[test]
fn one_worker_per_port_covers_everything() {
    let counts = coverage_counts(65535);
    for p in 1..=65535usize {
        assert_eq!(counts[p], 1, "port {}", p);
    }
}

#[test]
fn single_worker_scans_sequentially() {
    let ports = worker_ports(0, 1);
    let expected: Vec<u16> = (1..=65534u16).collect();
    assert_eq!(ports, expected);
}

#[test]
fn worker_walks_are_bounded() {
    for &n in &[1u16, 2, 3, 8, 1000, 40000, 65535] {
        for i in [0u16, n / 2, n - 1] {
            let len = worker_ports(i, n).len();
            assert!(len <= 65535 / n as usize + 1, "n {} worker {}", n, i);
        }
    }
}

#[test]
fn worker_ports_follow_the_stride() {
    let ports = worker_ports(2, 4);
    assert_eq!(&ports[..4], &[3, 7, 11, 15]);
    assert_eq!(*ports.last().unwrap(), 65531);
    assert_eq!(ports.len(), 16383);
}

#[test]
fn next_port_stops_before_the_top() {
    assert_eq!(first_port(0, 4), 1);
    assert_eq!(first_port(3, 4), 4);
    assert_eq!(next_port(1, 4), Some(5));
    assert_eq!(next_port(65530, 4), Some(65534));
    assert_eq!(next_port(65531, 4), None);
    assert_eq!(next_port(65534, 1), None);
    assert_eq!(next_port(65533, 1), Some(65534));
    assert_eq!(next_port(1, 65535), None);
    assert_eq!(MAX_PORT, 65535);
}
