use ip_sniffer::report::{sort_report, OpenPortReport};

#[test]
fn sort_orders_ascending() {
    assert_eq!(sort_report(&vec![443, 22, 8080, 80]), vec![22, 80, 443, 8080]);
}

#[test]
fn sort_is_idempotent() {
    let once = sort_report(&vec![9000, 1, 65535, 22, 1]);
    let twice = sort_report(&once);
    assert_eq!(once, twice);
    assert_eq!(once, vec![1, 22, 9000, 65535]);
}

#[test]
fn sort_ignores_discovery_order() {
    let a = sort_report(&vec![80, 22, 443]);
    let b = sort_report(&vec![443, 80, 22]);
    let c = sort_report(&vec![22, 443, 80, 80]);
    assert_eq!(a, b);
    assert_eq!(a, c);
}

#[test]
fn sort_removes_duplicates() {
    assert_eq!(sort_report(&vec![5, 5, 5]), vec![5]);
}

#[test]
fn sort_of_empty_report_is_empty() {
    assert_eq!(sort_report(&vec![]), Vec::<u16>::new());
}

#[test]
fn sort_keeps_extreme_ports() {
    assert_eq!(sort_report(&vec![65535, 0]), vec![0, 65535]);
}

#[test]
fn report_records_in_arrival_order_and_sorts() {
    let mut r = OpenPortReport::new();
    assert_eq!(r.len(), 0);
    r.record(3000);
    r.record(21);
    r.record(3000);
    assert_eq!(r.len(), 3);
    assert_eq!(r.sorted(), vec![21, 3000]);
}
