use ip_sniffer::args::{parse_u16, Address, ArgError, Arguments, DEFAULT_THREADS};

fn words(w: &[&str]) -> Vec<String> {
    w.iter().map(|s| s.to_string()).collect()
}

const HOME: Address = Address::V4(0x7f00_0001);

#[test]
fn address_alone_uses_default_threads() {
    let a = Arguments::new(&words(&["ip_sniffer", "127.0.0.1"]), Some(HOME), None).unwrap();
    assert_eq!(a.flag, "");
    assert_eq!(a.ipaddr, HOME);
    assert_eq!(a.threads, DEFAULT_THREADS);
    assert_eq!(a.threads, 4);
}

#[test]
fn jobs_flag_sets_threads() {
    let v6 = Address::V6(1);
    let a = Arguments::new(&words(&["ip_sniffer", "-j", "100", "::1"]), None, Some(v6)).unwrap();
    assert_eq!(a.flag, "-j");
    assert_eq!(a.ipaddr, v6);
    assert_eq!(a.threads, 100);
}

#[test]
fn too_few_words() {
    let r = Arguments::new(&words(&["ip_sniffer"]), None, None);
    assert_eq!(r.err(), Some(ArgError::InsufficientArguments));
}

#[test]
fn too_many_words() {
    let r = Arguments::new(&words(&["ip_sniffer", "-j", "4", "1.2.3.4", "x"]), None, Some(HOME));
    assert_eq!(r.err(), Some(ArgError::ExcessiveArguments));
}

#[test]
fn help_is_asked_for() {
    let r = Arguments::new(&words(&["ip_sniffer", "-h"]), None, None);
    assert_eq!(r.err(), Some(ArgError::Help));
    let r = Arguments::new(&words(&["ip_sniffer", "-help"]), None, None);
    assert_eq!(r.err(), Some(ArgError::Help));
}

#[test]
fn help_flag_must_come_alone() {
    let r = Arguments::new(&words(&["ip_sniffer", "-h", "x"]), None, None);
    assert_eq!(r.err(), Some(ArgError::HelpNotExclusive));
    let r = Arguments::new(&words(&["ip_sniffer", "-help", "127.0.0.1"]), None, Some(HOME));
    assert_eq!(r.err(), Some(ArgError::HelpNotExclusive));
    let r = Arguments::new(&words(&["ip_sniffer", "-h", "4", "127.0.0.1"]), None, Some(HOME));
    assert_eq!(r.err(), Some(ArgError::HelpNotExclusive));
}

#[test]
fn jobs_flag_with_bad_address() {
    let r = Arguments::new(&words(&["ip_sniffer", "-j", "4", "nowhere"]), None, None);
    assert_eq!(r.err(), Some(ArgError::InvalidAddress));
    let r = Arguments::new(&words(&["ip_sniffer", "-j", "4"]), None, None);
    assert_eq!(r.err(), Some(ArgError::InvalidAddress));
}

#[test]
fn jobs_flag_with_bad_thread_count() {
    for t in ["x", "", "65536", "-3", "0", "+"] {
        let r = Arguments::new(&words(&["ip_sniffer", "-j", t, "10.0.0.1"]), None, Some(HOME));
        assert_eq!(r.err(), Some(ArgError::InvalidThreadCount), "count {:?}", t);
    }
}

#[test]
fn unknown_flag() {
    let r = Arguments::new(&words(&["ip_sniffer", "-x", "10.0.0.1"]), None, None);
    assert_eq!(r.err(), Some(ArgError::InvalidSyntax));
}

#[test]
fn parse_u16_reads_decimal() {
    assert_eq!(parse_u16(b"8080"), Some(8080));
    assert_eq!(parse_u16(b"+12"), Some(12));
    assert_eq!(parse_u16(b"007"), Some(7));
    assert_eq!(parse_u16(b"65535"), Some(65535));
    assert_eq!(parse_u16(b"65536"), None);
    assert_eq!(parse_u16(b"9999999999"), None);
    assert_eq!(parse_u16(b""), None);
    assert_eq!(parse_u16(b"+"), None);
    assert_eq!(parse_u16(b"-1"), None);
    assert_eq!(parse_u16(b"1 "), None);
    assert_eq!(parse_u16(b"++1"), None);
}
