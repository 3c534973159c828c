use linkerd_await::decimal::decimal_text;
use linkerd_await::endpoint::Endpoint;

#[test]
fn default_port_addresses_both_endpoints() {
    let e = Endpoint::new(4191);
    assert_eq!(e.authority(), "localhost:4191");
    assert_eq!(e.ready_uri(), "http://localhost:4191/ready");
    assert_eq!(e.shutdown_uri(), "http://localhost:4191/shutdown");
}

#[test]
fn extreme_ports() {
    assert_eq!(Endpoint::new(0).ready_uri(), "http://localhost:0/ready");
    assert_eq!(Endpoint::new(65535).shutdown_uri(), "http://localhost:65535/shutdown");
}

#[test]
fn decimal_text_has_no_leading_zeros() {
    assert_eq!(decimal_text(0), "0");
    assert_eq!(decimal_text(9), "9");
    assert_eq!(decimal_text(10), "10");
    assert_eq!(decimal_text(4191), "4191");
    assert_eq!(decimal_text(u64::MAX), u64::MAX.to_string());
}
