use dfw::{ExposePort, ExposePortBuilder, IntErrorKind, PortError};

fn port(h: u16, c: Option<u16>, f: &str) -> ExposePort {
    ExposePort { host_port: h, container_port: c, family: f.to_string() }
}

fn invalid_port(input: &str, token: &str, kind: IntErrorKind) -> PortError {
    PortError::InvalidPort { input: input.to_string(), token: token.to_string(), kind }
}

#[test]
fn parses_host_port_alone() {
    assert_eq!(ExposePort::from_str("80"), Ok(port(80, None, "tcp")));
}

#[test]
fn parses_host_port_and_family() {
    assert_eq!(ExposePort::from_str("53/udp"), Ok(port(53, None, "udp")));
}

#[test]
fn parses_host_and_container_port_with_family() {
    assert_eq!(ExposePort::from_str("80:8080/tcp"), Ok(port(80, Some(8080), "tcp")));
}

#[test]
fn parses_host_and_container_port_without_family() {
    assert_eq!(ExposePort::from_str("80:8080"), Ok(port(80, Some(8080), "tcp")));
}

#[test]
fn every_host_port_alone_parses() {
    for h in [1u16, 9, 10, 99, 443, 8080, 65535] {
        assert_eq!(ExposePort::from_str(&h.to_string()), Ok(port(h, None, "tcp")));
    }
}

#[test]
fn host_port_family_forms_agree() {
    for (h, c, f) in [(1u16, 1u16, "sctp"), (65535, 22, "udp"), (443, 8443, "tcp")] {
        assert_eq!(ExposePort::from_str(&format!("{}/{}", h, f)), Ok(port(h, None, f)));
        assert_eq!(ExposePort::from_str(&format!("{}:{}", h, c)), Ok(port(h, Some(c), "tcp")));
        assert_eq!(ExposePort::from_str(&format!("{}:{}/{}", h, c, f)), Ok(port(h, Some(c), f)));
    }
}

#[test]
fn three_port_tokens_are_a_format_error() {
    assert_eq!(
        ExposePort::from_str("80:90:100"),
        Err(PortError::InvalidFormat { input: "80:90:100".to_string() })
    );
}

#[test]
fn non_numeric_port_names_the_cause() {
    assert_eq!(
        ExposePort::from_str("notaport"),
        Err(invalid_port("notaport", "notaport", IntErrorKind::InvalidDigit))
    );
}

#[test]
fn port_above_sixteen_bits_overflows() {
    assert_eq!(
        ExposePort::from_str("65536/udp"),
        Err(invalid_port("65536/udp", "65536", IntErrorKind::PosOverflow))
    );
}

#[test]
fn empty_port_token_is_reported() {
    assert_eq!(ExposePort::from_str(""), Err(invalid_port("", "", IntErrorKind::Empty)));
    assert_eq!(ExposePort::from_str(":80"), Err(invalid_port(":80", "", IntErrorKind::Empty)));
}

#[test]
fn bad_container_port_is_reported_with_its_token() {
    assert_eq!(
        ExposePort::from_str("80:x9/tcp"),
        Err(invalid_port("80:x9/tcp", "x9", IntErrorKind::InvalidDigit))
    );
}

#[test]
fn empty_family_is_a_format_error() {
    assert_eq!(
        ExposePort::from_str("80/"),
        Err(PortError::InvalidFormat { input: "80/".to_string() })
    );
}

#[test]
fn family_follows_the_last_slash() {
    assert_eq!(
        ExposePort::from_str("80/tcp/udp"),
        Err(invalid_port("80/tcp/udp", "80/tcp", IntErrorKind::InvalidDigit))
    );
}

#[test]
fn zero_and_plus_sign_are_accepted_by_the_number_reader() {
    assert_eq!(ExposePort::from_str("0"), Ok(port(0, None, "tcp")));
    assert_eq!(ExposePort::from_str("+80"), Ok(port(80, None, "tcp")));
    assert_eq!(ExposePort::from_str("+"), Err(invalid_port("+", "+", IntErrorKind::InvalidDigit)));
    assert_eq!(ExposePort::from_str("-1"), Err(invalid_port("-1", "-1", IntErrorKind::InvalidDigit)));
}

#[test]
fn builder_fills_defaults() {
    let mut b = ExposePortBuilder::new();
    b.set_host_port(8080);
    assert_eq!(b.build(), Ok(port(8080, None, "tcp")));
    b.set_family("udp".to_string());
    b.set_container_port(Some(80));
    assert_eq!(b.build(), Ok(port(8080, Some(80), "udp")));
}

#[test]
fn builder_requires_host_port() {
    let b = ExposePortBuilder::new();
    assert_eq!(b.build(), Err(dfw::port::BuildError::MissingHostPort));
}

#[test]
fn builder_defaults() {
    let b = ExposePortBuilder::new();
    assert_eq!(b.default_container_port(), Ok(None));
    assert_eq!(b.default_family(), Ok("tcp".to_string()));
    assert_eq!(dfw::port::default_expose_port_family(), "tcp");
}

#[test]
fn client_and_host_port_sets_both_ports() {
    let mut b = ExposePortBuilder::new();
    assert_eq!(b.client_and_host_port("80:8080"), Ok(()));
    assert_eq!(b.host_port, Some(80));
    assert_eq!(b.container_port, Some(Some(8080)));
    assert_eq!(b.family, None);
    let mut b = ExposePortBuilder::new();
    assert_eq!(b.client_and_host_port("443"), Ok(()));
    assert_eq!(b.host_port, Some(443));
    assert_eq!(b.container_port, None);
    assert_eq!(
        b.client_and_host_port("1:2:3"),
        Err(PortError::InvalidFormat { input: "1:2:3".to_string() })
    );
}

#[test]
fn integer_text_is_decimal() {
    assert_eq!(dfw::port::integer_text(0), "0");
    assert_eq!(dfw::port::integer_text(8080), "8080");
    assert_eq!(dfw::port::integer_text(-42), "-42");
    assert_eq!(dfw::port::integer_text(i64::MIN), i64::MIN.to_string());
    assert_eq!(dfw::port::integer_text(i64::MAX), i64::MAX.to_string());
}
