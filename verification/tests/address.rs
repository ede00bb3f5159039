use recorder::address::{Address, DEFAULT_HOST, DEFAULT_PORT};

fn parts(a: Option<Address>) -> Option<(String, usize)> {
    a.map(|Address(host, port)| (host, port))
}

#[test]
fn parses_host_and_port() {
    assert_eq!(parts(Address::parse("localhost:6379")), Some(("localhost".to_string(), 6379)));
    assert_eq!(parts(Address::parse(":80")), Some(("".to_string(), 80)));
    assert_eq!(parts(Address::parse("localhost")), None);
    assert_eq!(parts(Address::parse("a:b:1")), None);
    assert_eq!(parts(Address::parse("host:")), None);
    assert_eq!(parts(Address::parse("host:port")), None);
}

#[test]
fn round_trips_host_and_port() {
    for (host, port) in [("example.org", 1usize), ("", 0), ("10.0.0.1", 65535)] {
        let text = format!("{}:{}", host, port);
        assert_eq!(parts(Address::parse(&text)), Some((host.to_string(), port)));
    }
}

#[test]
fn defaults_to_the_local_server() {
    let Address(host, port) = Address::default();
    assert_eq!(host, DEFAULT_HOST);
    assert_eq!(port, DEFAULT_PORT);
    assert_eq!((DEFAULT_HOST, DEFAULT_PORT), ("127.0.0.0", 6379));
}
