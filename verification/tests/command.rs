use recorder::command::{self, Command};
use recorder::error::Error;

fn args(list: &[&str]) -> Vec<String> {
    list.iter().map(|s| s.to_string()).collect()
}

#[test]
fn reads_long_and_short_options() {
    let o = command::options(args(&["--config", "sys.xml", "-d", "out.db", "-r", "-p"])).unwrap();
    assert_eq!(o.config, Some("sys.xml".to_string()));
    assert_eq!(o.database, Some("out.db".to_string()));
    assert_eq!(o.caching, Some(("localhost".to_string(), 6379)));
    assert_eq!(o.prepare, Some(true));
}

#[test]
fn reads_a_cache_address() {
    let o = command::options(args(&["--caching", "redis:7000"])).unwrap();
    assert_eq!(o.caching, Some(("redis".to_string(), 7000)));
    let o = command::options(args(&["--caching", "--prepare"])).unwrap();
    assert_eq!(o.caching, Some(("localhost".to_string(), 6379)));
    assert_eq!(o.prepare, Some(true));
}

#[test]
fn shows_the_usage_instead() {
    assert!(command::options(args(&["-h"])).is_none());
    assert!(command::options(args(&["--config", "x", "--help"])).is_none());
    assert!(command::options(args(&["--"])).is_none());
    assert!(command::options(args(&["-ab"])).is_none());
    assert!(command::options(args(&["-é"])).is_none());
    assert!(command::options(args(&["value"])).is_none());
    assert!(command::options(args(&["--unknown", "x"])).is_none());
    assert!(command::options(args(&["--config"])).is_none());
    assert!(command::options(args(&["--caching", "a:b:c"])).is_none());
    assert!(command::options(args(&[])).is_some());
}

#[test]
fn names_commands() {
    assert_eq!(command::command("dynamic"), Ok(Command::Dynamic));
    assert_eq!(command::command("static"), Ok(Command::Static));
    assert_eq!(command::command("area"), Err(Error::UnknownCommand));
}

#[test]
fn reads_the_documented_short_options() {
    let o = command::options(args(&["-c"])).unwrap();
    assert_eq!(o.caching, Some(("localhost".to_string(), 6379)));
    assert!(o.config.is_none() && o.database.is_none() && o.prepare.is_none());
    let o = command::options(args(&["--caching"])).unwrap();
    assert_eq!(o.caching, Some(("localhost".to_string(), 6379)));
    let o = command::options(args(&["--server", "host:6380", "-q", "jobs"])).unwrap();
    assert_eq!(o.server, Some(("host".to_string(), 6380)));
    assert_eq!(o.queue, Some("jobs".to_string()));
    let o = command::options(args(&["-s", "h:1", "--queue", "q"])).unwrap();
    assert_eq!(o.server, Some(("h".to_string(), 1)));
    assert_eq!(o.queue, Some("q".to_string()));
    assert!(command::options(args(&["-s", "host"])).is_none());
    assert!(command::options(args(&["-q"])).is_none());
}
