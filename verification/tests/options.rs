use recorder::options::Options;

#[test]
fn starts_empty() {
    let o = Options::new();
    assert!(o.config.is_none() && o.database.is_none() && o.caching.is_none() && o.prepare.is_none());
    assert!(o.server.is_none() && o.queue.is_none());
}

#[test]
fn sets_the_server_and_the_queue() {
    let mut o = Options::new();
    assert!(o.set_value("s".to_string(), "redis:7000".to_string()));
    assert_eq!(o.server, Some(("redis".to_string(), 7000)));
    assert!(!o.set_value("server".to_string(), "redis".to_string()));
    assert_eq!(o.server, Some(("redis".to_string(), 7000)));
    assert!(o.set_value("queue".to_string(), "jobs".to_string()));
    assert_eq!(o.queue, Some("jobs".to_string()));
    assert!(!o.set_flag("q".to_string(), true));
}

#[test]
fn sets_flags() {
    let mut o = Options::new();
    assert!(o.set_flag("r".to_string(), true));
    assert_eq!(o.caching, Some(("localhost".to_string(), 6379)));
    assert!(o.set_flag("c".to_string(), true));
    assert_eq!(o.caching, Some(("localhost".to_string(), 6379)));
    assert!(o.set_flag("prepare".to_string(), false));
    assert_eq!(o.prepare, Some(false));
    assert!(o.set_flag("p".to_string(), true));
    assert_eq!(o.prepare, Some(true));
    assert!(!o.set_flag("config".to_string(), true));
    assert!(o.config.is_none());
}

#[test]
fn sets_values() {
    let mut o = Options::new();
    assert!(o.set_value("c".to_string(), "system.xml".to_string()));
    assert_eq!(o.config, Some("system.xml".to_string()));
    assert!(o.set_value("database".to_string(), "out.sqlite3".to_string()));
    assert_eq!(o.database, Some("out.sqlite3".to_string()));
    assert!(!o.set_value("prepare".to_string(), "yes".to_string()));
    assert!(o.prepare.is_none());
}

#[test]
fn reads_cache_addresses() {
    let mut o = Options::new();
    assert!(o.set_value("caching".to_string(), "8080".to_string()));
    assert_eq!(o.caching, Some(("127.0.0.1".to_string(), 8080)));
    assert!(o.set_value("r".to_string(), "redis".to_string()));
    assert_eq!(o.caching, Some(("redis".to_string(), 6379)));
    assert!(o.set_value("r".to_string(), "redis:1234".to_string()));
    assert_eq!(o.caching, Some(("redis".to_string(), 1234)));
    assert!(!o.set_value("r".to_string(), "redis:port".to_string()));
    assert!(!o.set_value("r".to_string(), "a:b:c".to_string()));
    assert_eq!(o.caching, Some(("redis".to_string(), 1234)));
}

#[test]
fn defaults_to_nothing_set() {
    let o = Options::default();
    assert!(o.config.is_none() && o.database.is_none() && o.caching.is_none() && o.prepare.is_none());
}
