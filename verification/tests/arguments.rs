use recorder::address::Address;
use recorder::arguments::{self, OptionValue, Options};
use recorder::error::Error;

fn args(list: &[&str]) -> Vec<String> {
    list.iter().map(|s| s.to_string()).collect()
}

#[test]
fn parses_values_and_flags() {
    let o = Options::parse(args(&["--table", "runs", "--caching", "--server", "h:1"])).unwrap();
    assert_eq!(o.get::<String>("table"), Some("runs".to_string()));
    assert_eq!(o.get::<bool>("caching"), Some(true));
    assert_eq!(o.get::<bool>("table"), None);
    assert_eq!(o.get::<String>("caching"), None);
    assert_eq!(o.get::<String>("missing"), None);
    let a = o.get::<Address>("server").unwrap();
    assert_eq!((a.0, a.1), ("h".to_string(), 1));
}

#[test]
fn takes_a_trailing_option_as_a_flag() {
    let o = arguments::parse(args(&["--a", "x", "--help"])).unwrap();
    assert_eq!(o.get::<bool>("help"), Some(true));
    assert_eq!(o.get::<String>("a"), Some("x".to_string()));
}

#[test]
fn a_later_setting_replaces_an_earlier_one() {
    let o = Options::parse(args(&["--a", "x", "--a", "y", "--b", "--b", "z"])).unwrap();
    assert_eq!(o.get::<String>("a"), Some("y".to_string()));
    assert_eq!(o.get::<String>("b"), Some("z".to_string()));
}

#[test]
fn refuses_invalid_arguments() {
    assert!(matches!(Options::parse(args(&["value"])), Err(Error::InvalidArguments)));
    assert!(matches!(Options::parse(args(&["--"])), Err(Error::InvalidArguments)));
    assert!(matches!(Options::parse(args(&["--a", "x", "y"])), Err(Error::InvalidArguments)));
    assert!(Options::parse(args(&[])).is_ok());
}

#[test]
fn sets_and_reads_single_values() {
    let mut o = Options::new();
    assert!(o.value("x").is_none());
    o.set("x".to_string(), OptionValue::Boolean(false));
    assert_eq!(o.get::<bool>("x"), Some(false));
    o.set("x".to_string(), OptionValue::String("y".to_string()));
    assert!(matches!(o.value("x"), Some(OptionValue::String(s)) if s == "y"));
    assert!(o.get::<Address>("x").is_none());
}
