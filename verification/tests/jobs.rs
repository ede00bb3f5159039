use recorder::error::Error;
use recorder::jobs::{self, Job};

#[test]
fn reads_jobs() {
    match jobs::read_message("recorder:1.2e3;/foo/bar") {
        Ok(Job::Work { time, config }) => {
            assert_eq!(time, "1.2e3");
            assert_eq!(config, "/foo/bar");
        },
        _ => panic!("expected a job"),
    }
    assert!(matches!(jobs::read_message("recorder:halt"), Ok(Job::Halt)));
    assert!(matches!(jobs::read_message("halt"), Err(Error::MalformedMessage)));
    assert!(matches!(jobs::read_message("recorder:1.2e3"), Err(Error::MalformedMessage)));
}

#[test]
fn splits_at_the_first_semicolon() {
    assert_eq!(jobs::decode("1;a;b"), Some(("1".to_string(), "a;b".to_string())));
    assert_eq!(jobs::decode(";"), Some((String::new(), String::new())));
    assert_eq!(jobs::decode("abc"), None);
}
