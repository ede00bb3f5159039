use recorder::error::Error;
use recorder::worker::{self, Action, Session};

#[test]
fn reads_the_time_of_a_file_name() {
    assert_eq!(worker::time_from_name("power-1-2-3.xml"), Ok(2));
    assert_eq!(worker::time_from_name("power-10-20-30.xml"), Ok(20));
    assert_eq!(worker::time_from_name("power-1-x-3.xml"), Err(Error::MalformedPath));
    assert_eq!(worker::time_from_name("power-123.xml"), Err(Error::MalformedPath));
    assert_eq!(worker::time_from_name("energy-1-2-3.xml"), Err(Error::MalformedPath));
    assert_eq!(worker::time_from_name("power-1-2-3.txt"), Err(Error::MalformedPath));
    assert_eq!(worker::time_from_name("power-a-b-7-c.xml"), Err(Error::MalformedPath));
    assert_eq!(worker::time_from_name("power--5-.xml"), Ok(5));
}

#[test]
fn derives_the_time_of_a_path() {
    assert_eq!(worker::derive_time("/tmp/jobs/power-100-200-300.xml"), Some(Ok(200)));
    assert_eq!(worker::derive_time("/tmp/.."), Some(Err(Error::MalformedPath)));
    assert_eq!(worker::derive_time("/data/power-10-20-30.xml/"), Some(Ok(20)));
    assert_eq!(worker::derive_time("/"), Some(Err(Error::MalformedPath)));
    assert_eq!(worker::derive_time("power-1-2.xml"), None);
}

#[test]
fn generates_names_of_columns() {
    let names = worker::generate_names(&[("core#_dynamic", 2), ("l3#", 1)]);
    assert_eq!(names, vec!["core0_dynamic", "core1_dynamic", "l30"]);
}

#[test]
fn runs_a_session() {
    let mut session = Session::new();
    assert!(matches!(session.receive("bullet:halt"), Ok(Action::Halt)));
    match session.receive("/jobs/power-1-42-3.xml") {
        Ok(Action::Record { time, config }) => {
            assert_eq!(time, 42);
            assert_eq!(config, "/jobs/power-1-42-3.xml");
        },
        _ => panic!("expected a record"),
    }
    assert!(matches!(session.receive("/jobs/power-1-2.xml"), Ok(Action::Abort)));
    assert!(matches!(session.receive("/jobs/other.xml"), Err(Error::MalformedPath)));
    let names = session.prepare(2, 1).unwrap();
    assert_eq!(names, vec![
        "core0_dynamic", "core1_dynamic", "core0_leakage", "core1_leakage", "l30_dynamic",
        "l30_leakage",
    ]);
    assert!(session.prepare(5, 5).is_none());
    assert_eq!(session.names().len(), 6);
    assert_eq!(session.len(), 6);
    assert_eq!(session.check(6), Ok(()));
    assert_eq!(session.check(5), Err(Error::DimensionMismatch));
}
