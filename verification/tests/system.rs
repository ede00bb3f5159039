use recorder::arguments::Options;
use recorder::error::Error;
use recorder::system::{self, Layout};

fn layout(cores: i32, homogeneous_cores: i32, l2s: i32, private_l2: i8, l3s: i32, homogeneous_l3s: i32) -> Layout {
    Layout {
        number_of_cores: cores,
        homogeneous_cores,
        number_of_l2s: l2s,
        private_l2,
        number_of_l3s: l3s,
        homogeneous_l3s,
    }
}

#[test]
fn counts_cores_and_caches() {
    let l = layout(4, 0, 4, 1, 2, 0);
    assert_eq!(l.cores(), 4);
    assert_eq!(l.l3s(), 2);
    let l = layout(4, 1, 4, 1, 2, 1);
    assert_eq!(l.cores(), 1);
    assert_eq!(l.l3s(), 1);
}

#[test]
fn refuses_shared_l2_caches() {
    assert_eq!(layout(4, 0, 1, 0, 1, 0).check(), Err(Error::SharedL2));
    assert_eq!(layout(4, 0, 1, 1, 1, 0).check(), Ok(()));
    assert_eq!(layout(4, 0, 0, 0, 1, 0).check(), Ok(()));
}

#[test]
fn finds_the_caching_server() {
    let o = Options::parse(vec!["--caching".to_string(), "--server".to_string(), "c:1".to_string()]).unwrap();
    let a = system::caching_server(&o).unwrap();
    assert_eq!((a.0.as_str(), a.1), ("c", 1));
    let o = Options::parse(vec!["--caching".to_string()]).unwrap();
    let a = system::caching_server(&o).unwrap();
    assert_eq!((a.0.as_str(), a.1), ("127.0.0.0", 6379));
    let o = Options::parse(vec!["--server".to_string(), "c:1".to_string()]).unwrap();
    assert!(system::caching_server(&o).is_none());
}

#[test]
fn caches_through_the_server_of_a_session() {
    let mut o = recorder::options::Options::new();
    assert!(system::session_caching_server(&o).is_none());
    o.caching = Some(("localhost".to_string(), 6379));
    let a = system::session_caching_server(&o).unwrap();
    assert_eq!((a.0.as_str(), a.1), ("127.0.0.0", 6379));
    o.server = Some(("redis".to_string(), 7000));
    let a = system::session_caching_server(&o).unwrap();
    assert_eq!((a.0.as_str(), a.1), ("redis", 7000));
}
