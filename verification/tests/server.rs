use recorder::arguments::Options;
use recorder::error::Error;
use recorder::server::{self, Reply};

fn args(list: &[&str]) -> Options {
    Options::parse(list.iter().map(|s| s.to_string()).collect()).unwrap()
}

#[test]
fn reads_the_last_element_of_a_popped_list() {
    let reply = Reply::Array(vec![Reply::Bulk(b"queue".to_vec()), Reply::Bulk("päth".as_bytes().to_vec())]);
    assert_eq!(server::decode_reply(reply), Ok("päth".to_string()));
}

#[test]
fn refuses_unexpected_replies() {
    assert_eq!(server::decode_reply(Reply::Nil), Err(Error::UnexpectedReply));
    assert_eq!(server::decode_reply(Reply::Status("OK".to_string())), Err(Error::UnexpectedReply));
    assert_eq!(server::decode_reply(Reply::Integer(1)), Err(Error::UnexpectedReply));
    assert_eq!(server::decode_reply(Reply::Array(vec![])), Err(Error::UnexpectedReply));
    assert_eq!(
        server::decode_reply(Reply::Array(vec![Reply::Bulk(vec![]), Reply::Nil])),
        Err(Error::UnexpectedReply)
    );
    assert_eq!(
        server::decode_reply(Reply::Array(vec![Reply::Bulk(vec![b'a', 0xff, 0xfe])])),
        Err(Error::InvalidUtf8 { valid_up_to: 1, error_len: 1 })
    );
    assert_eq!(
        server::decode_reply(Reply::Array(vec![Reply::Bulk(vec![b'a', b'b', 0xe2, 0x82])])),
        Err(Error::IncompleteUtf8 { valid_up_to: 2 })
    );
    assert_eq!(
        server::decode_reply(Reply::Array(vec![Reply::Bulk(vec![b'a', 0xe2, 0x28])])),
        Err(Error::InvalidUtf8 { valid_up_to: 1, error_len: 1 })
    );
}

#[test]
fn finds_the_server_and_the_queue() {
    let a = server::server_address(&args(&["--server", "redis:7000", "--queue", "jobs"]));
    assert_eq!((a.0.as_str(), a.1), ("redis", 7000));
    let a = server::server_address(&args(&["--server", "redis"]));
    assert_eq!((a.0.as_str(), a.1), ("127.0.0.0", 6379));
    let a = server::server_address(&args(&[]));
    assert_eq!((a.0.as_str(), a.1), ("127.0.0.0", 6379));
    assert_eq!(server::queue_name(&args(&["--queue", "jobs"])), Ok("jobs".to_string()));
    assert_eq!(server::queue_name(&args(&["--queue"])), Err(Error::QueueRequired));
    assert_eq!(server::queue_name(&args(&[])), Err(Error::QueueRequired));
}

#[test]
fn reports_bad_bytes_as_std_does() {
    for bytes in [vec![0xffu8], vec![b'x', 0xc3], vec![0xe2, 0x28, 0xa1], vec![b'o', b'k', 0xf0, 0x90, 0x80]] {
        let expected = String::from_utf8(bytes.clone()).unwrap_err().to_string();
        match server::decode_reply(Reply::Array(vec![Reply::Bulk(bytes)])) {
            Err(e) => assert_eq!(e.message(), expected),
            Ok(_) => panic!("expected an error"),
        }
    }
}

#[test]
fn finds_the_server_and_the_queue_of_a_session() {
    let mut o = recorder::options::Options::new();
    let a = server::session_server(&o);
    assert_eq!((a.0.as_str(), a.1), ("127.0.0.0", 6379));
    assert_eq!(server::session_queue(&o), "bullet-queue");
    o.server = Some(("redis".to_string(), 7000));
    o.queue = Some("jobs".to_string());
    let a = server::session_server(&o);
    assert_eq!((a.0.as_str(), a.1), ("redis", 7000));
    assert_eq!(server::session_queue(&o), "jobs");
}
