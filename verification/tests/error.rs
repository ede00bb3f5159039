use recorder::error::Error;

#[test]
fn describes_errors() {
    assert_eq!(Error::InvalidArguments.message(), "the arguments are invalid");
    assert_eq!(Error::SharedL2.message(), "shared L2 caches are currently not supported");
    assert_eq!(Error::QueueRequired.message(), "a queue name is required");
    assert_eq!(
        Error::InvalidUtf8 { valid_up_to: 3, error_len: 1 }.message(),
        "invalid utf-8 sequence of 1 bytes from index 3"
    );
    assert_eq!(
        Error::IncompleteUtf8 { valid_up_to: 12 }.message(),
        "incomplete utf-8 byte sequence from index 12"
    );
}
