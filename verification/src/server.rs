//! The queue of jobs on a Redis server: where the server is, which queue to
//! read, and what a reply to a blocking pop holds.

use vstd::prelude::*;

use crate::address::{spec_parse_address, Address, DEFAULT_HOST, DEFAULT_PORT};
use crate::arguments::{Options, Value};
use crate::error::{Error, Result};

verus! {

/// The queue that a worker reads when none is given.
pub const DEFAULT_QUEUE: &'static str = "bullet-queue";

/// The address of the server that the options name: the one that
/// `--server` gives where it is well formed, else the default one.
pub open spec fn spec_server_address(args: Map<Seq<char>, Value>) -> (Seq<char>, usize) {
    if args.contains_key("server"@) {
        match args["server"@] {
            Value::Text(s) => match spec_parse_address(s) {
                Some(a) => a,
                None => (DEFAULT_HOST@, DEFAULT_PORT),
            },
            Value::Flag(_) => (DEFAULT_HOST@, DEFAULT_PORT),
        }
    } else {
        (DEFAULT_HOST@, DEFAULT_PORT)
    }
}

/// The address of the server to connect to.
pub fn server_address(arguments: &Options) -> (res: Address)
    ensures
        res@ == spec_server_address(arguments@),
{
    match arguments.get::<String>("server") {
        Some(s) => match Address::parse(s.as_str()) {
            Some(a) => a,
            None => Address::default(),
        },
        None => Address::default(),
    }
}

/// The server of a session: the one given, else the default one.
pub fn session_server(options: &crate::options::Options) -> (res: Address)
    ensures
        res@ == match options@.server {
            Some(address) => address,
            None => (DEFAULT_HOST@, DEFAULT_PORT),
        },
{
    match &options.server {
        Some((host, port)) => Address(host.clone(), *port),
        None => Address::default(),
    }
}

/// The queue of a session: the one given, else the default one.
pub fn session_queue(options: &crate::options::Options) -> (res: String)
    ensures
        res@ == match options@.queue {
            Some(q) => q,
            None => DEFAULT_QUEUE@,
        },
{
    match &options.queue {
        Some(q) => q.clone(),
        None => DEFAULT_QUEUE.to_string(),
    }
}

/// The queue to read jobs from: `--queue` is required.
pub fn queue_name(arguments: &Options) -> (res: Result<String>)
    ensures
        match res {
            Ok(q) => arguments@.contains_key("queue"@) && arguments@["queue"@] == Value::Text(q@),
            Err(e) => e == Error::QueueRequired && !(arguments@.contains_key("queue"@)
                && arguments@["queue"@] is Text),
        },
{
    match arguments.get::<String>("queue") {
        Some(q) => Ok(q),
        None => Err(Error::QueueRequired),
    }
}


/// A reply of the server, as Hiredis hands it over.
pub enum Reply {
    Status(String),
    Integer(i64),
    Bulk(Vec<u8>),
    Array(Vec<Reply>),
    Nil,
}

/// The bytes that a reply to a blocking pop carries: the last element of
/// the list, where it is bytes.
pub open spec fn popped_bytes(reply: Reply) -> Option<Seq<u8>> {
    match reply {
        Reply::Array(elements) => if elements@.len() > 0 {
            match elements@.last() {
                Reply::Bulk(bytes) => Some(bytes@),
                _ => None,
            }
        } else {
            None
        },
        _ => None,
    }
}

/// Whether `v` is the largest length of a UTF-8 prefix of `bytes`.
pub open spec fn is_valid_up_to(bytes: Seq<u8>, v: int) -> bool {
    &&& 0 <= v <= bytes.len()
    &&& vstd::utf8::valid_utf8(bytes.take(v))
    &&& forall|i: int| v < i <= bytes.len() ==> !vstd::utf8::valid_utf8(#[trigger] bytes.take(i))
}

/// The largest length of a UTF-8 prefix of `bytes` (`Utf8Error::valid_up_to`).
pub open spec fn valid_up_to(bytes: Seq<u8>) -> int {
    choose|v: int| is_valid_up_to(bytes, v)
}

/// The largest UTF-8 prefix is the one that `valid_up_to` names.
pub proof fn lemma_valid_up_to(bytes: Seq<u8>, v: int)
    requires
        is_valid_up_to(bytes, v),
    ensures
        valid_up_to(bytes) == v,
{
    let w = valid_up_to(bytes);
    assert(is_valid_up_to(bytes, w));
    if w < v {
        assert(!vstd::utf8::valid_utf8(bytes.take(v)));
    } else if v < w {
        assert(!vstd::utf8::valid_utf8(bytes.take(w)));
    }
}

/// Whether the bytes after the first `v` end within a character: some
/// further bytes would make them UTF-8.
pub open spec fn ends_within_char(bytes: Seq<u8>, v: int) -> bool {
    exists|more: Seq<u8>| #[trigger] vstd::utf8::valid_utf8(bytes.skip(v) + more)
}

/// Whether `e` is the error for `bytes`, which are not UTF-8: the input ends
/// within a character after the largest UTF-8 prefix, or an invalid
/// sequence follows that prefix.
pub open spec fn reports_invalid_utf8(e: Error, bytes: Seq<u8>) -> bool {
    let v = valid_up_to(bytes);
    if ends_within_char(bytes, v) {
        e == Error::IncompleteUtf8 { valid_up_to: v as usize }
    } else {
        e matches Error::InvalidUtf8 { valid_up_to, .. } && valid_up_to == v
    }
}

/// A message sent as the UTF-8 bytes of a text, last in the list that a
/// blocking pop answers with, is that text: its bytes are valid and decode
/// back to it.
pub proof fn law_reply_round_trip(reply: Reply, text: Seq<char>)
    requires
        popped_bytes(reply) == Some(vstd::utf8::encode_utf8(text)),
    ensures
        vstd::utf8::valid_utf8(popped_bytes(reply)->0),
        vstd::utf8::decode_utf8(popped_bytes(reply)->0) == text,
{
    vstd::utf8::encode_utf8_valid_utf8(text);
    vstd::utf8::encode_utf8_decode_utf8(text);
}

/// The text of `bytes` (`String::from_utf8`). Where they are not UTF-8, the
/// error's `valid_up_to` and `error_len`, as `Utf8Error` documents them: the
/// first is the largest length of a UTF-8 prefix; the second is `None`
/// exactly where the input ends within a character after that prefix, and
/// otherwise the length, at least one, of an invalid sequence that starts
/// there. Which length that is, the documentation does not fix, and the
/// contract leaves it unsaid.
#[verifier::external_body]
fn string_from_utf8(bytes: Vec<u8>) -> (res: core::result::Result<String, (usize, Option<usize>)>)
    ensures
        res is Ok <==> vstd::utf8::valid_utf8(bytes@),
        res matches Ok(s) ==> s@ == vstd::utf8::decode_utf8(bytes@),
        res matches Err((v, len)) ==> is_valid_up_to(bytes@, v as int) && (len is None
            <==> ends_within_char(bytes@, v as int)) && match len {
            Some(n) => 1 <= n && v + n <= bytes@.len(),
            None => v < bytes@.len(),
        },
{
    match String::from_utf8(bytes) {
        Ok(s) => Ok(s),
        Err(e) => Err((e.utf8_error().valid_up_to(), e.utf8_error().error_len())),
    }
}

/// Reads the message in a reply to a blocking pop: the text of the last
/// element of the list, which must be bytes in UTF-8.
pub fn decode_reply(reply: Reply) -> (res: Result<String>)
    ensures
        match popped_bytes(reply) {
            None => res == Err::<String, Error>(Error::UnexpectedReply),
            Some(bytes) => if vstd::utf8::valid_utf8(bytes) {
                res matches Ok(s) && s@ == vstd::utf8::decode_utf8(bytes)
            } else {
                res matches Err(e) && reports_invalid_utf8(e, bytes)
            },
        },
{
    match reply {
        Reply::Array(mut elements) => match elements.pop() {
            Some(Reply::Bulk(bytes)) => {
                let ghost b = bytes@;
                match string_from_utf8(bytes) {
                    Ok(s) => Ok(s),
                    Err((v, len)) => {
                        proof {
                            lemma_valid_up_to(b, v as int);
                        }
                        match len {
                            Some(n) => Err(Error::InvalidUtf8 { valid_up_to: v, error_len: n }),
                            None => Err(Error::IncompleteUtf8 { valid_up_to: v }),
                        }
                    },
                }
            },
            _ => Err(Error::UnexpectedReply),
        },
        _ => Err(Error::UnexpectedReply),
    }
}

} // verus!
