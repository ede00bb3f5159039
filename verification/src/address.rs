//! Addresses of the form `host:port`.

use vstd::prelude::*;

use crate::text;
use crate::text::{find_char, parse_usize, rfind_char};

verus! {

/// The host name used when no server is given.
pub const DEFAULT_HOST: &'static str = "127.0.0.0";

/// The port used when no server is given.
pub const DEFAULT_PORT: usize = 6379;

/// An address composed of a host name and a port.
pub struct Address(pub String, pub usize);

impl View for Address {
    type V = (Seq<char>, usize);

    open spec fn view(&self) -> (Seq<char>, usize) {
        (self.0@, self.1)
    }
}

/// What `Address::parse` gives for `s`: the text holds exactly one `:`, and
/// what follows it is a port number; the host is what precedes it.
pub open spec fn spec_parse_address(s: Seq<char>) -> Option<(Seq<char>, usize)> {
    match (text::find(s, ':'), text::rfind(s, ':')) {
        (Some(k), Some(j)) => if k == j {
            match text::parse_unsigned(s.skip(k + 1), usize::MAX as nat) {
                Some(port) => Some((s.take(k), port as usize)),
                None => None,
            }
        } else {
            None
        },
        _ => None,
    }
}

impl Address {
    /// Parse an address.
    pub fn parse(string: &str) -> (res: Option<Address>)
        ensures
            match res {
                Some(a) => spec_parse_address(string@) == Some(a@),
                None => spec_parse_address(string@) is None,
            },
    {
        let k = match find_char(string, ':') {
            Some(k) => k,
            None => return None,
        };
        let j = match rfind_char(string, ':') {
            Some(j) => j,
            None => return None,
        };
        if k != j {
            return None;
        }
        let len = string.unicode_len();
        let host = string.substring_char(0, k);
        let rest = string.substring_char(k + 1, len);
        assert(rest@ =~= string@.skip(k + 1));
        assert(host@ =~= string@.take(k as int));
        match parse_usize(rest) {
            Some(port) => Some(Address(host.to_string(), port)),
            None => None,
        }
    }

    /// The address of a server on the local machine at the standard port.
    pub fn default() -> (res: Address)
        ensures
            res@ == (DEFAULT_HOST@, DEFAULT_PORT),
    {
        Address(DEFAULT_HOST.to_string(), DEFAULT_PORT)
    }
}

/// A host without `:` and a port, written `host:port`, parse back to the
/// same host and port.
pub proof fn law_address_round_trip(host: Seq<char>, port: usize)
    requires
        !host.contains(':'),
    ensures
        spec_parse_address(host + seq![':'] + text::decimal(port as nat)) == Some((host, port)),
{
    let s = host + seq![':'] + text::decimal(port as nat);
    let k = host.len() as int;
    assert(s[k] == ':');
    assert forall|j: int| 0 <= j < k implies s[j] != ':' by {
        assert(s[j] == host[j]);
    }
    lemma_decimal_has_no_colon(port as nat);
    assert forall|j: int| k < j < s.len() implies s[j] != ':' by {
        assert(s[j] == text::decimal(port as nat)[j - k - 1]);
    }
    assert(text::is_first(s, ':', k));
    assert(text::is_last(s, ':', k));
    text::lemma_find_is(s, ':', k);
    text::lemma_rfind_is(s, ':', k);
    assert(s.skip(k + 1) =~= text::decimal(port as nat));
    assert(s.take(k) =~= host);
    text::lemma_parse_decimal(port as nat, usize::MAX as nat);
}

proof fn lemma_decimal_has_no_colon(n: nat)
    ensures
        forall|i: int| 0 <= i < text::decimal(n).len() ==> text::decimal(n)[i] != ':',
{
    text::lemma_decimal_is_digits(n);
    assert forall|i: int| 0 <= i < text::decimal(n).len() implies text::decimal(n)[i] != ':' by {
        assert(text::is_digit(text::decimal(n)[i]));
    }
}

} // verus!
