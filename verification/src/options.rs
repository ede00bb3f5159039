//! The options of a recording session, set one by one from the command line.

use vstd::prelude::*;

use crate::address::{spec_parse_address, Address, DEFAULT_PORT};
use crate::text;
use crate::text::{equals, find_char, parse_usize, rfind_char};

verus! {

/// The host of the cache when caching is switched on without an address.
pub const LOCAL_HOST: &'static str = "localhost";

/// The host of the cache when caching is given a bare port.
pub const LOOPBACK_HOST: &'static str = "127.0.0.1";

/// The options of a recording session.
#[derive(Debug)]
pub struct Options {
    pub config: Option<String>,
    pub database: Option<String>,
    pub caching: Option<(String, usize)>,
    pub prepare: Option<bool>,
    pub server: Option<(String, usize)>,
    pub queue: Option<String>,
}

/// The content of `Options`.
pub struct OptionsView {
    pub config: Option<Seq<char>>,
    pub database: Option<Seq<char>>,
    pub caching: Option<(Seq<char>, usize)>,
    pub prepare: Option<bool>,
    pub server: Option<(Seq<char>, usize)>,
    pub queue: Option<Seq<char>>,
}

/// The view of an optional string.
pub open spec fn opt_view(o: Option<String>) -> Option<Seq<char>> {
    match o {
        Some(s) => Some(s@),
        None => None,
    }
}

impl View for Options {
    type V = OptionsView;

    open spec fn view(&self) -> OptionsView {
        OptionsView {
            config: opt_view(self.config),
            database: opt_view(self.database),
            caching: match self.caching {
                Some((host, port)) => Some((host@, port)),
                None => None,
            },
            prepare: self.prepare,
            server: match self.server {
                Some((host, port)) => Some((host@, port)),
                None => None,
            },
            queue: opt_view(self.queue),
        }
    }
}

/// The options with nothing set.
pub open spec fn empty_options() -> OptionsView {
    OptionsView {
        config: None,
        database: None,
        caching: None,
        prepare: None,
        server: None,
        queue: None,
    }
}

/// What `set_flag` makes of `o`: `None` where the flag is unknown.
pub open spec fn spec_set_flag(o: OptionsView, name: Seq<char>, value: bool) -> Option<OptionsView> {
    if name == "r"@ || name == "c"@ || name == "caching"@ {
        Some(OptionsView { caching: Some((LOCAL_HOST@, DEFAULT_PORT)), ..o })
    } else if name == "p"@ || name == "prepare"@ {
        Some(OptionsView { prepare: Some(value), ..o })
    } else {
        None
    }
}

/// The cache address that the value of `caching` names: a bare port, a bare
/// host, or `host:port`; `None` where it names none.
pub open spec fn spec_cache_address(value: Seq<char>) -> Option<(Seq<char>, usize)> {
    match (text::find(value, ':'), text::rfind(value, ':')) {
        (None, _) => match text::parse_unsigned(value, usize::MAX as nat) {
            Some(port) => Some((LOOPBACK_HOST@, port as usize)),
            None => Some((value, DEFAULT_PORT)),
        },
        (Some(k), Some(j)) => if k == j {
            match text::parse_unsigned(value.skip(k + 1), usize::MAX as nat) {
                Some(port) => Some((value.take(k), port as usize)),
                None => None,
            }
        } else {
            None
        },
        _ => None,
    }
}

/// What `set_value` makes of `o`: `None` where the option is unknown or its
/// value is malformed.
pub open spec fn spec_set_value(o: OptionsView, name: Seq<char>, value: Seq<char>) -> Option<
    OptionsView,
> {
    if name == "c"@ || name == "config"@ {
        Some(OptionsView { config: Some(value), ..o })
    } else if name == "d"@ || name == "database"@ {
        Some(OptionsView { database: Some(value), ..o })
    } else if name == "r"@ || name == "caching"@ {
        match spec_cache_address(value) {
            Some(address) => Some(OptionsView { caching: Some(address), ..o }),
            None => None,
        }
    } else if name == "s"@ || name == "server"@ {
        match spec_parse_address(value) {
            Some(address) => Some(OptionsView { server: Some(address), ..o }),
            None => None,
        }
    } else if name == "q"@ || name == "queue"@ {
        Some(OptionsView { queue: Some(value), ..o })
    } else {
        None
    }
}

/// The value of `caching` names a cache: a bare port names the port on
/// this machine; any other text without `:` names a host at the default
/// port; `host:port` names that host and port. Setting `caching` stores that
/// address and leaves every other option as it was.
pub proof fn law_cache_address(o: OptionsView, host: Seq<char>, port: usize)
    requires
        !host.contains(':'),
    ensures
        text::parse_unsigned(host, usize::MAX as nat) is None ==> spec_set_value(o, "caching"@, host)
            == Some(OptionsView { caching: Some((host, DEFAULT_PORT)), ..o }),
        spec_set_value(o, "caching"@, text::decimal(port as nat)) == Some(
            OptionsView { caching: Some((LOOPBACK_HOST@, port)), ..o },
        ),
        spec_set_value(o, "caching"@, host + seq![':'] + text::decimal(port as nat)) == Some(
            OptionsView { caching: Some((host, port)), ..o },
        ),
{
    reveal_strlit("caching");
    reveal_strlit("c");
    reveal_strlit("config");
    reveal_strlit("d");
    reveal_strlit("database");
    reveal_strlit("r");
    assert("caching"@ != "c"@ && "caching"@ != "config"@ && "caching"@ != "d"@ && "caching"@
        != "database"@) by {
        assert("caching"@.len() == 7);
    }
    assert(!host.contains(':') ==> text::find(host, ':') is None);
    text::lemma_decimal_is_digits(port as nat);
    let d = text::decimal(port as nat);
    assert(!d.contains(':')) by {
        if d.contains(':') {
            let i = choose|i: int| 0 <= i < d.len() && d[i] == ':';
            assert(text::is_digit(d[i]));
        }
    }
    text::lemma_parse_decimal(port as nat, usize::MAX as nat);
    crate::address::law_address_round_trip(host, port);
    let v = host + seq![':'] + d;
    let k = host.len() as int;
    assert(v[k] == ':');
    assert forall|j: int| 0 <= j < k implies v[j] != ':' by {
        assert(v[j] == host[j]);
    }
    assert forall|j: int| k < j < v.len() implies v[j] != ':' by {
        assert(v[j] == d[j - k - 1]);
    }
    assert(text::is_first(v, ':', k));
    assert(text::is_last(v, ':', k));
    text::lemma_find_is(v, ':', k);
    text::lemma_rfind_is(v, ':', k);
    assert(v.skip(k + 1) =~= d);
    assert(v.take(k) =~= host);
}

/// Works out the cache address that `value` names.
fn cache_address(value: &str) -> (res: Option<(String, usize)>)
    ensures
        match res {
            Some((host, port)) => spec_cache_address(value@) == Some((host@, port)),
            None => spec_cache_address(value@) is None,
        },
{
    match find_char(value, ':') {
        None => match parse_usize(value) {
            Some(port) => Some((LOOPBACK_HOST.to_string(), port)),
            None => Some((value.to_string(), DEFAULT_PORT)),
        },
        Some(k) => {
            let j = match rfind_char(value, ':') {
                Some(j) => j,
                None => return None,
            };
            if k != j {
                return None;
            }
            let len = value.unicode_len();
            let host = value.substring_char(0, k);
            let rest = value.substring_char(k + 1, len);
            assert(rest@ =~= value@.skip(k + 1));
            assert(host@ =~= value@.take(k as int));
            match parse_usize(rest) {
                Some(port) => Some((host.to_string(), port)),
                None => None,
            }
        },
    }
}

impl Options {
    /// Options with nothing set.
    pub fn new() -> (res: Options)
        ensures
            res@ == empty_options(),
    {
        Options {
            config: None,
            database: None,
            caching: None,
            prepare: None,
            server: None,
            queue: None,
        }
    }

    /// Sets the flag `name`; returns whether the flag is known.
    pub fn set_flag(&mut self, name: String, value: bool) -> (res: bool)
        ensures
            res == spec_set_flag(old(self)@, name@, value) is Some,
            res ==> final(self)@ == spec_set_flag(old(self)@, name@, value)->0,
            !res ==> final(self)@ == old(self)@,
    {
        let name = name.as_str();
        if equals(name, "r") || equals(name, "c") || equals(name, "caching") {
            self.caching = Some((LOCAL_HOST.to_string(), DEFAULT_PORT));
        } else if equals(name, "p") || equals(name, "prepare") {
            self.prepare = Some(value);
        } else {
            return false;
        }
        true
    }

    /// Sets the option `name` to `value`; returns whether the option is known
    /// and its value well formed.
    pub fn set_value(&mut self, name: String, value: String) -> (res: bool)
        ensures
            res == spec_set_value(old(self)@, name@, value@) is Some,
            res ==> final(self)@ == spec_set_value(old(self)@, name@, value@)->0,
            !res ==> final(self)@ == old(self)@,
    {
        let name = name.as_str();
        if equals(name, "c") || equals(name, "config") {
            self.config = Some(value);
        } else if equals(name, "d") || equals(name, "database") {
            self.database = Some(value);
        } else if equals(name, "r") || equals(name, "caching") {
            match cache_address(value.as_str()) {
                Some(address) => self.caching = Some(address),
                None => return false,
            }
        } else if equals(name, "s") || equals(name, "server") {
            match Address::parse(value.as_str()) {
                Some(Address(host, port)) => self.server = Some((host, port)),
                None => return false,
            }
        } else if equals(name, "q") || equals(name, "queue") {
            self.queue = Some(value);
        } else {
            return false;
        }
        true
    }
}

impl Default for Options {
    fn default() -> (res: Options)
        ensures
            res@ == empty_options(),
    {
        Options::new()
    }
}

} // verus!
