//! What the library reads of a McPAT system: how many cores and caches it
//! has, whether they are alike, and whether its L2 caches are private.

use vstd::prelude::*;

use crate::address::Address;
use crate::arguments::Options;
use crate::error::{Error, Result};

verus! {

/// The fields of a McPAT system specification that the recording reads,
/// as McPAT stores them.
pub struct Layout {
    pub number_of_cores: i32,
    pub homogeneous_cores: i32,
    pub number_of_l2s: i32,
    pub private_l2: i8,
    pub number_of_l3s: i32,
    pub homogeneous_l3s: i32,
}

/// The number of distinct cores: one where they are alike.
pub open spec fn spec_cores(layout: Layout) -> usize {
    if layout.homogeneous_cores != 0 {
        1
    } else {
        layout.number_of_cores as usize
    }
}

/// The number of distinct L3 caches: one where they are alike.
pub open spec fn spec_l3s(layout: Layout) -> usize {
    if layout.homogeneous_l3s != 0 {
        1
    } else {
        layout.number_of_l3s as usize
    }
}

/// Whether the system has L2 caches that its cores share.
pub open spec fn shares_l2(layout: Layout) -> bool {
    layout.number_of_l2s > 0 && layout.private_l2 == 0
}

/// The number of distinct cores depends on the core fields alone: one
/// where the cores are alike, else all of them, whatever the caches are.
pub proof fn law_cores(layout: Layout, other: Layout)
    requires
        other.number_of_cores == layout.number_of_cores,
        other.homogeneous_cores == layout.homogeneous_cores,
    ensures
        spec_cores(other) == spec_cores(layout),
        layout.homogeneous_cores != 0 ==> spec_cores(layout) == 1,
        layout.homogeneous_cores == 0 ==> spec_cores(layout) == layout.number_of_cores as usize,
        layout.homogeneous_cores == 0 && layout.number_of_cores >= 0 ==> spec_cores(layout)
            == layout.number_of_cores,
{
}

/// The number of distinct L3 caches depends on the L3 fields alone: one
/// where the caches are alike, else all of them, whatever the cores are.
pub proof fn law_l3s(layout: Layout, other: Layout)
    requires
        other.number_of_l3s == layout.number_of_l3s,
        other.homogeneous_l3s == layout.homogeneous_l3s,
    ensures
        spec_l3s(other) == spec_l3s(layout),
        layout.homogeneous_l3s != 0 ==> spec_l3s(layout) == 1,
        layout.homogeneous_l3s == 0 ==> spec_l3s(layout) == layout.number_of_l3s as usize,
        layout.homogeneous_l3s == 0 && layout.number_of_l3s >= 0 ==> spec_l3s(layout)
            == layout.number_of_l3s,
{
}

/// A system is refused exactly where it has at least one L2 cache and its
/// L2 caches are not private; how many L2 caches there are, and what the
/// cores and L3 caches are, does not matter beyond that.
pub proof fn law_shared_l2(layout: Layout)
    ensures
        layout.number_of_l2s > 0 && layout.private_l2 == 0 ==> shares_l2(layout),
        layout.number_of_l2s <= 0 ==> !shares_l2(layout),
        layout.private_l2 != 0 ==> !shares_l2(layout),
{
}

impl Layout {
    /// Checks that the system can be recorded: shared L2 caches are not
    /// supported.
    pub fn check(&self) -> (res: Result<()>)
        ensures
            res is Ok <==> !shares_l2(*self),
            res is Err ==> res == Err::<(), Error>(Error::SharedL2),
    {
        if self.number_of_l2s > 0 && self.private_l2 == 0 {
            return Err(Error::SharedL2);
        }
        Ok(())
    }

    /// Return the number of cores.
    pub fn cores(&self) -> (res: usize)
        ensures
            res == spec_cores(*self),
    {
        if self.homogeneous_cores != 0 {
            1
        } else {
            self.number_of_cores as usize
        }
    }

    /// Return the number of L3 caches.
    pub fn l3s(&self) -> (res: usize)
        ensures
            res == spec_l3s(*self),
    {
        if self.homogeneous_l3s != 0 {
            1
        } else {
            self.number_of_l3s as usize
        }
    }
}

/// The McPAT configuration file that `--config` names: it is required.
pub fn mcpat_config(arguments: &Options) -> (res: Result<String>)
    ensures
        match res {
            Ok(c) => arguments@.contains_key("config"@) && arguments@["config"@]
                == crate::arguments::Value::Text(c@),
            Err(e) => e == Error::McpatConfigRequired && !(arguments@.contains_key("config"@)
                && arguments@["config"@] is Text),
        },
{
    match arguments.get::<String>("config") {
        Some(c) => Ok(c),
        None => Err(Error::McpatConfigRequired),
    }
}

/// Whether the options switch caching on.
pub open spec fn asks_caching(args: Map<Seq<char>, crate::arguments::Value>) -> bool {
    args.contains_key("caching"@) && args["caching"@] == crate::arguments::Value::Flag(true)
}

/// The server that caches optimization results, where caching is asked
/// for: the one that `--server` names, or the default one where `--server`
/// is missing or malformed.
pub fn caching_server(arguments: &Options) -> (res: Option<Address>)
    ensures
        match res {
            None => !asks_caching(arguments@),
            Some(a) => asks_caching(arguments@) && a@ == crate::server::spec_server_address(
                arguments@,
            ),
        },
{
    match arguments.get::<bool>("caching") {
        Some(true) => Some(crate::server::server_address(arguments)),
        _ => None,
    }
}

/// The server that caches optimization results in a session, where caching
/// is switched on: the server of the session.
pub fn session_caching_server(options: &crate::options::Options) -> (res: Option<Address>)
    ensures
        match res {
            None => options@.caching is None,
            Some(a) => options@.caching is Some && a@ == match options@.server {
                Some(address) => address,
                None => (crate::address::DEFAULT_HOST@, crate::address::DEFAULT_PORT),
            },
        },
{
    match &options.caching {
        Some(_) => Some(crate::server::session_server(options)),
        None => None,
    }
}

} // verus!
