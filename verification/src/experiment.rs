//! The decisions of a one-off experiment on a McPAT system: which files it
//! needs and which columns it records.

use vstd::prelude::*;

use crate::error::{Error, Result};
use crate::options::Options;
use crate::support;
use crate::system::{spec_cores, spec_l3s, Layout};
use crate::worker;

verus! {

/// The configuration file of the experiment: it is required.
pub fn config_path(options: &Options) -> (res: Result<String>)
    ensures
        match res {
            Ok(c) => options@.config == Some(c@),
            Err(e) => options@.config is None && e == Error::ConfigRequired,
        },
{
    match &options.config {
        Some(c) => Ok(c.clone()),
        None => Err(Error::ConfigRequired),
    }
}

/// The database file of the experiment: it is required.
pub fn database_path(options: &Options) -> (res: Result<String>)
    ensures
        match res {
            Ok(d) => options@.database == Some(d@),
            Err(e) => options@.database is None && e == Error::DatabaseFileRequired,
        },
{
    match &options.database {
        Some(d) => Ok(d.clone()),
        None => Err(Error::DatabaseFileRequired),
    }
}

/// Generates the names that the templates give their components.
pub fn generate(pairs: &[(&str, usize)]) -> (names: Vec<String>)
    requires
        forall|i: int| 0 <= i < pairs@.len() ==> (#[trigger] pairs@[i]).0@.contains('#'),
    ensures
        support::string_views(names@) == support::spec_generate(worker::pairs_view(pairs@)),
{
    worker::generate_names(pairs)
}

/// The columns that the experiment records for the system: the dynamic and
/// the leakage power of each core and each L3 cache.
pub fn columns(layout: &Layout) -> (names: Vec<String>)
    ensures
        support::string_views(names@) == worker::spec_columns(spec_cores(*layout), spec_l3s(*layout)),
{
    worker::columns(layout.cores(), layout.l3s())
}

} // verus!
