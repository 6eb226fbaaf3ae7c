pub mod chars;
pub mod entry;
pub mod generate;
pub mod parse;
pub mod query;
pub mod template;

use vstd::prelude::*;

use crate::entry::{Error, ErrorV};

verus! {

/// Picks the store file to read: an explicitly given path always wins, a
/// resolved default is used otherwise, and with neither there is no store.
pub fn get_passfile(file: Option<String>, default: Option<String>) -> (r: Result<String, Error>)
    ensures
        match r {
            Ok(p) => (file is Some && p@ == file->Some_0@) || (file is None && default is Some
                && p@ == default->Some_0@),
            Err(e) => file is None && default is None && e@ == ErrorV::NoPassFile,
        },
{
    match file {
        Some(f) => Ok(f),
        None => match default {
            Some(d) => Ok(d),
            None => Err(Error::NoPassFile),
        },
    }
}

} // verus!
