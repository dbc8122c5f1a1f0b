//! Where the durable store is found.
use vstd::prelude::*;

verus! {

/// The address of the durable store and the name of the database in it.
#[derive(Debug)]
pub struct DbConfig {
    pub url: String,
    pub database: String,
}

impl Default for DbConfig {
    /// A store on this machine, at MongoDB's usual port.
    fn default() -> (r: DbConfig)
        ensures
            r.url@ == "mongodb://localhost:27017"@,
            r.database@ == "stw_mensa"@,
    {
        DbConfig { url: "mongodb://localhost:27017".to_owned(), database: "stw_mensa".to_owned() }
    }
}

} // verus!
