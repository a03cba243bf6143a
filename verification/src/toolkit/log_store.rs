//! Errors of the on-disk log store.
use vstd::prelude::*;
use vstd::string::*;

use crate::text::joined;

verus! {

/// Why the log store failed.
#[derive(Debug)]
pub enum RocksdbLogStoreError {
    /// The database failed; the text describes how.
    RocksDb(String),
    /// A record could not be read; the text says why.
    Decode(String),
    /// The database has no column family of this name.
    MissingColumnFamily(String),
}

impl RocksdbLogStoreError {
    /// The line that describes the error.
    pub fn text(&self) -> (r: String)
        ensures
            match self {
                RocksdbLogStoreError::RocksDb(why) => r@ == "rocksdb error: "@ + why@,
                RocksdbLogStoreError::Decode(why) => r@ == "decode error: "@ + why@,
                RocksdbLogStoreError::MissingColumnFamily(name) => r@ == "column family `"@ + name@
                    + "` not found"@,
            },
    {
        match self {
            RocksdbLogStoreError::RocksDb(why) => joined("rocksdb error: ", why.as_str()),
            RocksdbLogStoreError::Decode(why) => joined("decode error: ", why.as_str()),
            RocksdbLogStoreError::MissingColumnFamily(name) => {
                let mut line = joined("column family `", name.as_str());
                line.append("` not found");
                line
            },
        }
    }
}

/// What a failure says.
pub proof fn law_what_a_failure_says(error: RocksdbLogStoreError, line: String)
    requires
        call_ensures(RocksdbLogStoreError::text, (&error,), line),
    ensures
        error matches RocksdbLogStoreError::RocksDb(why) ==> line@ == "rocksdb error: "@ + why@,
        error matches RocksdbLogStoreError::Decode(why) ==> line@ == "decode error: "@ + why@,
        error matches RocksdbLogStoreError::MissingColumnFamily(name) ==> line@
            == "column family `"@ + name@ + "` not found"@,
{
}

} // verus!
