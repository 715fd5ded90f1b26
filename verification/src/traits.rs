//! The trait that the derives implement for a struct.

use vstd::prelude::*;

verus! {

/// A struct that knows its SQL statement; the derives `Queryable`,
/// `Insertable`, `Updateable` and `Deletable` implement it.
pub trait SqlQuery {
    /// The SQL statement text.
    fn query() -> String;
}

} // verus!
