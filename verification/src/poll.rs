//! What polling a future comes to.

use vstd::prelude::*;

verus! {

/// The outcome of one poll: the value, or a promise to wake the task later.
pub enum Poll<T> {
    Ready(T),
    Pending,
}

} // verus!
