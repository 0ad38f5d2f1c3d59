//! A mailbox with a bell: how a sleeping consumer learns of new work.
//!
//! Producers put mail in the box and ring the bell afterwards; the consumer
//! clears the bell first and empties the box afterwards. The executor's wake
//! set and its parked thread are one instance, the selector's registrations
//! and its ping pipe are another.

use vstd::prelude::*;

verus! {

/// The mail after `key` was posted.
pub open spec fn posted<K>(mail: Set<K>, key: K) -> Set<K> {
    mail.insert(key)
}

/// The mail after it was collected.
pub open spec fn collected<K>() -> Set<K> {
    Set::empty()
}

/// The state of a mailbox that holds keys `K`.
#[verifier::reject_recursive_types(K)]
pub struct Mailbox<K> {
    /// The mail that is not collected yet.
    pub mail: Set<K>,
    /// Whether the bell has been rung and not been cleared.
    pub rung: bool,
    /// How many producers have posted and are yet to ring.
    pub ringing: nat,
    /// Whether the consumer is awake and about to collect.
    pub awake: bool,
}

impl<K> Mailbox<K> {
    /// Whether waiting mail is sure to be noticed: the bell is rung or about
    /// to be rung, or the consumer is about to collect.
    pub open spec fn attended(self) -> bool {
        self.mail.is_empty() || self.rung || self.ringing > 0 || self.awake
    }
}

} // verus!
