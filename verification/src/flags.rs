//! The status flags of a descriptor.

use vstd::prelude::*;

verus! {

/// The flags that the target has, as bits of a flag word.
#[derive(Clone, Copy, Debug, PartialEq, Eq)]
pub struct FlagTable {
    /// Every flag that the target knows.
    pub known: i32,
    /// The flag that makes reads and writes return instead of blocking.
    pub non_block: i32,
}

impl FlagTable {
    /// The non-blocking flag is a flag that the target knows.
    pub open spec fn wf(self) -> bool {
        &&& self.non_block & self.known == self.non_block
        &&& self.non_block != 0
    }

    /// The flags of the word `raw` that the target knows, with the non-blocking
    /// flag among them.
    pub open spec fn non_blocking(self, raw: i32) -> i32 {
        (raw & self.known) | self.non_block
    }

    /// The table of the target that this is built for.
    pub fn target() -> (table: Self)
        ensures
            table.wf(),
    {
        oflag_table()
    }
}

/// Reads off nix's `OFlag::all` and `OFlag::O_NONBLOCK`. Claimed is that
/// `O_NONBLOCK` is a flag of the target, so that it is not zero and lies within
/// `all`. Which bits these are differs from target to target and is not stated.
#[verifier::external_body]
fn oflag_table() -> (table: FlagTable)
    ensures
        table.wf(),
{
    FlagTable {
        known: nix::fcntl::OFlag::all().bits(),
        non_block: nix::fcntl::OFlag::O_NONBLOCK.bits(),
    }
}

/// The flag word to set in order to make a descriptor with the flag word `raw`
/// non-blocking: bits that the target does not know are cut off.
pub fn set_non_blocking(raw: i32, table: &FlagTable) -> (bits: i32)
    ensures
        bits == table.non_blocking(raw),
        bits == (raw & table.known) | table.non_block,
{
    (raw & table.known) | table.non_block
}

/// Making a descriptor non-blocking sets the non-blocking flag, keeps every
/// flag that the target knows and sets no other.
pub proof fn non_blocking_adds_one_flag(table: FlagTable, raw: i32)
    ensures
        table.non_blocking(raw) & table.non_block == table.non_block,
        table.non_blocking(raw) & (raw & table.known) == raw & table.known,
        table.non_blocking(raw) & !table.non_block == (raw & table.known) & !table.non_block,
{
    let (k, n) = (table.known, table.non_block);
    assert(((raw & k) | n) & n == n) by (bit_vector);
    assert(((raw & k) | n) & (raw & k) == raw & k) by (bit_vector);
    assert(((raw & k) | n) & !n == (raw & k) & !n) by (bit_vector);
}

/// Making a descriptor non-blocking a second time changes nothing.
pub proof fn non_blocking_is_idempotent(table: FlagTable, raw: i32)
    requires
        table.wf(),
    ensures
        table.non_blocking(table.non_blocking(raw)) == table.non_blocking(raw),
{
    let (k, n) = (table.known, table.non_block);
    assert(n & k == n ==> ((((raw & k) | n) & k) | n) == ((raw & k) | n)) by (bit_vector);
}

} // verus!
