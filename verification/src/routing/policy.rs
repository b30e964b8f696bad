//! Policy (source-based) routing: a connection gets its own routing table
//! via a FIB rule, so a split-tunnel VPN's routes only apply to traffic
//! from its own source address.

use vstd::prelude::*;

verus! {

/// Table ids 1-252 are free for use (0 and 253-255 are reserved);
/// per-connection tables start at 100 so collisions are unlikely.
pub const TABLE_RANGE_START: u8 = 100;

/// The last table id that is free for use.
pub const TABLE_RANGE_END: u8 = 252;

/// The policy-routing table for the `connection_index`-th connection:
/// `100 + connection_index`, saturating at 252 so that a reserved table is
/// never handed out.
pub fn table_for(connection_index: u8) -> (t: u8)
    ensures
        t == if connection_index as int + 100 > 252 { 252 } else { connection_index as int + 100 },
        TABLE_RANGE_START <= t <= TABLE_RANGE_END,
{
    if connection_index > TABLE_RANGE_END - TABLE_RANGE_START {
        TABLE_RANGE_END
    } else {
        TABLE_RANGE_START + connection_index
    }
}

} // verus!
