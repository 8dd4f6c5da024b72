//! The protocol's hard limits, and the arithmetic that enforces them.

use vstd::prelude::*;

verus! {

/// The largest number of records one document may hold.
pub const RECORDS_LIMIT: usize = 50_000;

/// The largest number of payload bytes one document may hold (50 MiB).
pub const BYTES_LIMIT: usize = 52_428_800;

/// The largest number of bytes read as one line of a plain-text document.
pub const RESOURCE_LENGTH_LIMIT: usize = 2048;

/// How much of `limit` is left once `used` is taken from it; zero once the
/// limit is reached or crossed.
pub open spec fn spec_until_limit(limit: int, used: int) -> int {
    if used >= limit {
        0
    } else {
        limit - used
    }
}

/// By how much `total` lies over `limit`; zero while it does not.
pub open spec fn spec_over_limit(limit: int, total: int) -> int {
    if total > limit {
        total - limit
    } else {
        0
    }
}

/// Whether a session that has handled `bytes` bytes and `records` records may
/// go on: both counters lie strictly under their limits.
pub open spec fn spec_within_limits(bytes: int, records: int) -> bool {
    bytes < BYTES_LIMIT && records < RECORDS_LIMIT
}

/// What the limits say of one more unit.
#[derive(Debug, Clone, Copy, PartialEq, Eq, Structural)]
pub enum Admission {
    /// The unit keeps the session within both limits.
    Accepted,
    /// The session holds as many records as it may.
    TooManyRecords,
    /// The unit would take the session this many bytes over the limit.
    TooManyBytes(usize),
}

/// An excess as it is given: one past the largest number that can be given
/// is given as that number.
pub open spec fn spec_excess(excess: int) -> usize {
    if excess > usize::MAX {
        usize::MAX
    } else {
        excess as usize
    }
}

/// What the limits say of a unit of `unit` bytes for a session that has
/// handled `bytes` bytes and `records` records. The record count is looked
/// at first; the bytes are counted with the unit, so that a session that is
/// over the byte limit already is refused every unit.
pub open spec fn spec_assess(bytes: int, records: int, unit: int) -> Admission {
    if records >= RECORDS_LIMIT {
        Admission::TooManyRecords
    } else if bytes + unit > BYTES_LIMIT {
        Admission::TooManyBytes(spec_excess(bytes + unit - BYTES_LIMIT))
    } else {
        Admission::Accepted
    }
}

/// Decides whether a session may take one more unit.
pub fn assess(bytes: usize, records: usize, unit: usize) -> (r: Admission)
    ensures
        r == spec_assess(bytes as int, records as int, unit as int),
{
    if records >= RECORDS_LIMIT {
        Admission::TooManyRecords
    } else if bytes <= BYTES_LIMIT {
        let room = BYTES_LIMIT - bytes;
        if unit > room {
            Admission::TooManyBytes(unit - room)
        } else {
            Admission::Accepted
        }
    } else {
        let over = bytes - BYTES_LIMIT;
        if unit > usize::MAX - over {
            Admission::TooManyBytes(usize::MAX)
        } else {
            Admission::TooManyBytes(over + unit)
        }
    }
}

/// The room left under `limit`, saturating at zero.
pub fn until_limit(limit: usize, used: usize) -> (left: usize)
    ensures
        left == spec_until_limit(limit as int, used as int),
{
    if used >= limit {
        0
    } else {
        limit - used
    }
}

/// The excess of `total` over `limit`, zero while there is none.
pub fn over_limit(limit: usize, total: usize) -> (excess: usize)
    ensures
        excess == spec_over_limit(limit as int, total as int),
{
    if total > limit {
        total - limit
    } else {
        0
    }
}

/// The number of bytes that may still be handled.
pub fn bytes_until_limit(bytes: usize) -> (left: usize)
    ensures
        left == spec_until_limit(BYTES_LIMIT as int, bytes as int),
{
    until_limit(BYTES_LIMIT, bytes)
}

/// The number of records that may still be handled.
pub fn records_until_limit(records: usize) -> (left: usize)
    ensures
        left == spec_until_limit(RECORDS_LIMIT as int, records as int),
{
    until_limit(RECORDS_LIMIT, records)
}

/// Whether both counters still leave room.
pub fn within_limits(bytes: usize, records: usize) -> (ok: bool)
    ensures
        ok == spec_within_limits(bytes as int, records as int),
{
    bytes_until_limit(bytes) > 0 && records_until_limit(records) > 0
}

} // verus!
