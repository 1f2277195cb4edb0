//! CD-ROM streaming system types.
//!
//! Parameters and positions used when driving sector-granular reads of a
//! disc: a request's mode flags, and the minute/second/sector addressing
//! scheme (75 sectors per second, 60 seconds per minute).

use vstd::prelude::*;

verus! {

/// Wait counter timeout in frames.
pub const WAIT_COUNTER: u32 = 0x78;

/// Timeout counter in frames.
pub const TIMEOUT_COUNTER: u32 = 0xb4;

/// CD-ROM system state.
#[derive(Debug, Clone, Copy, PartialEq, Eq, Structural)]
pub enum CdromState {
    /// The drive is idle.
    Idle,
    /// The drive is preparing to read.
    Preparing,
    /// The drive is actively reading.
    Reading,
    /// The read is complete.
    Complete,
    /// The operation failed.
    Error,
}

/// CD-ROM async mode selector.
#[derive(Debug, Clone, Copy, PartialEq, Eq, Structural)]
pub enum CdromAsyncMode {
    /// Synchronous/blocking mode.
    Sync,
    /// Asynchronous mode.
    Async,
}

/// CD-ROM sync status codes.
#[derive(Debug, Clone, Copy, PartialEq, Eq, Structural)]
pub enum CdromSyncStatus {
    /// Operation in progress.
    InProgress,
    /// Operation complete.
    Complete,
}

/// CD-ROM streaming parameters: a sector count plus two mode-flag bits.
///
/// Bit 0 of `mode_flags` requests an asynchronous read; bit 1 requests
/// waiting for completion.
#[derive(Debug, Clone, Copy, PartialEq, Eq, Structural)]
pub struct CdromStreamParams {
    /// Number of sectors to read.
    pub sector_count: u32,
    /// Mode flags (bit 0: start async; bit 1: wait for completion).
    pub mode_flags: u32,
}

impl CdromStreamParams {
    /// Create stream parameters from the two boolean options.
    pub fn new(sector_count: u32, start_async: bool, wait_complete: bool) -> (r: Self)
        ensures
            r.sector_count == sector_count,
            r.mode_flags == (if start_async { 1u32 } else { 0u32 }) + (if wait_complete {
                2u32
            } else {
                0u32
            }),
    {
        let mut flags: u32 = 0;
        if start_async {
            flags = flags + 1;
        }
        if wait_complete {
            flags = flags + 2;
        }
        Self { sector_count, mode_flags: flags }
    }

    /// Whether an asynchronous read should be started (bit 0).
    pub fn should_start_async(&self) -> (r: bool)
        ensures
            r == (self.mode_flags & 0x01 != 0),
    {
        (self.mode_flags & 0x01) != 0
    }

    /// Whether the caller should wait for completion (bit 1).
    pub fn should_wait_complete(&self) -> (r: bool)
        ensures
            r == (self.mode_flags & 0x02 != 0),
    {
        (self.mode_flags & 0x02) != 0
    }
}

/// A position on the disc in minutes, seconds and sectors.
#[derive(Debug, Clone, Copy, Default, PartialEq, Eq, Structural)]
pub struct CdromPosition {
    /// Minutes (0-99).
    pub minute: u8,
    /// Seconds (0-59).
    pub second: u8,
    /// Sectors within the second (0-74).
    pub sector: u8,
}

/// The absolute sector number a minute/second/sector triple denotes.
pub open spec fn spec_sector_number(p: CdromPosition) -> u32 {
    (p.minute as u32 * 4500 + p.second as u32 * 75 + p.sector as u32) as u32
}

/// A minute/second/sector triple lies in the addressable range.
pub open spec fn position_valid(p: CdromPosition) -> bool {
    p.second < 60 && p.sector < 75
}

impl CdromPosition {
    /// Create a new position.
    pub fn new(minute: u8, second: u8, sector: u8) -> (r: Self)
        ensures
            r == (CdromPosition { minute, second, sector }),
    {
        Self { minute, second, sector }
    }

    /// Convert the position to an absolute sector number
    /// (75 sectors per second, 60 seconds per minute).
    pub fn to_sector_number(&self) -> (r: u32)
        ensures
            r == spec_sector_number(*self),
    {
        let minutes = self.minute as u32;
        let seconds = self.second as u32;
        let sectors = self.sector as u32;
        minutes * 60 * 75 + seconds * 75 + sectors
    }

    /// Split an absolute sector number into a minute/second/sector triple.
    pub fn from_sector_number(sector: u32) -> (r: Self)
        ensures
            r.minute == (sector / 4500) as u8,
            r.second == (sector / 75) % 60,
            r.sector == sector % 75,
            position_valid(r),
    {
        let minute = (sector / (60 * 75)) as u8;
        let second = ((sector / 75) % 60) as u8;
        let sec = (sector % 75) as u8;
        Self { minute, second, sector: sec }
    }
}

/// Converting a valid position to its sector number and back yields the
/// same position.
pub proof fn lemma_position_round_trip(p: CdromPosition)
    requires
        position_valid(p),
    ensures
        spec_sector_number(p) / 4500 == p.minute,
        (spec_sector_number(p) / 75) % 60 == p.second,
        spec_sector_number(p) % 75 == p.sector,
{
    let n = spec_sector_number(p) as int;
    assert(n == p.minute as int * 4500 + p.second as int * 75 + p.sector as int);
    assert(n / 4500 == p.minute as int) by (nonlinear_arith)
        requires
            n == p.minute as int * 4500 + p.second as int * 75 + p.sector as int,
            0 <= p.second < 60,
            0 <= p.sector < 75,
    ;
    assert(n / 75 == p.minute as int * 60 + p.second as int) by (nonlinear_arith)
        requires
            n == p.minute as int * 4500 + p.second as int * 75 + p.sector as int,
            0 <= p.second < 60,
            0 <= p.sector < 75,
    ;
    assert((p.minute as int * 60 + p.second as int) % 60 == p.second as int) by (nonlinear_arith)
        requires
            0 <= p.second < 60,
    ;
    assert(n % 75 == p.sector as int) by (nonlinear_arith)
        requires
            n == (p.minute as int * 60 + p.second as int) * 75 + p.sector as int,
            0 <= p.sector < 75,
    ;
}

/// Splitting any sector number in the addressable range (minutes 0-99)
/// into minutes, seconds and sectors and recombining yields the same
/// number.
pub proof fn lemma_sector_number_round_trip(n: u32)
    requires
        n < 450000,
    ensures
        spec_sector_number(
            CdromPosition {
                minute: (n / 4500) as u8,
                second: ((n / 75) % 60) as u8,
                sector: (n % 75) as u8,
            },
        ) == n,
{
    let m = (n / 4500) as int;
    let s = ((n / 75) % 60) as int;
    let c = (n % 75) as int;
    assert(m * 4500 + s * 75 + c == n) by (nonlinear_arith)
        requires
            m == n as int / 4500,
            s == (n as int / 75) % 60,
            c == n as int % 75,
            0 <= n < 450000,
    ;
}

} // verus!
