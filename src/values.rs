//! The fixed-width values that an NTP header carries: timestamps, short
//! durations, reference ids and poll intervals, and the server state that a
//! response is built from.

use vstd::prelude::*;

verus! {

/// A 64-bit NTP timestamp: 32 bits of seconds and 32 bits of fraction.
#[derive(Debug, Copy, Clone, PartialEq, Eq, Structural, Default)]
pub struct NtpTimestamp {
    pub timestamp: u64,
}

impl NtpTimestamp {
    pub fn from_fixed_int(timestamp: u64) -> (r: NtpTimestamp)
        ensures
            r.timestamp == timestamp,
    {
        NtpTimestamp { timestamp }
    }

    pub fn to_fixed_int(&self) -> (r: u64)
        ensures
            r == self.timestamp,
    {
        self.timestamp
    }
}

/// The 16.16 fixed-point value ("short format") that stands for a duration on
/// the wire.
pub open spec fn short_of(duration: i64) -> u32 {
    if duration < 0 {
        0
    } else if duration > 0xFFFF_FFFF_FFFF {
        0xFFFF_FFFF
    } else {
        (duration / 0x1_0000) as u32
    }
}

/// A signed duration in 32.32 fixed point (seconds and fraction).
#[derive(Debug, Copy, Clone, PartialEq, Eq, Structural, Default)]
pub struct NtpDuration {
    pub duration: i64,
}

impl NtpDuration {
    pub fn from_fixed_int(duration: i64) -> (r: NtpDuration)
        ensures
            r.duration == duration,
    {
        NtpDuration { duration }
    }

    pub fn to_fixed_int(&self) -> (r: i64)
        ensures
            r == self.duration,
    {
        self.duration
    }

    /// The duration of a 16.16 fixed-point "short" value.
    pub fn from_bits_short(bits: u32) -> (r: NtpDuration)
        ensures
            r.duration == bits as int * 0x1_0000,
            short_of(r.duration) == bits,
    {
        NtpDuration { duration: (bits as i64) * 0x1_0000 }
    }

    /// The 16.16 "short" value of this duration. The fraction below 2^-16 s is
    /// dropped; a negative duration gives zero and one too large for 16 bits
    /// of seconds gives the largest value.
    pub fn to_bits_short(&self) -> (r: u32)
        ensures
            r == short_of(self.duration),
    {
        if self.duration < 0 {
            0
        } else if self.duration > 0xFFFF_FFFF_FFFF {
            0xFFFF_FFFF
        } else {
            (self.duration / 0x1_0000) as u32
        }
    }
}

/// The four octets that name a server's reference, or carry a kiss code.
#[derive(Debug, Copy, Clone, PartialEq, Eq, Structural, Default)]
pub struct ReferenceId {
    pub id: u32,
}

/// "DENY" in ASCII.
pub const KISS_DENY: u32 = 0x4445_4e59;

/// "RATE" in ASCII.
pub const KISS_RATE: u32 = 0x5241_5445;

/// "RSTR" in ASCII.
pub const KISS_RSTR: u32 = 0x5253_5452;

/// "NTSN" in ASCII.
pub const KISS_NTSN: u32 = 0x4e54_534e;

impl ReferenceId {
    pub fn from_int(id: u32) -> (r: ReferenceId)
        ensures
            r.id == id,
    {
        ReferenceId { id }
    }

    pub fn to_int(&self) -> (r: u32)
        ensures
            r == self.id,
    {
        self.id
    }

    pub fn kiss_deny() -> (r: ReferenceId)
        ensures
            r.id == KISS_DENY,
    {
        ReferenceId { id: KISS_DENY }
    }

    pub fn kiss_rate() -> (r: ReferenceId)
        ensures
            r.id == KISS_RATE,
    {
        ReferenceId { id: KISS_RATE }
    }

    pub fn is_deny(&self) -> (r: bool)
        ensures
            r == (self.id == KISS_DENY),
    {
        self.id == KISS_DENY
    }

    pub fn is_rate(&self) -> (r: bool)
        ensures
            r == (self.id == KISS_RATE),
    {
        self.id == KISS_RATE
    }

    pub fn is_rstr(&self) -> (r: bool)
        ensures
            r == (self.id == KISS_RSTR),
    {
        self.id == KISS_RSTR
    }

    pub fn is_ntsn(&self) -> (r: bool)
        ensures
            r == (self.id == KISS_NTSN),
    {
        self.id == KISS_NTSN
    }
}

/// A poll interval, as the base-2 logarithm of seconds.
#[derive(Debug, Copy, Clone, PartialEq, Eq, Structural)]
pub struct PollInterval {
    pub log: i8,
}

/// The poll interval of a fresh association: 2^4 seconds.
pub const DEFAULT_POLL_LOG: i8 = 4;

impl PollInterval {
    pub fn from_log(log: i8) -> (r: PollInterval)
        ensures
            r.log == log,
    {
        PollInterval { log }
    }

    pub fn as_log(&self) -> (r: i8)
        ensures
            r == self.log,
    {
        self.log
    }
}

impl Default for PollInterval {
    fn default() -> (r: PollInterval)
        ensures
            r.log == DEFAULT_POLL_LOG,
    {
        PollInterval { log: DEFAULT_POLL_LOG }
    }
}

/// What a server states of its own synchronisation in every response.
#[derive(Debug, Copy, Clone, PartialEq, Eq)]
pub struct SystemSnapshot {
    pub stratum: u8,
    pub reference_id: ReferenceId,
    /// The clock's precision, as the base-2 logarithm of seconds.
    pub precision: i8,
    pub root_delay: NtpDuration,
    pub root_dispersion: NtpDuration,
}

/// A source of the current time.
pub trait NtpClock {
    fn now(&self) -> NtpTimestamp;
}

} // verus!
