//! The 48-octet header shared by NTP versions 3 and 4, and the first octet
//! that packs leap indicator, version and association mode.

use crate::bytes::{be32, be64, put_u32, put_u64, read_u32, read_u64, u32_bytes, u64_bytes};
use crate::error::PacketParsingError;
use crate::values::{
    short_of, NtpClock, NtpDuration, NtpTimestamp, PollInterval, ReferenceId, SystemSnapshot,
    KISS_DENY, KISS_RATE,
};
use rand::Rng;
use vstd::prelude::*;

verus! {

#[derive(Debug, Copy, Clone, PartialEq, Eq, Structural)]
pub enum NtpLeapIndicator {
    NoWarning,
    Leap61,
    Leap59,
    Unknown,
}

/// The leap indicator that two bits stand for.
pub open spec fn leap_from_bits(bits: u8) -> NtpLeapIndicator {
    if bits == 0 {
        NtpLeapIndicator::NoWarning
    } else if bits == 1 {
        NtpLeapIndicator::Leap61
    } else if bits == 2 {
        NtpLeapIndicator::Leap59
    } else {
        NtpLeapIndicator::Unknown
    }
}

/// The two bits that stand for a leap indicator.
pub open spec fn leap_bits(leap: NtpLeapIndicator) -> u8 {
    match leap {
        NtpLeapIndicator::NoWarning => 0,
        NtpLeapIndicator::Leap61 => 1,
        NtpLeapIndicator::Leap59 => 2,
        NtpLeapIndicator::Unknown => 3,
    }
}

impl NtpLeapIndicator {
    pub fn from_bits(bits: u8) -> (r: NtpLeapIndicator)
        requires
            bits < 4,
        ensures
            r == leap_from_bits(bits),
    {
        match bits {
            0 => NtpLeapIndicator::NoWarning,
            1 => NtpLeapIndicator::Leap61,
            2 => NtpLeapIndicator::Leap59,
            _ => NtpLeapIndicator::Unknown,
        }
    }

    pub fn to_bits(self) -> (r: u8)
        ensures
            r == leap_bits(self),
            r < 4,
    {
        match self {
            NtpLeapIndicator::NoWarning => 0,
            NtpLeapIndicator::Leap61 => 1,
            NtpLeapIndicator::Leap59 => 2,
            NtpLeapIndicator::Unknown => 3,
        }
    }

    pub fn is_synchronized(&self) -> (r: bool)
        ensures
            r == !(*self is Unknown),
    {
        !matches!(self, NtpLeapIndicator::Unknown)
    }
}

/// Every two-bit value names a leap indicator whose bits are that value.
pub proof fn lemma_leap_bits_round_trip(bits: u8)
    requires
        bits < 4,
    ensures
        leap_bits(leap_from_bits(bits)) == bits,
{
}

/// Every leap indicator is named by its own bits.
pub proof fn lemma_leap_from_own_bits(leap: NtpLeapIndicator)
    ensures
        leap_bits(leap) < 4,
        leap_from_bits(leap_bits(leap)) == leap,
{
}

#[derive(Debug, Copy, Clone, PartialEq, Eq, Structural)]
pub enum NtpAssociationMode {
    Reserved,
    SymmetricActive,
    SymmetricPassive,
    Client,
    Server,
    Broadcast,
    Control,
    Private,
}

/// The association mode that three bits stand for.
pub open spec fn mode_from_bits(bits: u8) -> NtpAssociationMode {
    if bits == 0 {
        NtpAssociationMode::Reserved
    } else if bits == 1 {
        NtpAssociationMode::SymmetricActive
    } else if bits == 2 {
        NtpAssociationMode::SymmetricPassive
    } else if bits == 3 {
        NtpAssociationMode::Client
    } else if bits == 4 {
        NtpAssociationMode::Server
    } else if bits == 5 {
        NtpAssociationMode::Broadcast
    } else if bits == 6 {
        NtpAssociationMode::Control
    } else {
        NtpAssociationMode::Private
    }
}

/// The three bits that stand for an association mode.
pub open spec fn mode_bits(mode: NtpAssociationMode) -> u8 {
    match mode {
        NtpAssociationMode::Reserved => 0,
        NtpAssociationMode::SymmetricActive => 1,
        NtpAssociationMode::SymmetricPassive => 2,
        NtpAssociationMode::Client => 3,
        NtpAssociationMode::Server => 4,
        NtpAssociationMode::Broadcast => 5,
        NtpAssociationMode::Control => 6,
        NtpAssociationMode::Private => 7,
    }
}

impl NtpAssociationMode {
    pub fn from_bits(bits: u8) -> (r: NtpAssociationMode)
        requires
            bits < 8,
        ensures
            r == mode_from_bits(bits),
    {
        match bits {
            0 => NtpAssociationMode::Reserved,
            1 => NtpAssociationMode::SymmetricActive,
            2 => NtpAssociationMode::SymmetricPassive,
            3 => NtpAssociationMode::Client,
            4 => NtpAssociationMode::Server,
            5 => NtpAssociationMode::Broadcast,
            6 => NtpAssociationMode::Control,
            _ => NtpAssociationMode::Private,
        }
    }

    pub fn to_bits(self) -> (r: u8)
        ensures
            r == mode_bits(self),
            r < 8,
    {
        match self {
            NtpAssociationMode::Reserved => 0,
            NtpAssociationMode::SymmetricActive => 1,
            NtpAssociationMode::SymmetricPassive => 2,
            NtpAssociationMode::Client => 3,
            NtpAssociationMode::Server => 4,
            NtpAssociationMode::Broadcast => 5,
            NtpAssociationMode::Control => 6,
            NtpAssociationMode::Private => 7,
        }
    }
}

/// Every three-bit value names an association mode whose bits are that value.
pub proof fn lemma_mode_bits_round_trip(bits: u8)
    requires
        bits < 8,
    ensures
        mode_bits(mode_from_bits(bits)) == bits,
{
}

/// Every association mode is named by its own bits.
pub proof fn lemma_mode_from_own_bits(mode: NtpAssociationMode)
    ensures
        mode_bits(mode) < 8,
        mode_from_bits(mode_bits(mode)) == mode,
{
}

/// The version field of a first octet.
pub open spec fn version_of(octet: u8) -> u8 {
    (octet & 0x38u8) >> 3u8
}

/// The first octet: leap indicator, version and mode, most significant first.
pub open spec fn first_octet(leap: NtpLeapIndicator, version: u8, mode: NtpAssociationMode) -> u8 {
    (leap_bits(leap) << 6u8) | (version << 3u8) | mode_bits(mode)
}

proof fn lemma_first_octet_fields(l: u8, v: u8, m: u8)
    requires
        l < 4,
        v < 8,
        m < 8,
    ensures
        (((l << 6u8) | (v << 3u8) | m) & 0xC0u8) >> 6u8 == l,
        (((l << 6u8) | (v << 3u8) | m) & 0x38u8) >> 3u8 == v,
        ((l << 6u8) | (v << 3u8) | m) & 0x07u8 == m,
{
    assert((((l << 6u8) | (v << 3u8) | m) & 0xC0u8) >> 6u8 == l && (((l << 6u8) | (v << 3u8) | m)
        & 0x38u8) >> 3u8 == v && ((l << 6u8) | (v << 3u8) | m) & 0x07u8 == m) by (bit_vector)
        requires
            l < 4,
            v < 8,
            m < 8,
    ;
}

proof fn lemma_octet_split(b: u8)
    ensures
        ((b & 0xC0u8) >> 6u8) < 4,
        ((b & 0x38u8) >> 3u8) < 8,
        (b & 0x07u8) < 8,
        ((((b & 0xC0u8) >> 6u8) << 6u8) | (((b & 0x38u8) >> 3u8) << 3u8) | (b & 0x07u8)) == b,
{
    assert(((b & 0xC0u8) >> 6u8) < 4 && ((b & 0x38u8) >> 3u8) < 8 && (b & 0x07u8) < 8 && ((((b
        & 0xC0u8) >> 6u8) << 6u8) | (((b & 0x38u8) >> 3u8) << 3u8) | (b & 0x07u8)) == b)
        by (bit_vector);
}

/// The fields of the fixed 48-octet header of versions 3 and 4.
#[derive(Debug, Copy, Clone, PartialEq, Eq, Structural)]
pub struct NtpHeaderV3V4 {
    pub leap: NtpLeapIndicator,
    pub mode: NtpAssociationMode,
    pub stratum: u8,
    pub poll: i8,
    pub precision: i8,
    pub root_delay: NtpDuration,
    pub root_dispersion: NtpDuration,
    pub reference_id: ReferenceId,
    pub reference_timestamp: NtpTimestamp,
    /// Time at the client when the request departed for the server
    pub origin_timestamp: NtpTimestamp,
    /// Time at the server when the request arrived from the client
    pub receive_timestamp: NtpTimestamp,
    /// Time at the server when the response left for the client
    pub transmit_timestamp: NtpTimestamp,
}

/// The header of a wire version.
#[derive(Debug, Copy, Clone, PartialEq, Eq, Structural)]
pub enum NtpHeader {
    V3(NtpHeaderV3V4),
    V4(NtpHeaderV3V4),
}

impl NtpHeader {
    pub open spec fn fields(self) -> NtpHeaderV3V4 {
        match self {
            NtpHeader::V3(h) => h,
            NtpHeader::V4(h) => h,
        }
    }

    pub open spec fn version(self) -> u8 {
        match self {
            NtpHeader::V3(_) => 3,
            NtpHeader::V4(_) => 4,
        }
    }
}

/// What a client keeps of its request to recognise the response to it.
#[derive(Debug, Copy, Clone, PartialEq, Eq, Structural)]
pub struct RequestIdentifier {
    pub expected_origin_timestamp: NtpTimestamp,
}

/// The number of octets of the fixed header.
pub const HEADER_LENGTH: usize = 48;

/// A header with every field zero, no leap warning and client mode.
pub open spec fn empty_header() -> NtpHeaderV3V4 {
    NtpHeaderV3V4 {
        leap: NtpLeapIndicator::NoWarning,
        mode: NtpAssociationMode::Client,
        stratum: 0,
        poll: 0,
        precision: 0,
        root_delay: NtpDuration { duration: 0 },
        root_dispersion: NtpDuration { duration: 0 },
        reference_id: ReferenceId { id: 0 },
        reference_timestamp: NtpTimestamp { timestamp: 0 },
        origin_timestamp: NtpTimestamp { timestamp: 0 },
        receive_timestamp: NtpTimestamp { timestamp: 0 },
        transmit_timestamp: NtpTimestamp { timestamp: 0 },
    }
}

/// The header that the first 48 octets of `s` encode.
#[verifier::opaque]
pub open spec fn header_of(s: Seq<u8>) -> NtpHeaderV3V4 {
    NtpHeaderV3V4 {
        leap: leap_from_bits((s[0] & 0xC0u8) >> 6u8),
        mode: mode_from_bits(s[0] & 0x07u8),
        stratum: s[1],
        poll: s[2] as i8,
        precision: s[3] as i8,
        root_delay: NtpDuration { duration: (be32(s.subrange(4, 8)) as int * 0x1_0000) as i64 },
        root_dispersion: NtpDuration {
            duration: (be32(s.subrange(8, 12)) as int * 0x1_0000) as i64,
        },
        reference_id: ReferenceId { id: be32(s.subrange(12, 16)) },
        reference_timestamp: NtpTimestamp { timestamp: be64(s.subrange(16, 24)) },
        origin_timestamp: NtpTimestamp { timestamp: be64(s.subrange(24, 32)) },
        receive_timestamp: NtpTimestamp { timestamp: be64(s.subrange(32, 40)) },
        transmit_timestamp: NtpTimestamp { timestamp: be64(s.subrange(40, 48)) },
    }
}

/// The 48 octets that encode header `h` under wire version `version`.
#[verifier::opaque]
pub open spec fn header_bytes(h: NtpHeaderV3V4, version: u8) -> Seq<u8> {
    seq![first_octet(h.leap, version, h.mode), h.stratum, h.poll as u8, h.precision as u8]
        + u32_bytes(short_of(h.root_delay.duration)) + u32_bytes(
        short_of(h.root_dispersion.duration),
    ) + u32_bytes(h.reference_id.id) + u64_bytes(h.reference_timestamp.timestamp) + u64_bytes(
        h.origin_timestamp.timestamp,
    ) + u64_bytes(h.receive_timestamp.timestamp) + u64_bytes(h.transmit_timestamp.timestamp)
}

/// The header that a server sends back in answer to `input`.
pub open spec fn timestamp_response_header(
    system: SystemSnapshot,
    input: NtpHeaderV3V4,
    recv_timestamp: NtpTimestamp,
    transmit_timestamp: NtpTimestamp,
) -> NtpHeaderV3V4 {
    NtpHeaderV3V4 {
        mode: NtpAssociationMode::Server,
        stratum: system.stratum,
        origin_timestamp: input.transmit_timestamp,
        receive_timestamp: recv_timestamp,
        reference_id: system.reference_id,
        poll: input.poll,
        precision: system.precision,
        root_delay: system.root_delay,
        root_dispersion: system.root_dispersion,
        transmit_timestamp: transmit_timestamp,
        ..empty_header()
    }
}

/// The kiss-o'-death header with code `kiss` in answer to `input`.
pub open spec fn kiss_header(input: NtpHeaderV3V4, kiss: u32) -> NtpHeaderV3V4 {
    NtpHeaderV3V4 {
        mode: NtpAssociationMode::Server,
        stratum: 0,
        reference_id: ReferenceId { id: kiss },
        origin_timestamp: input.transmit_timestamp,
        ..empty_header()
    }
}

/// The header of a client request with poll interval `poll` and transmit
/// timestamp `transmit`.
pub open spec fn poll_header(poll: i8, transmit: NtpTimestamp) -> NtpHeaderV3V4 {
    NtpHeaderV3V4 { poll: poll, mode: NtpAssociationMode::Client, transmit_timestamp: transmit, ..empty_header() }
}

/// Whether every duration of `h` is exactly a 16.16 value, as it is in
/// every header read from the wire.
pub open spec fn short_exact(h: NtpHeaderV3V4) -> bool {
    &&& h.root_delay.duration == short_of(h.root_delay.duration) as int * 0x1_0000
    &&& h.root_dispersion.duration == short_of(h.root_dispersion.duration) as int * 0x1_0000
}

proof fn lemma_octet_cast(b: u8)
    ensures
        (b as i8) as u8 == b,
{
    assert((b as i8) as u8 == b) by (bit_vector);
}

proof fn lemma_signed_cast(x: i8)
    ensures
        (x as u8) as i8 == x,
{
    assert((x as u8) as i8 == x) by (bit_vector);
}

/// Encoding a header read from the wire under the version it was read with
/// gives back the octets it was read from.
pub proof fn lemma_header_bytes_of_header(s: Seq<u8>)
    requires
        s.len() >= 48,
    ensures
        header_bytes(header_of(s), version_of(s[0])) == s.subrange(0, 48),
        short_exact(header_of(s)),
{
    reveal(header_of);
    reveal(header_bytes);
    let h = header_of(s);
    let b = s[0];
    lemma_octet_split(b);
    lemma_leap_bits_round_trip((b & 0xC0u8) >> 6u8);
    lemma_mode_bits_round_trip(b & 0x07u8);
    lemma_octet_cast(s[2]);
    lemma_octet_cast(s[3]);
    crate::bytes::lemma_bytes_u32_round_trip(s.subrange(4, 8));
    crate::bytes::lemma_bytes_u32_round_trip(s.subrange(8, 12));
    crate::bytes::lemma_bytes_u32_round_trip(s.subrange(12, 16));
    crate::bytes::lemma_bytes_u64_round_trip(s.subrange(16, 24));
    crate::bytes::lemma_bytes_u64_round_trip(s.subrange(24, 32));
    crate::bytes::lemma_bytes_u64_round_trip(s.subrange(32, 40));
    crate::bytes::lemma_bytes_u64_round_trip(s.subrange(40, 48));
    assert(header_bytes(h, version_of(b)) =~= s.subrange(0, 48));
}

/// The header reads the first 48 octets and nothing after them.
pub proof fn lemma_header_of_prefix(s: Seq<u8>, t: Seq<u8>)
    requires
        s.len() >= 48,
        t.len() >= 48,
        s.subrange(0, 48) == t.subrange(0, 48),
    ensures
        header_of(s) == header_of(t),
{
    reveal(header_of);
    assert(s[0] == s.subrange(0, 48)[0]);
    assert(t[0] == t.subrange(0, 48)[0]);
    assert(s[1] == t[1] && s[2] == t[2] && s[3] == t[3]) by {
        assert(s[1] == s.subrange(0, 48)[1] && s[2] == s.subrange(0, 48)[2] && s[3]
            == s.subrange(0, 48)[3]);
        assert(t[1] == t.subrange(0, 48)[1] && t[2] == t.subrange(0, 48)[2] && t[3]
            == t.subrange(0, 48)[3]);
    }
    assert(s.subrange(4, 8) =~= t.subrange(4, 8)) by {
        assert(s.subrange(4, 8) =~= s.subrange(0, 48).subrange(4, 8));
        assert(t.subrange(4, 8) =~= t.subrange(0, 48).subrange(4, 8));
    }
    assert(s.subrange(8, 12) =~= t.subrange(8, 12)) by {
        assert(s.subrange(8, 12) =~= s.subrange(0, 48).subrange(8, 12));
        assert(t.subrange(8, 12) =~= t.subrange(0, 48).subrange(8, 12));
    }
    assert(s.subrange(12, 16) =~= t.subrange(12, 16)) by {
        assert(s.subrange(12, 16) =~= s.subrange(0, 48).subrange(12, 16));
        assert(t.subrange(12, 16) =~= t.subrange(0, 48).subrange(12, 16));
    }
    assert(s.subrange(16, 24) =~= t.subrange(16, 24)) by {
        assert(s.subrange(16, 24) =~= s.subrange(0, 48).subrange(16, 24));
        assert(t.subrange(16, 24) =~= t.subrange(0, 48).subrange(16, 24));
    }
    assert(s.subrange(24, 32) =~= t.subrange(24, 32)) by {
        assert(s.subrange(24, 32) =~= s.subrange(0, 48).subrange(24, 32));
        assert(t.subrange(24, 32) =~= t.subrange(0, 48).subrange(24, 32));
    }
    assert(s.subrange(32, 40) =~= t.subrange(32, 40)) by {
        assert(s.subrange(32, 40) =~= s.subrange(0, 48).subrange(32, 40));
        assert(t.subrange(32, 40) =~= t.subrange(0, 48).subrange(32, 40));
    }
    assert(s.subrange(40, 48) =~= t.subrange(40, 48)) by {
        assert(s.subrange(40, 48) =~= s.subrange(0, 48).subrange(40, 48));
        assert(t.subrange(40, 48) =~= t.subrange(0, 48).subrange(40, 48));
    }
}

/// Reading back the encoding of a header gives that header, under either
/// version, where its durations are exact 16.16 values.
pub proof fn lemma_header_of_header_bytes(h: NtpHeaderV3V4, version: u8)
    requires
        version < 8,
        short_exact(h),
    ensures
        header_bytes(h, version).len() == 48,
        header_of(header_bytes(h, version)) == h,
        version_of(header_bytes(h, version)[0]) == version,
{
    reveal(header_of);
    reveal(header_bytes);
    let s = header_bytes(h, version);
    lemma_leap_from_own_bits(h.leap);
    lemma_mode_from_own_bits(h.mode);
    lemma_first_octet_fields(leap_bits(h.leap), version, mode_bits(h.mode));
    lemma_signed_cast(h.poll);
    lemma_signed_cast(h.precision);
    crate::bytes::lemma_u32_round_trip(short_of(h.root_delay.duration));
    crate::bytes::lemma_u32_round_trip(short_of(h.root_dispersion.duration));
    crate::bytes::lemma_u32_round_trip(h.reference_id.id);
    crate::bytes::lemma_u64_round_trip(h.reference_timestamp.timestamp);
    crate::bytes::lemma_u64_round_trip(h.origin_timestamp.timestamp);
    crate::bytes::lemma_u64_round_trip(h.receive_timestamp.timestamp);
    crate::bytes::lemma_u64_round_trip(h.transmit_timestamp.timestamp);
    assert(s.subrange(4, 8) =~= u32_bytes(short_of(h.root_delay.duration)));
    assert(s.subrange(8, 12) =~= u32_bytes(short_of(h.root_dispersion.duration)));
    assert(s.subrange(12, 16) =~= u32_bytes(h.reference_id.id));
    assert(s.subrange(16, 24) =~= u64_bytes(h.reference_timestamp.timestamp));
    assert(s.subrange(24, 32) =~= u64_bytes(h.origin_timestamp.timestamp));
    assert(s.subrange(32, 40) =~= u64_bytes(h.receive_timestamp.timestamp));
    assert(s.subrange(40, 48) =~= u64_bytes(h.transmit_timestamp.timestamp));
}

/// Relies on rand's `thread_rng().gen::<u64>()`: a value of the thread-local
/// cryptographically secure generator. Nothing is known of the value. The
/// generator is seeded from the operating system on first use, and rand
/// panics if that source fails.
#[verifier::external_body]
fn random_u64() -> (r: u64) {
    rand::thread_rng().gen::<u64>()
}

impl NtpHeaderV3V4 {
    /// A header with every field zero, no leap warning and client mode.
    pub fn new() -> (r: NtpHeaderV3V4)
        ensures
            r == empty_header(),
    {
        NtpHeaderV3V4 {
            leap: NtpLeapIndicator::NoWarning,
            mode: NtpAssociationMode::Client,
            stratum: 0,
            poll: 0,
            precision: 0,
            root_delay: NtpDuration { duration: 0 },
            root_dispersion: NtpDuration { duration: 0 },
            reference_id: ReferenceId { id: 0 },
            reference_timestamp: NtpTimestamp { timestamp: 0 },
            origin_timestamp: NtpTimestamp { timestamp: 0 },
            receive_timestamp: NtpTimestamp { timestamp: 0 },
            transmit_timestamp: NtpTimestamp { timestamp: 0 },
        }
    }

    /// Reads the header from the first 48 octets of `data`, and says how many
    /// octets it took.
    pub fn deserialize(data: &[u8]) -> (r: Result<(NtpHeaderV3V4, usize), PacketParsingError>)
        ensures
            data@.len() < 48 ==> r == Err::<(NtpHeaderV3V4, usize), _>(
                PacketParsingError::IncorrectLength,
            ),
            data@.len() >= 48 ==> r == Ok::<_, PacketParsingError>((header_of(data@), 48usize)),
    {
        if data.len() < HEADER_LENGTH {
            return Err(PacketParsingError::IncorrectLength);
        }
        let b = data[0];
        proof {
            lemma_octet_split(b);
            reveal(header_of);
        }
        let delay = read_u32(data, 4);
        let dispersion = read_u32(data, 8);
        let h = NtpHeaderV3V4 {
            leap: NtpLeapIndicator::from_bits((b & 0xC0u8) >> 6u8),
            mode: NtpAssociationMode::from_bits(b & 0x07u8),
            stratum: data[1],
            poll: data[2] as i8,
            precision: data[3] as i8,
            root_delay: NtpDuration::from_bits_short(delay),
            root_dispersion: NtpDuration::from_bits_short(dispersion),
            reference_id: ReferenceId::from_int(read_u32(data, 12)),
            reference_timestamp: NtpTimestamp::from_fixed_int(read_u64(data, 16)),
            origin_timestamp: NtpTimestamp::from_fixed_int(read_u64(data, 24)),
            receive_timestamp: NtpTimestamp::from_fixed_int(read_u64(data, 32)),
            transmit_timestamp: NtpTimestamp::from_fixed_int(read_u64(data, 40)),
        };
        Ok((h, HEADER_LENGTH))
    }

    /// Appends the 48 octets of this header under wire version `version`.
    pub fn serialize(&self, w: &mut Vec<u8>, version: u8)
        requires
            version < 8,
        ensures
            final(w)@ == old(w)@ + header_bytes(*self, version),
    {
        proof {
            reveal(header_bytes);
        }
        let first = (self.leap.to_bits() << 6u8) | (version << 3u8) | self.mode.to_bits();
        w.push(first);
        w.push(self.stratum);
        w.push(self.poll as u8);
        w.push(self.precision as u8);
        put_u32(w, self.root_delay.to_bits_short());
        put_u32(w, self.root_dispersion.to_bits_short());
        put_u32(w, self.reference_id.to_int());
        put_u64(w, self.reference_timestamp.to_fixed_int());
        put_u64(w, self.origin_timestamp.to_fixed_int());
        put_u64(w, self.receive_timestamp.to_fixed_int());
        put_u64(w, self.transmit_timestamp.to_fixed_int());
        assert(w@ =~= old(w)@ + header_bytes(*self, version));
    }

    /// A client request with a random transmit timestamp, and what identifies
    /// the response to it.
    pub fn poll_message(poll_interval: PollInterval) -> (r: (NtpHeaderV3V4, RequestIdentifier))
        ensures
            r.0 == poll_header(poll_interval.log, r.1.expected_origin_timestamp),
    {
        let mut packet = NtpHeaderV3V4::new();
        packet.poll = poll_interval.as_log();
        packet.mode = NtpAssociationMode::Client;

        // A random transmit timestamp makes the request hard to guess: the
        // server echoes it in the origin field of its response.
        let transmit_timestamp = NtpTimestamp::from_fixed_int(random_u64());
        packet.transmit_timestamp = transmit_timestamp;

        (packet, RequestIdentifier { expected_origin_timestamp: transmit_timestamp })
    }

    /// The server's answer to `input`, received at `recv_timestamp`. The
    /// transmit timestamp is read from `clock` last of all.
    pub fn timestamp_response<C: NtpClock>(
        system: &SystemSnapshot,
        input: NtpHeaderV3V4,
        recv_timestamp: NtpTimestamp,
        clock: &C,
    ) -> (r: NtpHeaderV3V4)
        ensures
            r == timestamp_response_header(*system, input, recv_timestamp, r.transmit_timestamp),
    {
        let mut h = NtpHeaderV3V4::new();
        h.mode = NtpAssociationMode::Server;
        h.stratum = system.stratum;
        h.origin_timestamp = input.transmit_timestamp;
        h.receive_timestamp = recv_timestamp;
        h.reference_id = system.reference_id;
        h.poll = input.poll;
        h.precision = system.precision;
        h.root_delay = system.root_delay;
        h.root_dispersion = system.root_dispersion;
        h.transmit_timestamp = clock.now();
        h
    }

    /// The kiss-o'-death "RATE" in answer to `packet_from_client`.
    pub fn rate_limit_response(packet_from_client: NtpHeaderV3V4) -> (r: NtpHeaderV3V4)
        ensures
            r == kiss_header(packet_from_client, KISS_RATE),
    {
        let mut h = NtpHeaderV3V4::new();
        h.mode = NtpAssociationMode::Server;
        h.stratum = 0;
        h.reference_id = ReferenceId::kiss_rate();
        h.origin_timestamp = packet_from_client.transmit_timestamp;
        h
    }

    /// The kiss-o'-death "DENY" in answer to `packet_from_client`.
    pub fn deny_response(packet_from_client: NtpHeaderV3V4) -> (r: NtpHeaderV3V4)
        ensures
            r == kiss_header(packet_from_client, KISS_DENY),
    {
        let mut h = NtpHeaderV3V4::new();
        h.mode = NtpAssociationMode::Server;
        h.stratum = 0;
        h.reference_id = ReferenceId::kiss_deny();
        h.origin_timestamp = packet_from_client.transmit_timestamp;
        h
    }
}

} // verus!
