//! A whole NTP packet: header, extension fields (version 4 only) and an
//! optional legacy MAC trailer.

use crate::bytes::{be32, put_bytes, put_u32, read_u32, u32_bytes};
use crate::container::{
    efdata_bytes, efdata_encodable, fields_of, fixed_nonce, EfView, ExtensionFieldData,
    MAC_MAXIMUM_SIZE,
};
use crate::error::{PacketParsingError, SerializeError};
use crate::field::{fields_view, ExtensionField, FieldView};
use crate::header::{
    empty_header, header_bytes, header_of, kiss_header, poll_header, timestamp_response_header, version_of,
    NtpAssociationMode, NtpHeader, NtpHeaderV3V4, NtpLeapIndicator, RequestIdentifier,
    HEADER_LENGTH,
};
use crate::round_trip::{
    lemma_constructed_round_trip, lemma_nts_encodable, lemma_nts_round_trip, nts_readable,
    packet_readable,
};
use crate::siv::Cipher;
use crate::values::{
    NtpClock, NtpDuration, NtpTimestamp, PollInterval, ReferenceId, SystemSnapshot, KISS_DENY,
    KISS_NTSN, KISS_RATE, KISS_RSTR,
};
use vstd::prelude::*;
use vstd::slice::{slice_subrange, slice_to_vec};

verus! {

/// The legacy MAC trailer: a key id and the MAC octets, carried verbatim.
#[derive(Debug, Clone, PartialEq, Eq)]
pub struct Mac {
    pub keyid: u32,
    pub mac: Vec<u8>,
}

impl View for Mac {
    type V = (u32, Seq<u8>);

    open spec fn view(&self) -> (u32, Seq<u8>) {
        (self.keyid, self.mac@)
    }
}

/// The trailer that `s` encodes: 4 to 27 octets, a key id and MAC octets.
pub open spec fn mac_of(s: Seq<u8>) -> Result<(u32, Seq<u8>), PacketParsingError> {
    if s.len() < 4 || s.len() >= MAC_MAXIMUM_SIZE {
        Err(PacketParsingError::IncorrectLength)
    } else {
        Ok((be32(s.subrange(0, 4)), s.subrange(4, s.len() as int)))
    }
}

/// The octets of a trailer.
pub open spec fn mac_bytes(m: (u32, Seq<u8>)) -> Seq<u8> {
    u32_bytes(m.0) + m.1
}

impl Mac {
    /// This trailer, holding its own octets.
    pub fn into_owned(self) -> (r: Mac)
        ensures
            r@ == self@,
    {
        self
    }

    /// Appends the key id and the MAC octets.
    pub fn serialize(&self, w: &mut Vec<u8>)
        ensures
            final(w)@ == old(w)@ + mac_bytes(self@),
    {
        put_u32(w, self.keyid);
        put_bytes(w, self.mac.as_slice());
        assert(final(w)@ =~= old(w)@ + mac_bytes(self@));
    }

    pub fn deserialize(data: &[u8]) -> (r: Result<Mac, PacketParsingError>)
        ensures
            r matches Ok(m) ==> mac_of(data@) == Ok::<_, PacketParsingError>(m@),
            r matches Err(e) ==> mac_of(data@) == Err::<(u32, Seq<u8>), _>(e),
    {
        if data.len() < 4 || data.len() >= MAC_MAXIMUM_SIZE {
            return Err(PacketParsingError::IncorrectLength);
        }
        Ok(
            Mac {
                keyid: read_u32(data, 0),
                mac: slice_to_vec(slice_subrange(data, 4, data.len())),
            },
        )
    }
}

/// The value of a packet.
pub struct PacketView {
    pub header: NtpHeader,
    pub efdata: EfView,
    pub mac: Option<(u32, Seq<u8>)>,
}

/// No extension fields at all.
pub open spec fn no_fields() -> EfView {
    EfView { authenticated: Seq::empty(), encrypted: Seq::empty(), untrusted: Seq::empty() }
}

/// The trailer that follows offset `end` of `data`, if any octets do.
pub open spec fn trailer_of(data: Seq<u8>, end: int) -> Result<
    Option<(u32, Seq<u8>)>,
    PacketParsingError,
> {
    if end == data.len() {
        Ok(None)
    } else {
        match mac_of(data.subrange(end, data.len() as int)) {
            Err(e) => Err(e),
            Ok(m) => Ok(Some(m)),
        }
    }
}

/// The packet that `data` encodes, with encrypted fields opened with `key`.
pub open spec fn packet_of(data: Seq<u8>, key: Seq<u8>) -> Result<PacketView, PacketParsingError> {
    if data.len() == 0 {
        Err(PacketParsingError::IncorrectLength)
    } else {
        let version = version_of(data[0]);
        if version != 3 && version != 4 {
            Err(PacketParsingError::InvalidVersion(version))
        } else if data.len() < HEADER_LENGTH {
            Err(PacketParsingError::IncorrectLength)
        } else if version == 3 {
            match trailer_of(data, HEADER_LENGTH as int) {
                Err(e) => Err(e),
                Ok(mac) => Ok(
                    PacketView { header: NtpHeader::V3(header_of(data)), efdata: no_fields(), mac },
                ),
            }
        } else {
            match fields_of(data, HEADER_LENGTH as int, key) {
                Err(e) => Err(e),
                Ok((efdata, end)) => match trailer_of(data, end) {
                    Err(e) => Err(e),
                    Ok(mac) => Ok(PacketView { header: NtpHeader::V4(header_of(data)), efdata, mac }),
                },
            }
        }
    }
}

/// A first octet whose version is neither 3 nor 4 fails the parse with that
/// version; with version 3 or 4 a bare 48-octet header parses.
pub proof fn lemma_version_gate(data: Seq<u8>, key: Seq<u8>)
    requires
        data.len() > 0,
    ensures
        version_of(data[0]) != 3 && version_of(data[0]) != 4 ==> packet_of(data, key) == Err::<
            PacketView,
            _,
        >(PacketParsingError::InvalidVersion(version_of(data[0]))),
        (version_of(data[0]) == 3 || version_of(data[0]) == 4) && data.len() == 48 ==> packet_of(
            data,
            key,
        ) is Ok,
{
}

/// After a version 3 header, a trailer of 4 to 27 octets is a MAC and any
/// other non-empty trailer fails the parse.
pub proof fn lemma_mac_bounds(data: Seq<u8>, key: Seq<u8>)
    requires
        data.len() > 48,
        version_of(data[0]) == 3,
    ensures
        data.len() - 48 < 4 || data.len() - 48 >= 28 ==> packet_of(data, key) == Err::<
            PacketView,
            _,
        >(PacketParsingError::IncorrectLength),
        4 <= data.len() - 48 < 28 ==> packet_of(data, key) is Ok && packet_of(data, key)->Ok_0.mac
            == Some(mac_of(data.subrange(48, data.len() as int))->Ok_0),
{
}

/// The key of `NtpPacket::deserialize_without_decryption` and
/// `NtpPacket::serialize_without_encryption`: 32 zero octets.
pub open spec fn zero_key() -> Seq<u8> {
    Seq::new(32, |i: int| 0u8)
}

/// Whether every frame that `p` puts on the wire fits its 16-bit length.
/// Version 3 carries no extension fields.
pub open spec fn packet_encodable(p: PacketView) -> bool {
    p.header is V4 ==> efdata_encodable(p.efdata)
}

/// The octets of packet `p` written after `prefix`, sealed with `key` and
/// `nonce`.
pub open spec fn packet_bytes(prefix: Seq<u8>, p: PacketView, key: Seq<u8>, nonce: Seq<u8>) -> Seq<
    u8,
> {
    let h = header_bytes(p.header.fields(), p.header.version());
    h + (if p.header is V4 {
        efdata_bytes(prefix + h, p.efdata, key, nonce)
    } else {
        Seq::empty()
    }) + (match p.mac {
        Some(m) => mac_bytes(m),
        None => Seq::empty(),
    })
}

/// `header` with its fields replaced by `h`, its version kept.
pub open spec fn with_fields(header: NtpHeader, h: NtpHeaderV3V4) -> NtpHeader {
    match header {
        NtpHeader::V3(_) => NtpHeader::V3(h),
        NtpHeader::V4(_) => NtpHeader::V4(h),
    }
}

/// A response built by `timestamp_response` for a request built by
/// `poll_message` carries the request's transmit timestamp as its origin
/// timestamp, which is what `valid_server_response` looks for.
pub proof fn lemma_response_mirror(
    system: SystemSnapshot,
    poll: i8,
    request_transmit: NtpTimestamp,
    recv_timestamp: NtpTimestamp,
    transmit_timestamp: NtpTimestamp,
)
    ensures
        timestamp_response_header(
            system,
            poll_header(poll, request_transmit),
            recv_timestamp,
            transmit_timestamp,
        ).origin_timestamp == request_transmit,
        kiss_header(poll_header(poll, request_transmit), KISS_RATE).origin_timestamp
            == request_transmit,
        kiss_header(poll_header(poll, request_transmit), KISS_DENY).origin_timestamp
            == request_transmit,
{
}

/// The extension fields of an NTS request: the unique identifier, the
/// cookie, and `extra` placeholders as long as the cookie.
pub open spec fn nts_request_fields(identifier: Seq<u8>, cookie: Seq<u8>, extra: nat) -> Seq<
    FieldView,
> {
    seq![FieldView::UniqueIdentifier(identifier), FieldView::NtsCookie(cookie)] + Seq::new(
        extra,
        |i: int| FieldView::NtsCookiePlaceholder(cookie.len() as u16),
    )
}

#[derive(Debug, Clone, PartialEq, Eq)]
pub struct NtpPacket {
    pub header: NtpHeader,
    pub efdata: ExtensionFieldData,
    pub mac: Option<Mac>,
}

impl View for NtpPacket {
    type V = PacketView;

    open spec fn view(&self) -> PacketView {
        PacketView {
            header: self.header,
            efdata: self.efdata@,
            mac: match self.mac {
                Some(m) => Some(m@),
                None => None,
            },
        }
    }
}

impl NtpPacket {
    /// This packet, holding its own octets.
    pub fn into_owned(self) -> (r: NtpPacket)
        ensures
            r@ == self@,
    {
        self
    }

    /// Reads a packet, decrypting its encrypted field (if any) with `cipher`.
    pub fn deserialize(data: &[u8], cipher: &Cipher) -> (r: Result<NtpPacket, PacketParsingError>)
        ensures
            r matches Ok(p) ==> packet_of(data@, cipher.key@) == Ok::<_, PacketParsingError>(p@),
            r matches Err(e) ==> packet_of(data@, cipher.key@) == Err::<PacketView, _>(e),
    {
        if data.len() == 0 {
            return Err(PacketParsingError::IncorrectLength);
        }
        let version = (data[0] & 0x38u8) >> 3u8;
        if version != 3 && version != 4 {
            return Err(PacketParsingError::InvalidVersion(version));
        }
        let (header, header_size) = match NtpHeaderV3V4::deserialize(data) {
            Ok(h) => h,
            Err(e) => return Err(e),
        };
        if version == 3 {
            let mac = if header_size != data.len() {
                match Mac::deserialize(slice_subrange(data, header_size, data.len())) {
                    Ok(m) => Some(m),
                    Err(e) => return Err(e),
                }
            } else {
                None
            };
            let efdata = ExtensionFieldData::default();
            proof {
                assert(efdata@.authenticated =~= Seq::empty());
                assert(efdata@.encrypted =~= Seq::empty());
                assert(efdata@.untrusted =~= Seq::empty());
            }
            Ok(NtpPacket { header: NtpHeader::V3(header), efdata, mac })
        } else {
            let (efdata, header_plus_fields_len) = match ExtensionFieldData::deserialize(
                data,
                header_size,
                cipher,
            ) {
                Ok(r) => r,
                Err(e) => return Err(e),
            };
            let mac = if header_plus_fields_len != data.len() {
                match Mac::deserialize(slice_subrange(data, header_plus_fields_len, data.len())) {
                    Ok(m) => Some(m),
                    Err(e) => return Err(e),
                }
            } else {
                None
            };
            Ok(NtpPacket { header: NtpHeader::V4(header), efdata, mac })
        }
    }

    /// Reads a packet as `deserialize` does, with the all-zero key: a packet
    /// with an encrypted field fails to decrypt.
    pub fn deserialize_without_decryption(data: &[u8]) -> (r: Result<
        NtpPacket,
        PacketParsingError,
    >)
        ensures
            r matches Ok(p) ==> packet_of(data@, zero_key()) == Ok::<_, PacketParsingError>(p@),
            r matches Err(e) ==> packet_of(data@, zero_key()) == Err::<PacketView, _>(e),
    {
        let cipher = Cipher::zero_key();
        NtpPacket::deserialize(data, &cipher)
    }

    /// Appends the packet, sealing its encrypted field with `cipher` and
    /// `nonce`.
    pub fn serialize_with_nonce(&self, w: &mut Vec<u8>, cipher: &Cipher, nonce: &[u8; 16]) -> (r:
        Result<(), SerializeError>)
        ensures
            r is Ok <==> packet_encodable(self@),
            r is Ok ==> final(w)@ == old(w)@ + packet_bytes(old(w)@, self@, cipher.key@, nonce@),
            old(w)@.len() == 0 && packet_readable(self@) ==> r is Ok && packet_of(
                final(w)@,
                cipher.key@,
            ) == Ok::<_, PacketParsingError>(self@),
            old(w)@.len() == 0 && nts_readable(self@, nonce@) ==> r is Ok && packet_of(
                final(w)@,
                cipher.key@,
            ) == Ok::<_, PacketParsingError>(self@),
    {
        proof {
            if packet_readable(self@) {
                lemma_constructed_round_trip(self@, cipher.key@, cipher.key@, nonce@);
            }
            if nts_readable(self@, nonce@) {
                lemma_nts_encodable(self@, nonce@);
            }
        }
        match self.header {
            NtpHeader::V3(header) => header.serialize(w, 3),
            NtpHeader::V4(header) => header.serialize(w, 4),
        }
        let ghost after_header = w@;
        match self.header {
            // Version 3 has no extension fields.
            NtpHeader::V3(_) => {},
            NtpHeader::V4(_) => match self.efdata.serialize_with_nonce(w, cipher, nonce) {
                Ok(()) => {},
                Err(e) => return Err(e),
            },
        }
        if let Some(mac) = &self.mac {
            mac.serialize(w);
        }
        assert(w@ =~= old(w)@ + packet_bytes(old(w)@, self@, cipher.key@, nonce@));
        proof {
            if old(w)@.len() == 0 {
                assert(old(w)@ + packet_bytes(old(w)@, self@, cipher.key@, nonce@) =~= packet_bytes(
                    Seq::empty(),
                    self@,
                    cipher.key@,
                    nonce@,
                ));
                if packet_readable(self@) {
                    lemma_constructed_round_trip(self@, cipher.key@, cipher.key@, nonce@);
                }
                if nts_readable(self@, nonce@) {
                    assert(after_header =~= header_bytes(self.header.fields(), 4));
                    lemma_nts_round_trip(self@, cipher.key@, nonce@);
                }
            }
        }
        Ok(())
    }

    /// Appends the packet, sealing its encrypted field with `cipher` and a
    /// fixed nonce.
    pub fn serialize(&self, w: &mut Vec<u8>, cipher: &Cipher) -> (r: Result<(), SerializeError>)
        ensures
            r is Ok <==> packet_encodable(self@),
            r is Ok ==> final(w)@ == old(w)@ + packet_bytes(
                old(w)@,
                self@,
                cipher.key@,
                fixed_nonce(),
            ),
            old(w)@.len() == 0 && packet_readable(self@) ==> r is Ok && packet_of(
                final(w)@,
                cipher.key@,
            ) == Ok::<_, PacketParsingError>(self@),
            old(w)@.len() == 0 && nts_readable(self@, fixed_nonce()) ==> r is Ok && packet_of(
                final(w)@,
                cipher.key@,
            ) == Ok::<_, PacketParsingError>(self@),
    {
        let nonce = crate::container::fixed_nonce_bytes();
        self.serialize_with_nonce(w, cipher, &nonce)
    }

    /// Appends the packet as `serialize` does, with the all-zero key.
    pub fn serialize_without_encryption(&self, w: &mut Vec<u8>) -> (r: Result<(), SerializeError>)
        ensures
            r is Ok <==> packet_encodable(self@),
            r is Ok ==> final(w)@ == old(w)@ + packet_bytes(
                old(w)@,
                self@,
                zero_key(),
                fixed_nonce(),
            ),
            old(w)@.len() == 0 && packet_readable(self@) ==> r is Ok && packet_of(
                final(w)@,
                zero_key(),
            ) == Ok::<_, PacketParsingError>(self@),
    {
        let cipher = Cipher::zero_key();
        self.serialize(w, &cipher)
    }

    /// The octets of the packet, as `serialize_without_encryption` writes
    /// them into an empty buffer.
    pub fn serialize_without_encryption_vec(&self) -> (r: Result<Vec<u8>, SerializeError>)
        ensures
            r is Ok <==> packet_encodable(self@),
            r matches Ok(b) ==> b@ == packet_bytes(Seq::empty(), self@, zero_key(), fixed_nonce()),
            packet_readable(self@) ==> (r matches Ok(b) && packet_of(b@, zero_key()) == Ok::<
                _,
                PacketParsingError,
            >(self@)),
    {
        let mut buffer: Vec<u8> = Vec::new();
        match self.serialize_without_encryption(&mut buffer) {
            Ok(()) => {
                assert(buffer@ =~= packet_bytes(Seq::empty(), self@, zero_key(), fixed_nonce()));
                Ok(buffer)
            },
            Err(e) => Err(e),
        }
    }
}

impl NtpPacket {
    /// An NTS request: a fresh client header with a random transmit
    /// timestamp, and the identifier and cookie as authenticated fields.
    pub fn nts_poll_message(identifier: &[u8], cookie: &[u8], poll_interval: PollInterval) -> (r: (
        NtpPacket,
        RequestIdentifier,
    ))
        ensures
            r.0@ == (PacketView {
                header: NtpHeader::V4(poll_header(poll_interval.log, r.1.expected_origin_timestamp)),
                efdata: EfView {
                    authenticated: nts_request_fields(identifier@, cookie@, 0),
                    encrypted: Seq::empty(),
                    untrusted: Seq::empty(),
                },
                mac: None,
            }),
    {
        NtpPacket::nts_poll_message_request_extra_cookies(identifier, cookie, 0, poll_interval)
    }

    /// An NTS request as `nts_poll_message` builds it, that asks for
    /// `request_extra_cookies` more cookies with as many placeholders.
    pub fn nts_poll_message_request_extra_cookies(
        identifier: &[u8],
        cookie: &[u8],
        request_extra_cookies: u8,
        poll_interval: PollInterval,
    ) -> (r: (NtpPacket, RequestIdentifier))
        ensures
            r.0@ == (PacketView {
                header: NtpHeader::V4(poll_header(poll_interval.log, r.1.expected_origin_timestamp)),
                efdata: EfView {
                    authenticated: nts_request_fields(
                        identifier@,
                        cookie@,
                        request_extra_cookies as nat,
                    ),
                    encrypted: Seq::empty(),
                    untrusted: Seq::empty(),
                },
                mac: None,
            }),
    {
        let (header, id) = NtpHeaderV3V4::poll_message(poll_interval);

        let mut authenticated: Vec<ExtensionField> = Vec::new();
        authenticated.push(ExtensionField::UniqueIdentifier(slice_to_vec(identifier)));
        authenticated.push(ExtensionField::NtsCookie(slice_to_vec(cookie)));
        let cookie_length = cookie.len() as u16;
        let mut i: u8 = 0;
        assert(fields_view(authenticated@) =~= nts_request_fields(identifier@, cookie@, 0));
        while i < request_extra_cookies
            invariant
                i <= request_extra_cookies,
                cookie_length == cookie@.len() as u16,
                fields_view(authenticated@) == nts_request_fields(identifier@, cookie@, i as nat),
            decreases request_extra_cookies - i,
        {
            let field = ExtensionField::NtsCookiePlaceholder { cookie_length };
            proof {
                crate::container::lemma_view_push(authenticated@, field);
            }
            authenticated.push(field);
            i = i + 1;
            assert(fields_view(authenticated@) =~= nts_request_fields(
                identifier@,
                cookie@,
                i as nat,
            ));
        }
        let efdata = ExtensionFieldData { authenticated, encrypted: Vec::new(), untrusted: Vec::new() };
        assert(efdata@.encrypted =~= Seq::empty());
        assert(efdata@.untrusted =~= Seq::empty());
        (NtpPacket { header: NtpHeader::V4(header), efdata, mac: None }, id)
    }

    /// A plain version 4 request with a random transmit timestamp.
    pub fn poll_message(poll_interval: PollInterval) -> (r: (NtpPacket, RequestIdentifier))
        ensures
            r.0@ == (PacketView {
                header: NtpHeader::V4(poll_header(poll_interval.log, r.1.expected_origin_timestamp)),
                efdata: no_fields(),
                mac: None,
            }),
    {
        let (header, id) = NtpHeaderV3V4::poll_message(poll_interval);
        (NtpPacket { header: NtpHeader::V4(header), efdata: NtpPacket::empty_fields(), mac: None }, id)
    }

    fn empty_fields() -> (r: ExtensionFieldData)
        ensures
            r@ == no_fields(),
    {
        let efdata = ExtensionFieldData::default();
        assert(efdata@.authenticated =~= Seq::empty());
        assert(efdata@.encrypted =~= Seq::empty());
        assert(efdata@.untrusted =~= Seq::empty());
        efdata
    }

    /// The server's answer to `input`, in the version of `input`.
    pub fn timestamp_response<C: NtpClock>(
        system: &SystemSnapshot,
        input: NtpPacket,
        recv_timestamp: NtpTimestamp,
        clock: &C,
    ) -> (r: NtpPacket)
        ensures
            r@ == (PacketView {
                header: with_fields(
                    input.header,
                    timestamp_response_header(
                        *system,
                        input.header.fields(),
                        recv_timestamp,
                        r.header.fields().transmit_timestamp,
                    ),
                ),
                efdata: no_fields(),
                mac: None,
            }),
    {
        let header = match input.header {
            NtpHeader::V3(header) => NtpHeader::V3(
                NtpHeaderV3V4::timestamp_response(system, header, recv_timestamp, clock),
            ),
            NtpHeader::V4(header) => NtpHeader::V4(
                NtpHeaderV3V4::timestamp_response(system, header, recv_timestamp, clock),
            ),
        };
        NtpPacket { header, efdata: NtpPacket::empty_fields(), mac: None }
    }

    /// The kiss-o'-death "RATE" in answer to `packet_from_client`.
    pub fn rate_limit_response(packet_from_client: NtpPacket) -> (r: NtpPacket)
        ensures
            r@ == (PacketView {
                header: with_fields(
                    packet_from_client.header,
                    kiss_header(packet_from_client.header.fields(), KISS_RATE),
                ),
                efdata: no_fields(),
                mac: None,
            }),
    {
        let header = match packet_from_client.header {
            NtpHeader::V3(header) => NtpHeader::V3(NtpHeaderV3V4::rate_limit_response(header)),
            NtpHeader::V4(header) => NtpHeader::V4(NtpHeaderV3V4::rate_limit_response(header)),
        };
        NtpPacket { header, efdata: NtpPacket::empty_fields(), mac: None }
    }

    /// The kiss-o'-death "DENY" in answer to `packet_from_client`.
    pub fn deny_response(packet_from_client: NtpPacket) -> (r: NtpPacket)
        ensures
            r@ == (PacketView {
                header: with_fields(
                    packet_from_client.header,
                    kiss_header(packet_from_client.header.fields(), KISS_DENY),
                ),
                efdata: no_fields(),
                mac: None,
            }),
    {
        let header = match packet_from_client.header {
            NtpHeader::V3(header) => NtpHeader::V3(NtpHeaderV3V4::deny_response(header)),
            NtpHeader::V4(header) => NtpHeader::V4(NtpHeaderV3V4::deny_response(header)),
        };
        NtpPacket { header, efdata: NtpPacket::empty_fields(), mac: None }
    }
}

impl NtpPacket {
    pub fn leap(&self) -> (r: NtpLeapIndicator)
        ensures
            r == self.header.fields().leap,
    {
        match self.header {
            NtpHeader::V3(header) => header.leap,
            NtpHeader::V4(header) => header.leap,
        }
    }

    pub fn mode(&self) -> (r: NtpAssociationMode)
        ensures
            r == self.header.fields().mode,
    {
        match self.header {
            NtpHeader::V3(header) => header.mode,
            NtpHeader::V4(header) => header.mode,
        }
    }

    pub fn stratum(&self) -> (r: u8)
        ensures
            r == self.header.fields().stratum,
    {
        match self.header {
            NtpHeader::V3(header) => header.stratum,
            NtpHeader::V4(header) => header.stratum,
        }
    }

    pub fn precision(&self) -> (r: i8)
        ensures
            r == self.header.fields().precision,
    {
        match self.header {
            NtpHeader::V3(header) => header.precision,
            NtpHeader::V4(header) => header.precision,
        }
    }

    pub fn root_delay(&self) -> (r: NtpDuration)
        ensures
            r == self.header.fields().root_delay,
    {
        match self.header {
            NtpHeader::V3(header) => header.root_delay,
            NtpHeader::V4(header) => header.root_delay,
        }
    }

    pub fn root_dispersion(&self) -> (r: NtpDuration)
        ensures
            r == self.header.fields().root_dispersion,
    {
        match self.header {
            NtpHeader::V3(header) => header.root_dispersion,
            NtpHeader::V4(header) => header.root_dispersion,
        }
    }

    pub fn receive_timestamp(&self) -> (r: NtpTimestamp)
        ensures
            r == self.header.fields().receive_timestamp,
    {
        match self.header {
            NtpHeader::V3(header) => header.receive_timestamp,
            NtpHeader::V4(header) => header.receive_timestamp,
        }
    }

    pub fn transmit_timestamp(&self) -> (r: NtpTimestamp)
        ensures
            r == self.header.fields().transmit_timestamp,
    {
        match self.header {
            NtpHeader::V3(header) => header.transmit_timestamp,
            NtpHeader::V4(header) => header.transmit_timestamp,
        }
    }

    pub fn reference_id(&self) -> (r: ReferenceId)
        ensures
            r == self.header.fields().reference_id,
    {
        match self.header {
            NtpHeader::V3(header) => header.reference_id,
            NtpHeader::V4(header) => header.reference_id,
        }
    }

    /// Whether this is a kiss-o'-death packet: stratum 0.
    pub fn is_kiss(&self) -> (r: bool)
        ensures
            r == (self.header.fields().stratum == 0),
    {
        self.stratum() == 0
    }

    pub fn is_kiss_deny(&self) -> (r: bool)
        ensures
            r == (self.header.fields().stratum == 0 && self.header.fields().reference_id.id
                == KISS_DENY),
    {
        self.is_kiss() && self.reference_id().is_deny()
    }

    pub fn is_kiss_rate(&self) -> (r: bool)
        ensures
            r == (self.header.fields().stratum == 0 && self.header.fields().reference_id.id
                == KISS_RATE),
    {
        self.is_kiss() && self.reference_id().is_rate()
    }

    pub fn is_kiss_rstr(&self) -> (r: bool)
        ensures
            r == (self.header.fields().stratum == 0 && self.header.fields().reference_id.id
                == KISS_RSTR),
    {
        self.is_kiss() && self.reference_id().is_rstr()
    }

    pub fn is_kiss_ntsn(&self) -> (r: bool)
        ensures
            r == (self.header.fields().stratum == 0 && self.header.fields().reference_id.id
                == KISS_NTSN),
    {
        self.is_kiss() && self.reference_id().is_ntsn()
    }

    /// Whether this packet answers the request that `identifier` stands for:
    /// its origin timestamp is the request's transmit timestamp.
    pub fn valid_server_response(&self, identifier: RequestIdentifier) -> (r: bool)
        ensures
            r == (self.header.fields().origin_timestamp == identifier.expected_origin_timestamp),
    {
        match self.header {
            NtpHeader::V3(header) => header.origin_timestamp == identifier.expected_origin_timestamp,
            NtpHeader::V4(header) => header.origin_timestamp == identifier.expected_origin_timestamp,
        }
    }
}

impl NtpPacket {
    /// The default packet, as a starting point for tests.
    pub fn test() -> (r: NtpPacket)
        ensures
            r@ == (PacketView {
                header: NtpHeader::V4(empty_header()),
                efdata: no_fields(),
                mac: None,
            }),
    {
        NtpPacket::default()
    }

    pub fn set_mode(&mut self, mode: NtpAssociationMode)
        ensures
            final(self).header == with_fields(
                old(self).header,
                (NtpHeaderV3V4 { mode: mode, ..old(self).header.fields() }),
            ),
            final(self).efdata == old(self).efdata,
            final(self).mac == old(self).mac,
    {
        self.header = match self.header {
            NtpHeader::V3(header) => NtpHeader::V3(NtpHeaderV3V4 { mode, ..header }),
            NtpHeader::V4(header) => NtpHeader::V4(NtpHeaderV3V4 { mode, ..header }),
        };
    }

    pub fn set_origin_timestamp(&mut self, origin_timestamp: NtpTimestamp)
        ensures
            final(self).header == with_fields(
                old(self).header,
                (NtpHeaderV3V4 { origin_timestamp: origin_timestamp, ..old(self).header.fields() }),
            ),
            final(self).efdata == old(self).efdata,
            final(self).mac == old(self).mac,
    {
        self.header = match self.header {
            NtpHeader::V3(header) => NtpHeader::V3(NtpHeaderV3V4 { origin_timestamp, ..header }),
            NtpHeader::V4(header) => NtpHeader::V4(NtpHeaderV3V4 { origin_timestamp, ..header }),
        };
    }

    pub fn set_transmit_timestamp(&mut self, transmit_timestamp: NtpTimestamp)
        ensures
            final(self).header == with_fields(
                old(self).header,
                (NtpHeaderV3V4 { transmit_timestamp: transmit_timestamp, ..old(self).header.fields() }),
            ),
            final(self).efdata == old(self).efdata,
            final(self).mac == old(self).mac,
    {
        self.header = match self.header {
            NtpHeader::V3(header) => NtpHeader::V3(NtpHeaderV3V4 { transmit_timestamp, ..header }),
            NtpHeader::V4(header) => NtpHeader::V4(NtpHeaderV3V4 { transmit_timestamp, ..header }),
        };
    }

    pub fn set_receive_timestamp(&mut self, receive_timestamp: NtpTimestamp)
        ensures
            final(self).header == with_fields(
                old(self).header,
                (NtpHeaderV3V4 { receive_timestamp: receive_timestamp, ..old(self).header.fields() }),
            ),
            final(self).efdata == old(self).efdata,
            final(self).mac == old(self).mac,
    {
        self.header = match self.header {
            NtpHeader::V3(header) => NtpHeader::V3(NtpHeaderV3V4 { receive_timestamp, ..header }),
            NtpHeader::V4(header) => NtpHeader::V4(NtpHeaderV3V4 { receive_timestamp, ..header }),
        };
    }

    pub fn set_precision(&mut self, precision: i8)
        ensures
            final(self).header == with_fields(
                old(self).header,
                (NtpHeaderV3V4 { precision: precision, ..old(self).header.fields() }),
            ),
            final(self).efdata == old(self).efdata,
            final(self).mac == old(self).mac,
    {
        self.header = match self.header {
            NtpHeader::V3(header) => NtpHeader::V3(NtpHeaderV3V4 { precision, ..header }),
            NtpHeader::V4(header) => NtpHeader::V4(NtpHeaderV3V4 { precision, ..header }),
        };
    }

    pub fn set_leap(&mut self, leap: NtpLeapIndicator)
        ensures
            final(self).header == with_fields(
                old(self).header,
                (NtpHeaderV3V4 { leap: leap, ..old(self).header.fields() }),
            ),
            final(self).efdata == old(self).efdata,
            final(self).mac == old(self).mac,
    {
        self.header = match self.header {
            NtpHeader::V3(header) => NtpHeader::V3(NtpHeaderV3V4 { leap, ..header }),
            NtpHeader::V4(header) => NtpHeader::V4(NtpHeaderV3V4 { leap, ..header }),
        };
    }

    pub fn set_stratum(&mut self, stratum: u8)
        ensures
            final(self).header == with_fields(
                old(self).header,
                (NtpHeaderV3V4 { stratum: stratum, ..old(self).header.fields() }),
            ),
            final(self).efdata == old(self).efdata,
            final(self).mac == old(self).mac,
    {
        self.header = match self.header {
            NtpHeader::V3(header) => NtpHeader::V3(NtpHeaderV3V4 { stratum, ..header }),
            NtpHeader::V4(header) => NtpHeader::V4(NtpHeaderV3V4 { stratum, ..header }),
        };
    }

    pub fn set_reference_id(&mut self, reference_id: ReferenceId)
        ensures
            final(self).header == with_fields(
                old(self).header,
                (NtpHeaderV3V4 { reference_id: reference_id, ..old(self).header.fields() }),
            ),
            final(self).efdata == old(self).efdata,
            final(self).mac == old(self).mac,
    {
        self.header = match self.header {
            NtpHeader::V3(header) => NtpHeader::V3(NtpHeaderV3V4 { reference_id, ..header }),
            NtpHeader::V4(header) => NtpHeader::V4(NtpHeaderV3V4 { reference_id, ..header }),
        };
    }

    pub fn set_root_delay(&mut self, root_delay: NtpDuration)
        ensures
            final(self).header == with_fields(
                old(self).header,
                (NtpHeaderV3V4 { root_delay: root_delay, ..old(self).header.fields() }),
            ),
            final(self).efdata == old(self).efdata,
            final(self).mac == old(self).mac,
    {
        self.header = match self.header {
            NtpHeader::V3(header) => NtpHeader::V3(NtpHeaderV3V4 { root_delay, ..header }),
            NtpHeader::V4(header) => NtpHeader::V4(NtpHeaderV3V4 { root_delay, ..header }),
        };
    }

    pub fn set_root_dispersion(&mut self, root_dispersion: NtpDuration)
        ensures
            final(self).header == with_fields(
                old(self).header,
                (NtpHeaderV3V4 { root_dispersion: root_dispersion, ..old(self).header.fields() }),
            ),
            final(self).efdata == old(self).efdata,
            final(self).mac == old(self).mac,
    {
        self.header = match self.header {
            NtpHeader::V3(header) => NtpHeader::V3(NtpHeaderV3V4 { root_dispersion, ..header }),
            NtpHeader::V4(header) => NtpHeader::V4(NtpHeaderV3V4 { root_dispersion, ..header }),
        };
    }
}

impl Default for NtpPacket {
    fn default() -> (r: NtpPacket)
        ensures
            r@ == (PacketView {
                header: NtpHeader::V4(empty_header()),
                efdata: no_fields(),
                mac: None,
            }),
    {
        NtpPacket {
            header: NtpHeader::V4(NtpHeaderV3V4::new()),
            efdata: NtpPacket::empty_fields(),
            mac: None,
        }
    }
}

} // verus!
