use ntp_packet::{
    div_ceil, next_multiple_of, Cipher, ExtensionField, ExtensionFieldData, Mac,
    NtpAssociationMode, NtpClock, NtpDuration, NtpHeader, NtpHeaderV3V4, NtpLeapIndicator,
    NtpPacket, NtpTimestamp, PacketParsingError, PollInterval, ReferenceId, SerializeError,
    SystemSnapshot,
};

const SERVER: &[u8; 48] = b"\x24\x02\x06\xe9\x00\x00\x02\x36\x00\x00\x03\xb7\xc0\x35\x67\x6c\xe5\xf6\x61\xfd\x6f\x16\x5f\x03\xe5\xf6\x63\xa8\x76\x19\xef\x40\xe5\xf6\x63\xa8\x79\x8c\x65\x81\xe5\xf6\x63\xa8\x79\x8e\xae\x2b";

fn with_version(version: u8) -> Vec<u8> {
    let mut v = SERVER.to_vec();
    v[0] = (v[0] & 0xC7) | (version << 3);
    v
}

fn frame(type_id: u16, body: &[u8]) -> Vec<u8> {
    let mut v = Vec::new();
    v.extend_from_slice(&type_id.to_be_bytes());
    v.extend_from_slice(&((4 + body.len()) as u16).to_be_bytes());
    v.extend_from_slice(body);
    while v.len() % 4 != 0 {
        v.push(0);
    }
    v
}

struct FixedClock(u64);

impl NtpClock for FixedClock {
    fn now(&self) -> NtpTimestamp {
        NtpTimestamp::from_fixed_int(self.0)
    }
}

#[test]
fn mac_trailer_bounds() {
    for len in 0..40usize {
        let mut data = with_version(3);
        data.extend((0..len).map(|i| i as u8));
        let r = NtpPacket::deserialize_without_decryption(&data);
        if len == 0 {
            assert_eq!(r.unwrap().mac, None);
        } else if len < 4 || len >= 28 {
            assert_eq!(r.unwrap_err(), PacketParsingError::IncorrectLength);
        } else {
            let p = r.unwrap();
            let mac = p.mac.clone().unwrap();
            assert_eq!(mac.keyid, 0x0001_0203);
            assert_eq!(mac.mac, (4..len).map(|i| i as u8).collect::<Vec<u8>>());
            assert_eq!(p.serialize_without_encryption_vec().unwrap(), data);
        }
    }
}

#[test]
fn short_input_is_incorrect_length() {
    assert_eq!(
        NtpPacket::deserialize_without_decryption(&[]).unwrap_err(),
        PacketParsingError::IncorrectLength
    );
    assert_eq!(
        NtpPacket::deserialize_without_decryption(&SERVER[..47]).unwrap_err(),
        PacketParsingError::IncorrectLength
    );
}

#[test]
fn invalid_version_names_the_version() {
    for version in [0u8, 1, 2, 5, 6, 7] {
        assert_eq!(
            NtpPacket::deserialize_without_decryption(&with_version(version)).unwrap_err(),
            PacketParsingError::InvalidVersion(version)
        );
    }
}

#[test]
fn invalid_version_octets() {
    for octet in [0x04u8, 0x0B, 0x14, 0x2B, 0x34, 0x3B] {
        let mut data = SERVER.to_vec();
        data[0] = octet;
        assert!(matches!(
            NtpPacket::deserialize_without_decryption(&data),
            Err(PacketParsingError::InvalidVersion(_))
        ));
    }
}

#[test]
fn unknown_field_and_mac_round_trip() {
    let body: Vec<u8> = (0..25).collect();
    let mut data = with_version(4);
    data.extend(frame(0x1234, &body));
    data.extend([0, 0, 0, 7, 9, 9, 9, 9]);
    let p = NtpPacket::deserialize_without_decryption(&data).unwrap();
    assert_eq!(
        p.efdata.untrusted,
        vec![ExtensionField::Unknown { type_id: 0x1234, data: body }]
    );
    assert!(p.efdata.authenticated.is_empty());
    assert!(p.efdata.encrypted.is_empty());
    assert_eq!(p.mac, Some(Mac { keyid: 7, mac: vec![9, 9, 9, 9] }));
    assert_eq!(p.serialize_without_encryption_vec().unwrap(), data);
}

#[test]
fn constructed_packet_reads_back() {
    let mut p = NtpPacket::test();
    p.set_stratum(1);
    p.set_transmit_timestamp(NtpTimestamp::from_fixed_int(0x0102_0304_0506_0708));
    p.efdata.untrusted = vec![ExtensionField::Unknown { type_id: 0x2000, data: vec![9u8; 30] }];
    p.mac = Some(Mac { keyid: 5, mac: vec![1, 2, 3, 4, 5, 6, 7, 8] });
    let w = p.serialize_without_encryption_vec().unwrap();
    assert_eq!(w.len(), 48 + 36 + 12);
    assert_eq!(&w[48..52], &[0x20, 0x00, 0x00, 34]);
    assert_eq!(&w[82..84], &[0, 0]);
    assert_eq!(&w[84..88], &[0, 0, 0, 5]);
    assert_eq!(NtpPacket::deserialize_without_decryption(&w).unwrap(), p);
}

#[test]
fn nonzero_padding_is_rejected() {
    let body: Vec<u8> = (0..25).collect();
    let mut data = with_version(4);
    data.extend(frame(0x1234, &body));
    let last = data.len() - 1;
    data[last] = 1;
    assert_eq!(
        NtpPacket::deserialize_without_decryption(&data).unwrap_err(),
        PacketParsingError::IncorrectLength
    );
}

#[test]
fn short_field_length_is_rejected() {
    let mut data = with_version(4);
    let mut f = frame(0x1234, &[0u8; 28]);
    f[2] = 0;
    f[3] = 12;
    data.extend(f);
    assert_eq!(
        NtpPacket::deserialize_without_decryption(&data).unwrap_err(),
        PacketParsingError::IncorrectLength
    );
}

#[test]
fn cookie_placeholder_must_be_zero() {
    let mut data = with_version(4);
    data.extend(frame(0x0304, &[0u8; 28]));
    let p = NtpPacket::deserialize_without_decryption(&data).unwrap();
    assert_eq!(
        p.efdata.untrusted,
        vec![ExtensionField::NtsCookiePlaceholder { cookie_length: 28 }]
    );
    assert_eq!(p.serialize_without_encryption_vec().unwrap(), data);

    let mut body = [0u8; 28];
    body[5] = 1;
    let mut data = with_version(4);
    data.extend(frame(0x0304, &body));
    assert_eq!(
        NtpPacket::deserialize_without_decryption(&data).unwrap_err(),
        PacketParsingError::IncorrectLength
    );
}

#[test]
fn unique_identifier_needs_32_octets() {
    let mut data = with_version(4);
    data.extend(frame(0x0104, &[1u8; 24]));
    assert_eq!(
        NtpPacket::deserialize_without_decryption(&data).unwrap_err(),
        PacketParsingError::IncorrectLength
    );
    let mut data = with_version(4);
    data.extend(frame(0x0104, &[1u8; 32]));
    let p = NtpPacket::deserialize_without_decryption(&data).unwrap();
    assert_eq!(
        p.efdata.untrusted,
        vec![ExtensionField::UniqueIdentifier(vec![1u8; 32])]
    );
}

fn nts_packet() -> NtpPacket {
    let mut p = NtpPacket::deserialize_without_decryption(&with_version(4)).unwrap();
    p.efdata = ExtensionFieldData {
        authenticated: vec![ExtensionField::UniqueIdentifier(vec![3u8; 32])],
        encrypted: vec![ExtensionField::NtsCookie(vec![0xAB; 36])],
        untrusted: vec![ExtensionField::Unknown { type_id: 0x5555, data: vec![4u8; 28] }],
    };
    p
}

#[test]
fn encrypted_fields_round_trip() {
    let cipher = Cipher::new([7u8; 32]);
    let p = nts_packet();
    let mut w = Vec::new();
    p.serialize(&mut w, &cipher).unwrap();

    // The cookie travels sealed: its octets do not stand in the packet.
    let plain = [0xABu8; 36];
    assert!(!w.windows(plain.len()).any(|win| win == plain));

    let q = NtpPacket::deserialize(&w, &cipher).unwrap();
    assert_eq!(q, p);

    let mut again = Vec::new();
    q.serialize(&mut again, &cipher).unwrap();
    assert_eq!(again, w);
}

#[test]
fn wrong_key_fails_to_decrypt() {
    let p = nts_packet();
    let mut w = Vec::new();
    p.serialize(&mut w, &Cipher::new([7u8; 32])).unwrap();
    assert_eq!(
        NtpPacket::deserialize(&w, &Cipher::new([8u8; 32])).unwrap_err(),
        PacketParsingError::DecryptError
    );
    assert_eq!(
        NtpPacket::deserialize_without_decryption(&w).unwrap_err(),
        PacketParsingError::DecryptError
    );
}

#[test]
fn tampered_associated_data_fails_to_decrypt() {
    let cipher = Cipher::new([7u8; 32]);
    let mut w = Vec::new();
    nts_packet().serialize(&mut w, &cipher).unwrap();
    w[1] ^= 1;
    assert_eq!(
        NtpPacket::deserialize(&w, &cipher).unwrap_err(),
        PacketParsingError::DecryptError
    );
}

#[test]
fn second_encrypted_field_is_malformed() {
    let cipher = Cipher::new([7u8; 32]);
    let mut p = NtpPacket::deserialize_without_decryption(&with_version(4)).unwrap();
    p.efdata.encrypted = vec![ExtensionField::NtsCookie(vec![1u8; 20])];
    let mut w = Vec::new();
    p.serialize(&mut w, &cipher).unwrap();
    assert_eq!(NtpPacket::deserialize(&w, &cipher).unwrap(), p);

    let container = w[48..].to_vec();
    w.extend(container);
    assert_eq!(
        NtpPacket::deserialize(&w, &cipher).unwrap_err(),
        PacketParsingError::MalformedNtsExtensionFields
    );
}

#[test]
fn nested_encrypted_field_is_malformed() {
    let cipher = Cipher::new([7u8; 32]);
    let mut p = NtpPacket::deserialize_without_decryption(&with_version(4)).unwrap();
    p.efdata.encrypted = vec![ExtensionField::Unknown { type_id: 0x0404, data: vec![0u8; 28] }];
    let mut w = Vec::new();
    p.serialize(&mut w, &cipher).unwrap();
    assert_eq!(
        NtpPacket::deserialize(&w, &cipher).unwrap_err(),
        PacketParsingError::MalformedNtsExtensionFields
    );
}

#[test]
fn short_nonce_is_malformed() {
    let mut body = Vec::new();
    body.extend(12u16.to_be_bytes());
    body.extend(16u16.to_be_bytes());
    body.extend([5u8; 12]);
    body.extend([6u8; 16]);
    let mut data = with_version(4);
    data.extend(frame(0x0404, &body));
    assert_eq!(
        NtpPacket::deserialize_without_decryption(&data).unwrap_err(),
        PacketParsingError::MalformedNonce
    );
}

#[test]
fn short_nonce_with_nonzero_padding_is_malformed() {
    let mut body = Vec::new();
    body.extend(15u16.to_be_bytes());
    body.extend(16u16.to_be_bytes());
    body.extend([5u8; 15]);
    body.push(1);
    body.extend([6u8; 16]);
    assert_eq!(body.len(), 36);
    let mut data = with_version(4);
    data.extend(frame(0x0404, &body));
    assert_eq!(
        NtpPacket::deserialize_without_decryption(&data).unwrap_err(),
        PacketParsingError::MalformedNonce
    );
}

#[test]
fn encrypted_length_mismatch_is_incorrect() {
    let mut body = Vec::new();
    body.extend(16u16.to_be_bytes());
    body.extend(40u16.to_be_bytes());
    body.extend([5u8; 16]);
    body.extend([6u8; 16]);
    let mut data = with_version(4);
    data.extend(frame(0x0404, &body));
    assert_eq!(
        NtpPacket::deserialize_without_decryption(&data).unwrap_err(),
        PacketParsingError::IncorrectLength
    );
}

#[test]
fn nts_poll_message_round_trip() {
    let cipher = Cipher::new([1u8; 32]);
    let identifier: Vec<u8> = (0..32).collect();
    let cookie = vec![0x42u8; 40];
    let (p, id) = NtpPacket::nts_poll_message_request_extra_cookies(
        &identifier,
        &cookie,
        2,
        PollInterval::default(),
    );
    assert_eq!(
        p.efdata.authenticated,
        vec![
            ExtensionField::UniqueIdentifier(identifier.clone()),
            ExtensionField::NtsCookie(cookie.clone()),
            ExtensionField::NtsCookiePlaceholder { cookie_length: 40 },
            ExtensionField::NtsCookiePlaceholder { cookie_length: 40 },
        ]
    );
    assert_eq!(p.transmit_timestamp(), id.expected_origin_timestamp);
    assert_eq!(p.mode(), NtpAssociationMode::Client);
    match p.header {
        NtpHeader::V4(h) => assert_eq!(h.poll, 4),
        NtpHeader::V3(_) => panic!("a poll is version 4"),
    }

    let mut w = Vec::new();
    p.serialize(&mut w, &cipher).unwrap();
    let q = NtpPacket::deserialize(&w, &cipher).unwrap();
    assert_eq!(q, p);

    let (plain, _) = NtpPacket::nts_poll_message(&identifier, &cookie, PollInterval::default());
    assert_eq!(plain.efdata.authenticated.len(), 2);
}

#[test]
fn oversized_cookie_cannot_be_written() {
    let cookie = vec![0u8; 70_000];
    let (p, _) = NtpPacket::nts_poll_message(&[0u8; 32], &cookie, PollInterval::default());
    let mut w = Vec::new();
    assert_eq!(
        p.serialize(&mut w, &Cipher::new([0u8; 32])),
        Err(SerializeError::FieldTooLong)
    );
}

#[test]
fn poll_messages_differ() {
    let (a, ia) = NtpPacket::poll_message(PollInterval::from_log(6));
    let (b, ib) = NtpPacket::poll_message(PollInterval::from_log(6));
    assert_ne!(ia, ib);
    assert_ne!(a.transmit_timestamp(), b.transmit_timestamp());
}

#[test]
fn timestamp_response_mirrors_request() {
    let (request, id) = NtpPacket::poll_message(PollInterval::from_log(7));
    let system = SystemSnapshot {
        stratum: 3,
        reference_id: ReferenceId::from_int(0x0a0b0c0d),
        precision: -20,
        root_delay: NtpDuration::from_fixed_int(5 << 16),
        root_dispersion: NtpDuration::from_fixed_int(6 << 16),
    };
    let recv = NtpTimestamp::from_fixed_int(1234);
    let r = NtpPacket::timestamp_response(&system, request.clone(), recv, &FixedClock(99));
    assert!(r.valid_server_response(id));
    assert_eq!(r.mode(), NtpAssociationMode::Server);
    assert_eq!(r.stratum(), 3);
    assert_eq!(r.precision(), -20);
    assert_eq!(r.reference_id(), ReferenceId::from_int(0x0a0b0c0d));
    assert_eq!(r.receive_timestamp(), recv);
    assert_eq!(r.transmit_timestamp(), NtpTimestamp::from_fixed_int(99));
    assert_eq!(r.root_delay(), NtpDuration::from_fixed_int(5 << 16));
    assert_eq!(r.root_dispersion(), NtpDuration::from_fixed_int(6 << 16));
    assert_eq!(r.leap(), NtpLeapIndicator::NoWarning);
    assert!(!r.is_kiss());

    let (_, other) = NtpPacket::poll_message(PollInterval::from_log(7));
    assert!(!r.valid_server_response(other));
}

#[test]
fn kiss_responses() {
    let (request, id) = NtpPacket::poll_message(PollInterval::default());
    let rate = NtpPacket::rate_limit_response(request.clone());
    assert!(rate.is_kiss() && rate.is_kiss_rate() && !rate.is_kiss_deny());
    assert!(rate.valid_server_response(id));
    let deny = NtpPacket::deny_response(request);
    assert!(deny.is_kiss() && deny.is_kiss_deny() && !deny.is_kiss_rate());
    assert!(!deny.is_kiss_rstr() && !deny.is_kiss_ntsn());

    let mut p = NtpPacket::test();
    p.set_stratum(0);
    p.set_reference_id(ReferenceId::from_int(u32::from_be_bytes(*b"RSTR")));
    assert!(p.is_kiss_rstr());
    p.set_reference_id(ReferenceId::from_int(u32::from_be_bytes(*b"NTSN")));
    assert!(p.is_kiss_ntsn());
    p.set_stratum(1);
    assert!(!p.is_kiss_ntsn());
}

#[test]
fn setters_change_one_field() {
    let mut p = NtpPacket::test();
    p.set_precision(-5);
    p.set_origin_timestamp(NtpTimestamp::from_fixed_int(11));
    p.set_receive_timestamp(NtpTimestamp::from_fixed_int(12));
    p.set_transmit_timestamp(NtpTimestamp::from_fixed_int(13));
    p.set_root_delay(NtpDuration::from_fixed_int(2 << 16));
    p.set_root_dispersion(NtpDuration::from_fixed_int(3 << 16));
    p.set_leap(NtpLeapIndicator::Leap59);
    let w = p.serialize_without_encryption_vec().unwrap();
    assert_eq!(w[0], 0b10_100_011);
    assert_eq!(w[3], (-5i8) as u8);
    assert_eq!(&w[4..8], &[0, 0, 0, 2]);
    assert_eq!(&w[8..12], &[0, 0, 0, 3]);
    assert_eq!(&w[24..32], &11u64.to_be_bytes());
    assert_eq!(&w[32..40], &12u64.to_be_bytes());
    assert_eq!(&w[40..48], &13u64.to_be_bytes());
    assert_eq!(NtpPacket::deserialize_without_decryption(&w).unwrap(), p);
}

#[test]
fn empty_header_encoding() {
    let mut w = Vec::new();
    NtpHeaderV3V4::new().serialize(&mut w, 4);
    let mut expected = vec![0u8; 48];
    expected[0] = 0x23;
    assert_eq!(w, expected);
}

#[test]
fn leap_synchronisation() {
    assert!(NtpLeapIndicator::NoWarning.is_synchronized());
    assert!(NtpLeapIndicator::Leap61.is_synchronized());
    assert!(NtpLeapIndicator::Leap59.is_synchronized());
    assert!(!NtpLeapIndicator::Unknown.is_synchronized());
}

#[test]
fn short_duration_encoding() {
    assert_eq!(NtpDuration::from_fixed_int(1023 << 16).to_bits_short(), 1023);
    assert_eq!(NtpDuration::from_fixed_int((1023 << 16) + 0xFFFF).to_bits_short(), 1023);
    assert_eq!(NtpDuration::from_fixed_int(-1).to_bits_short(), 0);
    assert_eq!(NtpDuration::from_fixed_int(1 << 50).to_bits_short(), 0xFFFF_FFFF);
    assert_eq!(NtpDuration::from_bits_short(893).to_fixed_int(), 893 << 16);
}

#[test]
fn rounding_helpers() {
    assert_eq!(next_multiple_of(0, 4), 0);
    assert_eq!(next_multiple_of(13, 4), 16);
    assert_eq!(next_multiple_of(16, 4), 16);
    assert_eq!(next_multiple_of(17, 5), 20);
    assert_eq!(div_ceil(0, 4), 0);
    assert_eq!(div_ceil(13, 4), 4);
    assert_eq!(div_ceil(16, 4), 4);
    assert_eq!(div_ceil(7, 1), 7);
}

#[test]
fn error_messages() {
    for e in [
        PacketParsingError::InvalidVersion(5),
        PacketParsingError::IncorrectLength,
        PacketParsingError::MalformedNtsExtensionFields,
        PacketParsingError::MalformedNonce,
        PacketParsingError::DecryptError,
    ] {
        assert!(!e.message().is_empty());
    }
    assert_eq!(PacketParsingError::IncorrectLength.message(), "Incorrect packet length");
    assert_eq!(PacketParsingError::InvalidVersion(5).message(), "Invalid version 5");
    assert_eq!(PacketParsingError::InvalidVersion(42).message(), "Invalid version 42");
    assert_eq!(PacketParsingError::InvalidVersion(123).message(), "Invalid version 123");
    assert_eq!(
        PacketParsingError::MalformedNtsExtensionFields.message(),
        "Malformed nts extension fields"
    );
    assert_eq!(
        PacketParsingError::MalformedNonce.message(),
        "Malformed nonce (likely invalid length)"
    );
    assert_eq!(
        PacketParsingError::DecryptError.message(),
        "Failed to decrypt NTS extension fields"
    );
}
