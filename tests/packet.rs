use ntp_packet::{
    NtpAssociationMode, NtpDuration, NtpHeader, NtpHeaderV3V4, NtpLeapIndicator, NtpPacket,
    NtpTimestamp, ReferenceId,
};

#[test]
fn roundtrip_bitrep_leap() {
    for i in 0..4u8 {
        let a = NtpLeapIndicator::from_bits(i);
        let b = a.to_bits();
        let c = NtpLeapIndicator::from_bits(b);
        assert_eq!(i, b);
        assert_eq!(a, c);
    }
}

#[test]
fn roundtrip_bitrep_mode() {
    for i in 0..8u8 {
        let a = NtpAssociationMode::from_bits(i);
        let b = a.to_bits();
        let c = NtpAssociationMode::from_bits(b);
        assert_eq!(i, b);
        assert_eq!(a, c);
    }
}

#[test]
fn test_captured_client() {
    let packet = b"\x23\x02\x06\xe8\x00\x00\x03\xff\x00\x00\x03\x7d\x5e\xc6\x9f\x0f\xe5\xf6\x62\x98\x7b\x61\xb9\xaf\xe5\xf6\x63\x66\x7b\x64\x99\x5d\xe5\xf6\x63\x66\x81\x40\x55\x90\xe5\xf6\x63\xa8\x76\x1d\xde\x48";
    let reference = NtpPacket {
        header: NtpHeader::V4(NtpHeaderV3V4 {
            leap: NtpLeapIndicator::NoWarning,
            mode: NtpAssociationMode::Client,
            stratum: 2,
            poll: 6,
            precision: -24,
            root_delay: NtpDuration::from_fixed_int(1023 << 16),
            root_dispersion: NtpDuration::from_fixed_int(893 << 16),
            reference_id: ReferenceId::from_int(0x5ec69f0f),
            reference_timestamp: NtpTimestamp::from_fixed_int(0xe5f662987b61b9af),
            origin_timestamp: NtpTimestamp::from_fixed_int(0xe5f663667b64995d),
            receive_timestamp: NtpTimestamp::from_fixed_int(0xe5f6636681405590),
            transmit_timestamp: NtpTimestamp::from_fixed_int(0xe5f663a8761dde48),
        }),
        efdata: Default::default(),
        mac: None,
    };

    assert_eq!(
        reference,
        NtpPacket::deserialize_without_decryption(packet).unwrap()
    );
    match reference.serialize_without_encryption_vec() {
        Ok(buf) => assert_eq!(packet[..], buf[..]),
        Err(e) => panic!("{:?}", e),
    }

    let packet = b"\x1B\x02\x06\xe8\x00\x00\x03\xff\x00\x00\x03\x7d\x5e\xc6\x9f\x0f\xe5\xf6\x62\x98\x7b\x61\xb9\xaf\xe5\xf6\x63\x66\x7b\x64\x99\x5d\xe5\xf6\x63\x66\x81\x40\x55\x90\xe5\xf6\x63\xa8\x76\x1d\xde\x48";
    let reference = NtpPacket {
        header: NtpHeader::V3(NtpHeaderV3V4 {
            leap: NtpLeapIndicator::NoWarning,
            mode: NtpAssociationMode::Client,
            stratum: 2,
            poll: 6,
            precision: -24,
            root_delay: NtpDuration::from_fixed_int(1023 << 16),
            root_dispersion: NtpDuration::from_fixed_int(893 << 16),
            reference_id: ReferenceId::from_int(0x5ec69f0f),
            reference_timestamp: NtpTimestamp::from_fixed_int(0xe5f662987b61b9af),
            origin_timestamp: NtpTimestamp::from_fixed_int(0xe5f663667b64995d),
            receive_timestamp: NtpTimestamp::from_fixed_int(0xe5f6636681405590),
            transmit_timestamp: NtpTimestamp::from_fixed_int(0xe5f663a8761dde48),
        }),
        efdata: Default::default(),
        mac: None,
    };

    assert_eq!(
        reference,
        NtpPacket::deserialize_without_decryption(packet).unwrap()
    );
    match reference.serialize_without_encryption_vec() {
        Ok(buf) => assert_eq!(packet[..], buf[..]),
        Err(e) => panic!("{:?}", e),
    }
}

#[test]
fn test_captured_server() {
    let packet = b"\x24\x02\x06\xe9\x00\x00\x02\x36\x00\x00\x03\xb7\xc0\x35\x67\x6c\xe5\xf6\x61\xfd\x6f\x16\x5f\x03\xe5\xf6\x63\xa8\x76\x19\xef\x40\xe5\xf6\x63\xa8\x79\x8c\x65\x81\xe5\xf6\x63\xa8\x79\x8e\xae\x2b";
    let reference = NtpPacket {
        header: NtpHeader::V4(NtpHeaderV3V4 {
            leap: NtpLeapIndicator::NoWarning,
            mode: NtpAssociationMode::Server,
            stratum: 2,
            poll: 6,
            precision: -23,
            root_delay: NtpDuration::from_fixed_int(566 << 16),
            root_dispersion: NtpDuration::from_fixed_int(951 << 16),
            reference_id: ReferenceId::from_int(0xc035676c),
            reference_timestamp: NtpTimestamp::from_fixed_int(0xe5f661fd6f165f03),
            origin_timestamp: NtpTimestamp::from_fixed_int(0xe5f663a87619ef40),
            receive_timestamp: NtpTimestamp::from_fixed_int(0xe5f663a8798c6581),
            transmit_timestamp: NtpTimestamp::from_fixed_int(0xe5f663a8798eae2b),
        }),
        efdata: Default::default(),
        mac: None,
    };

    assert_eq!(
        reference,
        NtpPacket::deserialize_without_decryption(packet).unwrap()
    );
    match reference.serialize_without_encryption_vec() {
        Ok(buf) => assert_eq!(packet[..], buf[..]),
        Err(e) => panic!("{:?}", e),
    }
}

#[test]
fn test_version() {
    let packet = b"\x04\x02\x06\xe9\x00\x00\x02\x36\x00\x00\x03\xb7\xc0\x35\x67\x6c\xe5\xf6\x61\xfd\x6f\x16\x5f\x03\xe5\xf6\x63\xa8\x76\x19\xef\x40\xe5\xf6\x63\xa8\x79\x8c\x65\x81\xe5\xf6\x63\xa8\x79\x8e\xae\x2b";
    assert!(NtpPacket::deserialize_without_decryption(packet).is_err());
    let packet = b"\x0B\x02\x06\xe9\x00\x00\x02\x36\x00\x00\x03\xb7\xc0\x35\x67\x6c\xe5\xf6\x61\xfd\x6f\x16\x5f\x03\xe5\xf6\x63\xa8\x76\x19\xef\x40\xe5\xf6\x63\xa8\x79\x8c\x65\x81\xe5\xf6\x63\xa8\x79\x8e\xae\x2b";
    assert!(NtpPacket::deserialize_without_decryption(packet).is_err());
    let packet = b"\x14\x02\x06\xe9\x00\x00\x02\x36\x00\x00\x03\xb7\xc0\x35\x67\x6c\xe5\xf6\x61\xfd\x6f\x16\x5f\x03\xe5\xf6\x63\xa8\x76\x19\xef\x40\xe5\xf6\x63\xa8\x79\x8c\x65\x81\xe5\xf6\x63\xa8\x79\x8e\xae\x2b";
    assert!(NtpPacket::deserialize_without_decryption(packet).is_err());
    let packet = b"\x2B\x02\x06\xe9\x00\x00\x02\x36\x00\x00\x03\xb7\xc0\x35\x67\x6c\xe5\xf6\x61\xfd\x6f\x16\x5f\x03\xe5\xf6\x63\xa8\x76\x19\xef\x40\xe5\xf6\x63\xa8\x79\x8c\x65\x81\xe5\xf6\x63\xa8\x79\x8e\xae\x2b";
    assert!(NtpPacket::deserialize_without_decryption(packet).is_err());
    let packet = b"\x34\x02\x06\xe9\x00\x00\x02\x36\x00\x00\x03\xb7\xc0\x35\x67\x6c\xe5\xf6\x61\xfd\x6f\x16\x5f\x03\xe5\xf6\x63\xa8\x76\x19\xef\x40\xe5\xf6\x63\xa8\x79\x8c\x65\x81\xe5\xf6\x63\xa8\x79\x8e\xae\x2b";
    assert!(NtpPacket::deserialize_without_decryption(packet).is_err());
    let packet = b"\x3B\x02\x06\xe9\x00\x00\x02\x36\x00\x00\x03\xb7\xc0\x35\x67\x6c\xe5\xf6\x61\xfd\x6f\x16\x5f\x03\xe5\xf6\x63\xa8\x76\x19\xef\x40\xe5\xf6\x63\xa8\x79\x8c\x65\x81\xe5\xf6\x63\xa8\x79\x8e\xae\x2b";
    assert!(NtpPacket::deserialize_without_decryption(packet).is_err());
}

#[test]
fn test_packed_flags() {
    let base = b"\x24\x02\x06\xe9\x00\x00\x02\x36\x00\x00\x03\xb7\xc0\x35\x67\x6c\xe5\xf6\x61\xfd\x6f\x16\x5f\x03\xe5\xf6\x63\xa8\x76\x19\xef\x40\xe5\xf6\x63\xa8\x79\x8c\x65\x81\xe5\xf6\x63\xa8\x79\x8e\xae\x2b".to_owned();
    let base_structured = NtpPacket::deserialize_without_decryption(&base).unwrap();

    for leap_type in 0..3 {
        for mode in 0..8 {
            let mut header = base_structured.clone();
            header.set_leap(NtpLeapIndicator::from_bits(leap_type));
            header.set_mode(NtpAssociationMode::from_bits(mode));

            let data = header.serialize_without_encryption_vec().unwrap();
            let copy = NtpPacket::deserialize_without_decryption(&data).unwrap();
            assert_eq!(header, copy);
        }
    }

    for i in 0..=0xFF {
        let mut packet = base;
        packet[0] = i;

        if let Ok(a) = NtpPacket::deserialize_without_decryption(&packet) {
            let b = a.serialize_without_encryption_vec().unwrap();
            assert_eq!(packet[..], b[..]);
        }
    }
}
