//! Wire codec for NTP packets (versions 3 and 4) with the NTS
//! extension-field suite: parsing a datagram into header, extension fields
//! partitioned by trust, and legacy MAC; writing a packet back; decrypting
//! and sealing the NTS encrypted field with AES-128-SIV.

pub mod bytes;
pub mod container;
pub mod error;
pub mod field;
pub mod header;
pub mod packet;
pub mod round_trip;
pub mod siv;
pub mod values;

pub use bytes::{div_ceil, next_multiple_of};
pub use container::{ExtensionFieldData, UnparsedEncryptedField};
pub use error::{PacketParsingError, SerializeError};
pub use field::{ExtensionField, ExtensionFieldTypeId, UnparsedExtensionField};
pub use header::{
    NtpAssociationMode, NtpHeader, NtpHeaderV3V4, NtpLeapIndicator, RequestIdentifier,
};
pub use packet::{Mac, NtpPacket};
pub use siv::Cipher;
pub use values::{
    NtpClock, NtpDuration, NtpTimestamp, PollInterval, ReferenceId, SystemSnapshot,
};
