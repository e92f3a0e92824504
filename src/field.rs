//! One extension field: its frame on the wire (type id, length, body, zero
//! padding to a 4-octet boundary) and the variants that NTS gives meaning to.

use crate::bytes::{
    all_zero, be16, is_all_zero, next_multiple_of, pad4, put_bytes, put_u16, put_zeros, read_u16,
    u16_bytes, zeros,
};
use crate::error::{PacketParsingError, SerializeError};
use vstd::prelude::*;
use vstd::slice::{slice_subrange, slice_to_vec};

verus! {

/// The type id of a unique identifier field.
pub const UNIQUE_IDENTIFIER_ID: u16 = 0x0104;

/// The type id of an NTS cookie field.
pub const NTS_COOKIE_ID: u16 = 0x0204;

/// The type id of an NTS cookie placeholder field.
pub const NTS_COOKIE_PLACEHOLDER_ID: u16 = 0x0304;

/// The type id of the NTS encrypted-and-authenticated field.
pub const NTS_ENCRYPTED_ID: u16 = 0x0404;

/// The least length of a frame, its 4-octet header included.
pub const MINIMUM_FIELD_SIZE: usize = 16;

/// The least length of a unique identifier.
pub const MINIMUM_UNIQUE_IDENTIFIER: usize = 32;

/// An extension field as the packet holds it.
#[derive(Debug, Clone, PartialEq, Eq)]
pub enum ExtensionField {
    UniqueIdentifier(Vec<u8>),
    NtsCookie(Vec<u8>),
    NtsCookiePlaceholder { cookie_length: u16 },
    Unknown { type_id: u16, data: Vec<u8> },
}

/// The value of an extension field.
pub enum FieldView {
    UniqueIdentifier(Seq<u8>),
    NtsCookie(Seq<u8>),
    NtsCookiePlaceholder(u16),
    Unknown(u16, Seq<u8>),
}

impl View for ExtensionField {
    type V = FieldView;

    open spec fn view(&self) -> FieldView {
        match self {
            ExtensionField::UniqueIdentifier(b) => FieldView::UniqueIdentifier(b@),
            ExtensionField::NtsCookie(b) => FieldView::NtsCookie(b@),
            ExtensionField::NtsCookiePlaceholder { cookie_length } => FieldView::NtsCookiePlaceholder(
                *cookie_length,
            ),
            ExtensionField::Unknown { type_id, data } => FieldView::Unknown(*type_id, data@),
        }
    }
}

/// The values of a sequence of fields.
pub open spec fn fields_view(fields: Seq<ExtensionField>) -> Seq<FieldView> {
    fields.map_values(|f: ExtensionField| f@)
}

/// The type id that a field is written with.
pub open spec fn field_type(f: FieldView) -> u16 {
    match f {
        FieldView::UniqueIdentifier(_) => UNIQUE_IDENTIFIER_ID,
        FieldView::NtsCookie(_) => NTS_COOKIE_ID,
        FieldView::NtsCookiePlaceholder(_) => NTS_COOKIE_PLACEHOLDER_ID,
        FieldView::Unknown(t, _) => t,
    }
}

/// The body that a field is written with.
pub open spec fn field_body(f: FieldView) -> Seq<u8> {
    match f {
        FieldView::UniqueIdentifier(b) => b,
        FieldView::NtsCookie(b) => b,
        FieldView::NtsCookiePlaceholder(n) => zeros(n as int),
        FieldView::Unknown(_, b) => b,
    }
}

/// A frame: type id, header-inclusive length, body, and zero padding to a
/// 4-octet boundary.
pub open spec fn frame_bytes(type_id: u16, body: Seq<u8>) -> Seq<u8> {
    u16_bytes(type_id) + u16_bytes((4 + body.len()) as u16) + body + zeros(
        pad4(body.len() as int) - body.len(),
    )
}

/// Whether the length of a field's frame fits its 16-bit length field.
pub open spec fn field_encodable(f: FieldView) -> bool {
    field_body(f).len() + 4 <= 0xFFFF
}

/// The octets of a field on the wire.
pub open spec fn field_bytes(f: FieldView) -> Seq<u8> {
    frame_bytes(field_type(f), field_body(f))
}

/// Whether every field of a sequence can be written.
pub open spec fn fields_encodable(fs: Seq<FieldView>) -> bool {
    forall|i: int| 0 <= i < fs.len() ==> #[trigger] field_encodable(fs[i])
}

/// The octets of a sequence of fields, one after the other.
pub open spec fn fields_bytes(fs: Seq<FieldView>) -> Seq<u8>
    decreases fs.len(),
{
    if fs.len() == 0 {
        Seq::empty()
    } else {
        fields_bytes(fs.drop_last()) + field_bytes(fs.last())
    }
}

/// What the type id of a frame stands for.
#[derive(Debug, Copy, Clone, PartialEq, Eq, Structural)]
pub enum ExtensionFieldTypeId {
    UniqueIdentifier,
    NtsCookie,
    NtsCookiePlaceholder,
    NtsEncryptedField,
    Unknown { type_id: u16 },
}

pub open spec fn type_of(type_id: u16) -> ExtensionFieldTypeId {
    if type_id == UNIQUE_IDENTIFIER_ID {
        ExtensionFieldTypeId::UniqueIdentifier
    } else if type_id == NTS_COOKIE_ID {
        ExtensionFieldTypeId::NtsCookie
    } else if type_id == NTS_COOKIE_PLACEHOLDER_ID {
        ExtensionFieldTypeId::NtsCookiePlaceholder
    } else if type_id == NTS_ENCRYPTED_ID {
        ExtensionFieldTypeId::NtsEncryptedField
    } else {
        ExtensionFieldTypeId::Unknown { type_id }
    }
}

impl ExtensionFieldTypeId {
    pub fn from_type_id(type_id: u16) -> (r: ExtensionFieldTypeId)
        ensures
            r == type_of(type_id),
    {
        match type_id {
            UNIQUE_IDENTIFIER_ID => ExtensionFieldTypeId::UniqueIdentifier,
            NTS_COOKIE_ID => ExtensionFieldTypeId::NtsCookie,
            NTS_COOKIE_PLACEHOLDER_ID => ExtensionFieldTypeId::NtsCookiePlaceholder,
            NTS_ENCRYPTED_ID => ExtensionFieldTypeId::NtsEncryptedField,
            _ => ExtensionFieldTypeId::Unknown { type_id },
        }
    }
}

/// The type id and body of the frame at the start of `s`, which runs to a
/// 4-octet boundary; `s` must be a whole number of words.
pub open spec fn frame_of(s: Seq<u8>) -> Result<(u16, Seq<u8>), PacketParsingError> {
    if s.len() < 4 || s.len() % 4 != 0 {
        Err(PacketParsingError::IncorrectLength)
    } else {
        let fl = be16(s.subrange(2, 4)) as int;
        if fl < MINIMUM_FIELD_SIZE || fl > s.len() || !all_zero(s.subrange(fl, pad4(fl))) {
            Err(PacketParsingError::IncorrectLength)
        } else {
            Ok((be16(s.subrange(0, 2)), s.subrange(4, fl)))
        }
    }
}

/// A frame whose padding holds a non-zero octet is refused as of incorrect
/// length.
pub proof fn lemma_padding_enforced(s: Seq<u8>)
    requires
        s.len() >= 4,
        s.len() % 4 == 0,
        MINIMUM_FIELD_SIZE <= be16(s.subrange(2, 4)) <= s.len(),
        !all_zero(s.subrange(be16(s.subrange(2, 4)) as int, pad4(be16(s.subrange(2, 4)) as int))),
    ensures
        frame_of(s) == Err::<(u16, Seq<u8>), _>(PacketParsingError::IncorrectLength),
{
}

/// The number of octets that a frame with a body of `n` octets takes.
pub open spec fn wire_length_of(n: int) -> int {
    4 + pad4(n)
}

/// A frame that reads takes at least 16 octets and at most what was there,
/// and its body fits a 16-bit length.
pub proof fn lemma_frame_bounds(s: Seq<u8>)
    requires
        frame_of(s) is Ok,
    ensures
        ({
            let body = frame_of(s)->Ok_0.1;
            &&& MINIMUM_FIELD_SIZE <= wire_length_of(body.len() as int) <= s.len()
            &&& body.len() + 4 <= 0xFFFF
        }),
{
}

/// What a frame decodes to: a field, `None` for the encrypted field, or an
/// error.
pub open spec fn decode_field(type_id: u16, body: Seq<u8>) -> Result<
    Option<FieldView>,
    PacketParsingError,
> {
    if type_id == NTS_ENCRYPTED_ID {
        Ok(None)
    } else if type_id == UNIQUE_IDENTIFIER_ID {
        if body.len() < MINIMUM_UNIQUE_IDENTIFIER {
            Err(PacketParsingError::IncorrectLength)
        } else {
            Ok(Some(FieldView::UniqueIdentifier(body)))
        }
    } else if type_id == NTS_COOKIE_ID {
        Ok(Some(FieldView::NtsCookie(body)))
    } else if type_id == NTS_COOKIE_PLACEHOLDER_ID {
        if all_zero(body) {
            Ok(Some(FieldView::NtsCookiePlaceholder(body.len() as u16)))
        } else {
            Err(PacketParsingError::IncorrectLength)
        }
    } else {
        Ok(Some(FieldView::Unknown(type_id, body)))
    }
}

/// The value of a decoding outcome.
pub open spec fn decoded_view(r: Result<Option<ExtensionField>, PacketParsingError>) -> Result<
    Option<FieldView>,
    PacketParsingError,
> {
    match r {
        Ok(Some(f)) => Ok(Some(f@)),
        Ok(None) => Ok(None),
        Err(e) => Err(e),
    }
}

/// A frame whose type id and body have been read, and nothing more.
#[derive(Debug)]
pub struct UnparsedExtensionField {
    pub type_id: ExtensionFieldTypeId,
    /// The body alone: neither the 4-octet header nor the padding.
    pub message_bytes: Vec<u8>,
    /// The type id as it stood on the wire.
    pub raw_type_id: u16,
}

impl UnparsedExtensionField {
    /// The number of octets that the frame took: header, body and padding.
    pub fn wire_length(&self) -> (r: usize)
        requires
            self.message_bytes@.len() + 8 <= usize::MAX,
        ensures
            r == wire_length_of(self.message_bytes@.len() as int),
    {
        4 + next_multiple_of(self.message_bytes.len(), 4)
    }

    /// Reads the frame at the start of `data`.
    pub fn deserialize(data: &[u8]) -> (r: Result<UnparsedExtensionField, PacketParsingError>)
        ensures
            r matches Ok(u) ==> frame_of(data@) == Ok::<_, PacketParsingError>(
                (u.raw_type_id, u.message_bytes@),
            ) && u.type_id == type_of(u.raw_type_id),
            r matches Err(e) ==> frame_of(data@) == Err::<(u16, Seq<u8>), _>(e),
    {
        if data.len() < 4 || data.len() % 4 != 0 {
            return Err(PacketParsingError::IncorrectLength);
        }
        let type_id = read_u16(data, 0);
        let field_length = read_u16(data, 2) as usize;
        if field_length < MINIMUM_FIELD_SIZE || field_length > data.len() {
            return Err(PacketParsingError::IncorrectLength);
        }
        let padded = next_multiple_of(field_length, 4);
        // Non-zero padding is refused, so that a frame has one encoding only.
        if !is_all_zero(data, field_length, padded) {
            return Err(PacketParsingError::IncorrectLength);
        }
        let value = slice_to_vec(slice_subrange(data, 4, field_length));
        Ok(
            UnparsedExtensionField {
                type_id: ExtensionFieldTypeId::from_type_id(type_id),
                message_bytes: value,
                raw_type_id: type_id,
            },
        )
    }
}

impl ExtensionField {
    /// This field, holding its own octets.
    pub fn into_owned(self) -> (r: ExtensionField)
        ensures
            r@ == self@,
    {
        self
    }

    pub fn decode_unique_identifier(message: Vec<u8>) -> (r: Result<
        ExtensionField,
        PacketParsingError,
    >)
        ensures
            message@.len() < MINIMUM_UNIQUE_IDENTIFIER ==> r == Err::<ExtensionField, _>(
                PacketParsingError::IncorrectLength,
            ),
            message@.len() >= MINIMUM_UNIQUE_IDENTIFIER ==> (r matches Ok(f) && f@
                == FieldView::UniqueIdentifier(message@)),
    {
        // The identifier must be at least 32 octets long.
        if message.len() < MINIMUM_UNIQUE_IDENTIFIER {
            return Err(PacketParsingError::IncorrectLength);
        }
        Ok(ExtensionField::UniqueIdentifier(message))
    }

    pub fn decode_nts_cookie(message: Vec<u8>) -> (r: ExtensionField)
        ensures
            r@ == FieldView::NtsCookie(message@),
    {
        ExtensionField::NtsCookie(message)
    }

    pub fn decode_nts_cookie_placeholder(message: Vec<u8>) -> (r: Result<
        ExtensionField,
        PacketParsingError,
    >)
        ensures
            all_zero(message@) ==> (r matches Ok(f) && f@ == FieldView::NtsCookiePlaceholder(
                message@.len() as u16,
            )),
            !all_zero(message@) ==> r == Err::<ExtensionField, _>(
                PacketParsingError::IncorrectLength,
            ),
    {
        if !is_all_zero(message.as_slice(), 0, message.len()) {
            assert(message@.subrange(0, message@.len() as int) =~= message@);
            return Err(PacketParsingError::IncorrectLength);
        }
        assert(message@.subrange(0, message@.len() as int) =~= message@);
        Ok(ExtensionField::NtsCookiePlaceholder { cookie_length: message.len() as u16 })
    }

    pub fn decode_unknown(type_id: u16, message: Vec<u8>) -> (r: ExtensionField)
        ensures
            r@ == FieldView::Unknown(type_id, message@),
    {
        ExtensionField::Unknown { type_id, data: message }
    }

    /// The field that a frame read by `UnparsedExtensionField::deserialize`
    /// stands for, or `None` for the encrypted field.
    pub fn decode_basic_field(unparsed: &UnparsedExtensionField) -> (r: Result<
        Option<ExtensionField>,
        PacketParsingError,
    >)
        requires
            unparsed.type_id == type_of(unparsed.raw_type_id),
        ensures
            decoded_view(r) == decode_field(unparsed.raw_type_id, unparsed.message_bytes@),
    {
        let message = slice_to_vec(unparsed.message_bytes.as_slice());
        match unparsed.type_id {
            ExtensionFieldTypeId::NtsEncryptedField => Ok(None),
            ExtensionFieldTypeId::UniqueIdentifier => match ExtensionField::decode_unique_identifier(
                message,
            ) {
                Ok(f) => Ok(Some(f)),
                Err(e) => Err(e),
            },
            ExtensionFieldTypeId::NtsCookie => Ok(Some(ExtensionField::decode_nts_cookie(message))),
            ExtensionFieldTypeId::NtsCookiePlaceholder => match ExtensionField::decode_nts_cookie_placeholder(
                message,
            ) {
                Ok(f) => Ok(Some(f)),
                Err(e) => Err(e),
            },
            ExtensionFieldTypeId::Unknown { type_id } => Ok(
                Some(ExtensionField::decode_unknown(type_id, message)),
            ),
        }
    }

    /// Appends a frame with the given type id and body.
    fn encode_frame(w: &mut Vec<u8>, type_id: u16, body: &[u8]) -> (r: Result<(), SerializeError>)
        ensures
            body@.len() + 4 > 0xFFFF ==> r == Err::<(), _>(SerializeError::FieldTooLong) && final(w)@ == old(w)@,
            body@.len() + 4 <= 0xFFFF ==> r is Ok && final(w)@ == old(w)@ + frame_bytes(
                type_id,
                body@,
            ),
    {
        if body.len() > 0xFFFF - 4 {
            return Err(SerializeError::FieldTooLong);
        }
        put_u16(w, type_id);
        put_u16(w, (4 + body.len()) as u16);
        put_bytes(w, body);
        let padding = next_multiple_of(body.len(), 4) - body.len();
        put_zeros(w, padding);
        assert(w@ =~= old(w)@ + frame_bytes(type_id, body@));
        Ok(())
    }

    pub fn encode_unique_identifier(w: &mut Vec<u8>, identifier: &[u8]) -> (r: Result<
        (),
        SerializeError,
    >)
        ensures
            identifier@.len() + 4 > 0xFFFF ==> r == Err::<(), _>(SerializeError::FieldTooLong)
                && final(w)@ == old(w)@,
            identifier@.len() + 4 <= 0xFFFF ==> r is Ok && final(w)@ == old(w)@ + frame_bytes(
                UNIQUE_IDENTIFIER_ID,
                identifier@,
            ),
    {
        ExtensionField::encode_frame(w, UNIQUE_IDENTIFIER_ID, identifier)
    }

    pub fn encode_nts_cookie(w: &mut Vec<u8>, cookie: &[u8]) -> (r: Result<(), SerializeError>)
        ensures
            cookie@.len() + 4 > 0xFFFF ==> r == Err::<(), _>(SerializeError::FieldTooLong)
                && final(w)@ == old(w)@,
            cookie@.len() + 4 <= 0xFFFF ==> r is Ok && final(w)@ == old(w)@ + frame_bytes(
                NTS_COOKIE_ID,
                cookie@,
            ),
    {
        ExtensionField::encode_frame(w, NTS_COOKIE_ID, cookie)
    }

    pub fn encode_nts_cookie_placeholder(w: &mut Vec<u8>, cookie_length: u16) -> (r: Result<
        (),
        SerializeError,
    >)
        ensures
            cookie_length + 4 > 0xFFFF ==> r == Err::<(), _>(SerializeError::FieldTooLong)
                && final(w)@ == old(w)@,
            cookie_length + 4 <= 0xFFFF ==> r is Ok && final(w)@ == old(w)@ + frame_bytes(
                NTS_COOKIE_PLACEHOLDER_ID,
                zeros(cookie_length as int),
            ),
    {
        if cookie_length > 0xFFFF - 4 {
            return Err(SerializeError::FieldTooLong);
        }
        put_u16(w, NTS_COOKIE_PLACEHOLDER_ID);
        put_u16(w, 4 + cookie_length);
        let padded = next_multiple_of(cookie_length as usize, 4);
        put_zeros(w, padded);
        assert(zeros(padded as int) =~= zeros(cookie_length as int) + zeros(
            pad4(cookie_length as int) - cookie_length,
        ));
        assert(w@ =~= old(w)@ + frame_bytes(
            NTS_COOKIE_PLACEHOLDER_ID,
            zeros(cookie_length as int),
        ));
        Ok(())
    }

    pub fn encode_unknown(w: &mut Vec<u8>, type_id: u16, data: &[u8]) -> (r: Result<
        (),
        SerializeError,
    >)
        ensures
            data@.len() + 4 > 0xFFFF ==> r == Err::<(), _>(SerializeError::FieldTooLong) && final(w)@ == old(w)@,
            data@.len() + 4 <= 0xFFFF ==> r is Ok && final(w)@ == old(w)@ + frame_bytes(
                type_id,
                data@,
            ),
    {
        ExtensionField::encode_frame(w, type_id, data)
    }

    /// Appends this field's frame.
    pub fn serialize(&self, w: &mut Vec<u8>) -> (r: Result<(), SerializeError>)
        ensures
            !field_encodable(self@) ==> r == Err::<(), _>(SerializeError::FieldTooLong) && final(w)@ == old(w)@,
            field_encodable(self@) ==> r is Ok && final(w)@ == old(w)@ + field_bytes(self@),
    {
        match self {
            ExtensionField::UniqueIdentifier(identifier) => ExtensionField::encode_unique_identifier(
                w,
                identifier.as_slice(),
            ),
            ExtensionField::NtsCookie(cookie) => ExtensionField::encode_nts_cookie(
                w,
                cookie.as_slice(),
            ),
            ExtensionField::NtsCookiePlaceholder { cookie_length } => ExtensionField::encode_nts_cookie_placeholder(
                w,
                *cookie_length,
            ),
            ExtensionField::Unknown { type_id, data } => ExtensionField::encode_unknown(
                w,
                *type_id,
                data.as_slice(),
            ),
        }
    }
}

} // verus!
