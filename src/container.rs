//! The extension fields of a version 4 packet, partitioned by trust: those
//! before the encrypted field (authenticated once it decrypts), those inside
//! it, and those after it (never trusted).

use crate::bytes::{
    all_zero, be16, is_all_zero, next_multiple_of, pad4, put_bytes, put_u16, put_zeros, read_u16,
    u16_bytes, zeros,
};
use crate::error::{PacketParsingError, SerializeError};
use crate::field::{
    decode_field, field_bytes, field_encodable, fields_bytes, fields_encodable, fields_view,
    frame_of, lemma_frame_bounds, wire_length_of, ExtensionField, FieldView,
    UnparsedExtensionField, NTS_ENCRYPTED_ID,
};
use crate::siv::{open, seal, sealing_opens, siv_open, siv_seal, Cipher, NONCE_LENGTH};
use vstd::prelude::*;
use vstd::slice::{slice_subrange, slice_to_vec};

verus! {

/// Where fewer octets than this remain, they are no extension field: they
/// are left for a legacy MAC.
pub const MAC_MAXIMUM_SIZE: usize = 28;

/// The nonce and ciphertext inside the body of an encrypted field:
/// `nonce_len_be16 | ct_len_be16 | nonce | zero padding | ciphertext | padding`.
/// The lengths must account for the body and both regions must fit, then the
/// nonce must have 16 octets, then its padding must be zero.
pub open spec fn encrypted_parts(v: Seq<u8>) -> Result<(Seq<u8>, Seq<u8>), PacketParsingError> {
    if v.len() < 4 {
        Err(PacketParsingError::IncorrectLength)
    } else {
        let n = be16(v.subrange(0, 2)) as int;
        let c = be16(v.subrange(2, 4)) as int;
        let cs = 4 + pad4(n);
        if 4 + pad4(n) + pad4(c) != pad4(v.len() as int) {
            Err(PacketParsingError::IncorrectLength)
        } else if cs > v.len() || cs + c > v.len() {
            Err(PacketParsingError::IncorrectLength)
        } else if n != NONCE_LENGTH {
            Err(PacketParsingError::MalformedNonce)
        } else if !all_zero(v.subrange(4 + n, cs)) {
            Err(PacketParsingError::IncorrectLength)
        } else {
            Ok((v.subrange(4, 4 + n), v.subrange(cs, cs + c)))
        }
    }
}

/// The lengths in an encrypted field must account for its body, else the
/// field is of incorrect length; where they do and both regions fit, a nonce
/// of other than 16 octets is malformed, whatever its padding holds.
pub proof fn lemma_encrypted_accounting(v: Seq<u8>)
    requires
        v.len() >= 4,
    ensures
        ({
            let n = be16(v.subrange(0, 2)) as int;
            let c = be16(v.subrange(2, 4)) as int;
            let cs = 4 + pad4(n);
            &&& 4 + pad4(n) + pad4(c) != pad4(v.len() as int) ==> encrypted_parts(v) == Err::<
                (Seq<u8>, Seq<u8>),
                _,
            >(PacketParsingError::IncorrectLength)
            &&& 4 + pad4(n) + pad4(c) == pad4(v.len() as int) && cs + c <= v.len() && n
                != NONCE_LENGTH ==> encrypted_parts(v) == Err::<(Seq<u8>, Seq<u8>), _>(
                PacketParsingError::MalformedNonce,
            )
        }),
{
}

/// The nonce and ciphertext of an encrypted field, not yet decrypted.
pub struct UnparsedEncryptedField {
    pub nonce: Vec<u8>,
    pub ciphertext: Vec<u8>,
}

impl UnparsedEncryptedField {
    pub fn from_message_bytes(message_bytes: &[u8]) -> (r: Result<
        UnparsedEncryptedField,
        PacketParsingError,
    >)
        requires
            message_bytes@.len() <= 0xFFFF,
        ensures
            r matches Ok(u) ==> encrypted_parts(message_bytes@) == Ok::<_, PacketParsingError>(
                (u.nonce@, u.ciphertext@),
            ),
            r matches Err(e) ==> encrypted_parts(message_bytes@) == Err::<
                (Seq<u8>, Seq<u8>),
                _,
            >(e),
    {
        let value = message_bytes;
        if value.len() < 4 {
            return Err(PacketParsingError::IncorrectLength);
        }
        let nonce_length = read_u16(value, 0) as usize;
        let ciphertext_length = read_u16(value, 2) as usize;
        let ciphertext_start = 4 + next_multiple_of(nonce_length, 4);
        if ciphertext_start + next_multiple_of(ciphertext_length, 4) != next_multiple_of(
            value.len(),
            4,
        ) {
            return Err(PacketParsingError::IncorrectLength);
        }
        if ciphertext_start > value.len() || ciphertext_start + ciphertext_length > value.len() {
            return Err(PacketParsingError::IncorrectLength);
        }
        if nonce_length != NONCE_LENGTH {
            return Err(PacketParsingError::MalformedNonce);
        }
        if !is_all_zero(value, 4 + nonce_length, ciphertext_start) {
            return Err(PacketParsingError::IncorrectLength);
        }
        let nonce = slice_to_vec(slice_subrange(value, 4, 4 + nonce_length));
        let ciphertext = slice_to_vec(
            slice_subrange(value, ciphertext_start, ciphertext_start + ciphertext_length),
        );
        Ok(UnparsedEncryptedField { nonce, ciphertext })
    }
}

/// The fields before the encrypted field, from offset `off` on with `acc`
/// read so far: the fields, where the walk stopped, and the nonce,
/// ciphertext and start of the encrypted field if there is one.
pub open spec fn scan_untrusted(data: Seq<u8>, off: int, acc: Seq<FieldView>) -> Result<
    (Seq<FieldView>, int, Option<(Seq<u8>, Seq<u8>, int)>),
    PacketParsingError,
>
    decreases data.len() - off,
{
    if off < 0 || off > data.len() || data.len() - off < MAC_MAXIMUM_SIZE {
        Ok((acc, off, None))
    } else {
        match frame_of(data.subrange(off, data.len() as int)) {
            Err(e) => Err(e),
            Ok((t, body)) => {
                let next = off + wire_length_of(body.len() as int);
                match decode_field(t, body) {
                    Err(e) => Err(e),
                    Ok(None) => match encrypted_parts(body) {
                        Err(e) => Err(e),
                        Ok((nonce, ct)) => Ok((acc, next, Some((nonce, ct, off)))),
                    },
                    Ok(Some(f)) => scan_untrusted(data, next, acc.push(f)),
                }
            },
        }
    }
}

/// The fields inside a decrypted plaintext, from offset `off` on with `acc`
/// read so far. A nested encrypted field is an error.
pub open spec fn scan_encrypted(p: Seq<u8>, off: int, acc: Seq<FieldView>) -> Result<
    Seq<FieldView>,
    PacketParsingError,
>
    decreases p.len() - off,
{
    if off < 0 || off >= p.len() {
        Ok(acc)
    } else {
        match frame_of(p.subrange(off, p.len() as int)) {
            Err(e) => Err(e),
            Ok((t, body)) => match decode_field(t, body) {
                Err(e) => Err(e),
                Ok(None) => Err(PacketParsingError::MalformedNtsExtensionFields),
                Ok(Some(f)) => scan_encrypted(p, off + wire_length_of(body.len() as int), acc.push(f)),
            },
        }
    }
}

/// The fields after the encrypted field, from offset `off` on with `acc` read
/// so far, and where the walk stopped. A second encrypted field is an error.
pub open spec fn scan_after(data: Seq<u8>, off: int, acc: Seq<FieldView>) -> Result<
    (Seq<FieldView>, int),
    PacketParsingError,
>
    decreases data.len() - off,
{
    if off < 0 || off > data.len() || data.len() - off < MAC_MAXIMUM_SIZE {
        Ok((acc, off))
    } else {
        match frame_of(data.subrange(off, data.len() as int)) {
            Err(e) => Err(e),
            Ok((t, body)) => match decode_field(t, body) {
                Err(e) => Err(e),
                Ok(None) => Err(PacketParsingError::MalformedNtsExtensionFields),
                Ok(Some(f)) => scan_after(data, off + wire_length_of(body.len() as int), acc.push(f)),
            },
        }
    }
}

/// The three classes of extension fields.
pub struct EfView {
    pub authenticated: Seq<FieldView>,
    pub encrypted: Seq<FieldView>,
    pub untrusted: Seq<FieldView>,
}

/// The extension fields of `data` from offset `start` on, decrypted with
/// `key`, and the offset where they end.
pub open spec fn fields_of(data: Seq<u8>, start: int, key: Seq<u8>) -> Result<
    (EfView, int),
    PacketParsingError,
> {
    match scan_untrusted(data, start, Seq::empty()) {
        Err(e) => Err(e),
        Ok((pre, off, None)) => Ok(
            (EfView { authenticated: Seq::empty(), encrypted: Seq::empty(), untrusted: pre }, off),
        ),
        Ok((pre, off, Some((nonce, ct, at)))) => match siv_open(
            key,
            nonce,
            ct,
            data.subrange(0, at),
        ) {
            None => Err(PacketParsingError::DecryptError),
            Some(p) => match scan_encrypted(p, 0, Seq::empty()) {
                Err(e) => Err(e),
                Ok(enc) => match scan_after(data, off, Seq::empty()) {
                    Err(e) => Err(e),
                    Ok((post, end)) => Ok(
                        (EfView { authenticated: pre, encrypted: enc, untrusted: post }, end),
                    ),
                },
            },
        },
    }
}

/// Where the fields read: without an encrypted field every field is
/// untrusted; once the encrypted field opens, the fields before it are
/// authenticated, those inside it encrypted, and those after it untrusted.
pub proof fn lemma_trust_partition(data: Seq<u8>, start: int, key: Seq<u8>)
    requires
        fields_of(data, start, key) is Ok,
    ensures
        ({
            let (ef, end) = fields_of(data, start, key)->Ok_0;
            match scan_untrusted(data, start, Seq::empty()) {
                Ok((pre, off, None)) => ef.untrusted == pre && ef.authenticated.len() == 0
                    && ef.encrypted.len() == 0 && end == off,
                Ok((pre, off, Some((nonce, ct, at)))) => {
                    &&& ef.authenticated == pre
                    &&& siv_open(key, nonce, ct, data.subrange(0, at)) matches Some(p)
                        && scan_encrypted(p, 0, Seq::empty()) == Ok::<_, PacketParsingError>(
                        ef.encrypted,
                    )
                    &&& scan_after(data, off, Seq::empty()) == Ok::<_, PacketParsingError>(
                        (ef.untrusted, end),
                    )
                },
                Err(_) => false,
            }
        }),
{
}

/// The outcome once the plaintext `p` of the encrypted field is known.
pub open spec fn after_decrypt(
    p: Seq<u8>,
    data: Seq<u8>,
    off: int,
    authenticated: Seq<FieldView>,
) -> Result<(EfView, int), PacketParsingError> {
    match scan_encrypted(p, 0, Seq::empty()) {
        Err(e) => Err(e),
        Ok(enc) => finish(data, off, Seq::empty(), authenticated, enc),
    }
}

/// The outcome once the walk after the encrypted field, from `off` with
/// `acc`, is done.
pub open spec fn finish(
    data: Seq<u8>,
    off: int,
    acc: Seq<FieldView>,
    authenticated: Seq<FieldView>,
    encrypted: Seq<FieldView>,
) -> Result<(EfView, int), PacketParsingError> {
    match scan_after(data, off, acc) {
        Err(e) => Err(e),
        Ok((post, end)) => Ok(
            (EfView { authenticated: authenticated, encrypted: encrypted, untrusted: post }, end),
        ),
    }
}

/// The nonce that `ExtensionFieldData::serialize` seals with: the octets of
/// "any odd nonce$$$". A deployment supplies a fresh random nonce per packet
/// through `serialize_with_nonce`.
pub open spec fn fixed_nonce() -> Seq<u8> {
    seq![
        0x61u8, 0x6e, 0x79, 0x20, 0x6f, 0x64, 0x64, 0x20, 0x6e, 0x6f, 0x6e, 0x63, 0x65, 0x24, 0x24,
        0x24,
    ]
}

pub(crate) fn fixed_nonce_bytes() -> (r: [u8; 16])
    ensures
        r@ == fixed_nonce(),
{
    let r = [
        0x61u8, 0x6e, 0x79, 0x20, 0x6f, 0x64, 0x64, 0x20, 0x6e, 0x6f, 0x6e, 0x63, 0x65, 0x24, 0x24,
        0x24,
    ];
    assert(r@ =~= fixed_nonce());
    r
}

/// The encrypted field with `nonce` and ciphertext `ct`. Its length field is
/// `8 + pad4(nonce + ciphertext)`; the nonce and the ciphertext are each
/// padded to a 4-octet boundary.
pub open spec fn encrypted_field_bytes(nonce: Seq<u8>, ct: Seq<u8>) -> Seq<u8> {
    u16_bytes(NTS_ENCRYPTED_ID) + u16_bytes((8 + pad4((nonce.len() + ct.len()) as int)) as u16) + u16_bytes(
        nonce.len() as u16,
    ) + u16_bytes(ct.len() as u16) + nonce + zeros(pad4(nonce.len() as int) - nonce.len()) + ct
        + zeros(pad4(ct.len() as int) - ct.len())
}

/// Whether the encrypted field that seals `plaintext_len` octets fits its
/// 16-bit length.
pub open spec fn sealed_encodable(plaintext_len: int) -> bool {
    8 + pad4(NONCE_LENGTH + plaintext_len + 16) <= 0xFFFF
}

/// Whether the fields call for an encrypted field on the wire.
pub open spec fn has_encrypted_field(ef: EfView) -> bool {
    ef.authenticated.len() > 0 || ef.encrypted.len() > 0
}

/// Whether every frame of `ef` fits its 16-bit length.
pub open spec fn efdata_encodable(ef: EfView) -> bool {
    &&& fields_encodable(ef.authenticated)
    &&& fields_encodable(ef.untrusted)
    &&& has_encrypted_field(ef) ==> fields_encodable(ef.encrypted) && sealed_encodable(
        fields_bytes(ef.encrypted).len() as int,
    )
}

/// The octets of `ef` written after `prefix`, sealed with `key` and `nonce`:
/// authenticated fields, the encrypted field (whose associated data is all
/// that precedes it), untrusted fields.
pub open spec fn efdata_bytes(prefix: Seq<u8>, ef: EfView, key: Seq<u8>, nonce: Seq<u8>) -> Seq<
    u8,
> {
    let a = fields_bytes(ef.authenticated);
    a + (if has_encrypted_field(ef) {
        encrypted_field_bytes(nonce, siv_seal(key, nonce, fields_bytes(ef.encrypted), prefix + a))
    } else {
        Seq::empty()
    }) + fields_bytes(ef.untrusted)
}

pub proof fn lemma_fields_bytes_push(fs: Seq<FieldView>, f: FieldView)
    ensures
        fields_bytes(fs.push(f)) == fields_bytes(fs) + field_bytes(f),
{
    assert(fs.push(f).drop_last() =~= fs);
}

/// Appends the frames of `fields`, one after the other.
pub fn serialize_fields(w: &mut Vec<u8>, fields: &Vec<ExtensionField>) -> (r: Result<
    (),
    SerializeError,
>)
    ensures
        r is Ok <==> fields_encodable(fields_view(fields@)),
        r is Ok ==> final(w)@ == old(w)@ + fields_bytes(fields_view(fields@)),
{
    let mut i: usize = 0;
    assert(fields_view(fields@.take(0)) =~= Seq::empty());
    while i < fields.len()
        invariant
            i <= fields@.len(),
            w@ == old(w)@ + fields_bytes(fields_view(fields@.take(i as int))),
            fields_encodable(fields_view(fields@.take(i as int))),
        decreases fields@.len() - i,
    {
        match fields[i].serialize(w) {
            Err(e) => {
                assert(fields_view(fields@)[i as int] == fields@[i as int]@);
                return Err(e);
            },
            Ok(()) => {},
        }
        proof {
            assert(fields@.take(i + 1) =~= fields@.take(i as int).push(fields@[i as int]));
            lemma_view_push(fields@.take(i as int), fields@[i as int]);
            lemma_fields_bytes_push(fields_view(fields@.take(i as int)), fields@[i as int]@);
            assert(w@ =~= old(w)@ + fields_bytes(fields_view(fields@.take(i + 1))));
            let fv = fields_view(fields@.take(i + 1));
            assert forall|k: int| 0 <= k < fv.len() implies #[trigger] field_encodable(fv[k]) by {
                if k < i {
                    assert(fv[k] == fields_view(fields@.take(i as int))[k]);
                }
            }
        }
        i = i + 1;
    }
    assert(fields@.take(i as int) =~= fields@);
    Ok(())
}

#[derive(Debug, Clone, PartialEq, Eq)]
pub struct ExtensionFieldData {
    pub authenticated: Vec<ExtensionField>,
    pub encrypted: Vec<ExtensionField>,
    pub untrusted: Vec<ExtensionField>,
}

impl View for ExtensionFieldData {
    type V = EfView;

    open spec fn view(&self) -> EfView {
        EfView {
            authenticated: fields_view(self.authenticated@),
            encrypted: fields_view(self.encrypted@),
            untrusted: fields_view(self.untrusted@),
        }
    }
}

impl Default for ExtensionFieldData {
    fn default() -> (r: ExtensionFieldData)
        ensures
            r.authenticated@.len() == 0,
            r.encrypted@.len() == 0,
            r.untrusted@.len() == 0,
    {
        ExtensionFieldData { authenticated: Vec::new(), encrypted: Vec::new(), untrusted: Vec::new() }
    }
}

pub proof fn lemma_view_push(v: Seq<ExtensionField>, f: ExtensionField)
    ensures
        fields_view(v.push(f)) == fields_view(v).push(f@),
{
    assert(fields_view(v.push(f)) =~= fields_view(v).push(f@));
}

impl ExtensionField {
    /// Appends the encrypted field that seals the frames of
    /// `fields_to_encrypt` under `cipher` and `nonce`, with all that `w`
    /// holds as associated data.
    pub fn encode_encrypted(
        w: &mut Vec<u8>,
        fields_to_encrypt: &Vec<ExtensionField>,
        cipher: &Cipher,
        nonce: &[u8; 16],
    ) -> (r: Result<(), SerializeError>)
        ensures
            r is Ok <==> fields_encodable(fields_view(fields_to_encrypt@)) && sealed_encodable(
                fields_bytes(fields_view(fields_to_encrypt@)).len() as int,
            ),
            r is Ok ==> final(w)@ == old(w)@ + encrypted_field_bytes(
                nonce@,
                siv_seal(cipher.key@, nonce@, fields_bytes(fields_view(fields_to_encrypt@)), old(w)@),
            ),
            r is Ok ==> sealing_opens(
                cipher.key@,
                nonce@,
                fields_bytes(fields_view(fields_to_encrypt@)),
                old(w)@,
            ),
    {
        let mut plaintext: Vec<u8> = Vec::new();
        match serialize_fields(&mut plaintext, fields_to_encrypt) {
            Err(e) => return Err(e),
            Ok(()) => {},
        }
        assert(plaintext@ =~= fields_bytes(fields_view(fields_to_encrypt@)));
        let ct = seal(&cipher.key, nonce, plaintext.as_slice(), w.as_slice());
        if ct.len() > 0xFFFF - 8 - NONCE_LENGTH {
            return Err(SerializeError::FieldTooLong);
        }
        // The 8 octets are the frame header and the two length fields.
        let signature_octet_count = 8 + next_multiple_of(NONCE_LENGTH + ct.len(), 4);
        if signature_octet_count > 0xFFFF {
            return Err(SerializeError::FieldTooLong);
        }
        let ghost before = w@;
        put_u16(w, NTS_ENCRYPTED_ID);
        put_u16(w, signature_octet_count as u16);
        put_u16(w, NONCE_LENGTH as u16);
        put_u16(w, ct.len() as u16);
        put_bytes(w, nonce.as_slice());
        put_zeros(w, next_multiple_of(NONCE_LENGTH, 4) - NONCE_LENGTH);
        put_bytes(w, ct.as_slice());
        put_zeros(w, next_multiple_of(ct.len(), 4) - ct.len());
        assert(w@ =~= before + encrypted_field_bytes(nonce@, ct@));
        Ok(())
    }
}

impl ExtensionFieldData {
    /// Appends the fields: authenticated ones, the encrypted field sealed
    /// with `cipher` and `nonce` (where there is anything to authenticate or
    /// encrypt), untrusted ones.
    pub fn serialize_with_nonce(&self, w: &mut Vec<u8>, cipher: &Cipher, nonce: &[u8; 16]) -> (r:
        Result<(), SerializeError>)
        ensures
            r is Ok <==> efdata_encodable(self@),
            r is Ok ==> final(w)@ == old(w)@ + efdata_bytes(old(w)@, self@, cipher.key@, nonce@),
            r is Ok && has_encrypted_field(self@) ==> sealing_opens(
                cipher.key@,
                nonce@,
                fields_bytes(self@.encrypted),
                old(w)@ + fields_bytes(self@.authenticated),
            ),
    {
        match serialize_fields(w, &self.authenticated) {
            Err(e) => return Err(e),
            Ok(()) => {},
        }
        if self.authenticated.len() > 0 || self.encrypted.len() > 0 {
            match ExtensionField::encode_encrypted(w, &self.encrypted, cipher, nonce) {
                Err(e) => return Err(e),
                Ok(()) => {},
            }
        }
        match serialize_fields(w, &self.untrusted) {
            Err(e) => return Err(e),
            Ok(()) => {},
        }
        assert(w@ =~= old(w)@ + efdata_bytes(old(w)@, self@, cipher.key@, nonce@));
        Ok(())
    }

    /// Appends the fields as `serialize_with_nonce` does, with a fixed nonce.
    pub fn serialize(&self, w: &mut Vec<u8>, cipher: &Cipher) -> (r: Result<(), SerializeError>)
        ensures
            r is Ok <==> efdata_encodable(self@),
            r is Ok ==> final(w)@ == old(w)@ + efdata_bytes(
                old(w)@,
                self@,
                cipher.key@,
                fixed_nonce(),
            ),
    {
        let nonce = fixed_nonce_bytes();
        self.serialize_with_nonce(w, cipher, &nonce)
    }

    /// These fields, holding their own octets.
    pub fn into_owned(self) -> (r: ExtensionFieldData)
        ensures
            r@ == self@,
    {
        self
    }

    /// Reads the extension fields of `data` from offset `header_size` on,
    /// decrypting the encrypted field with `cipher`; says where they end.
    pub fn deserialize(data: &[u8], header_size: usize, cipher: &Cipher) -> (r: Result<
        (ExtensionFieldData, usize),
        PacketParsingError,
    >)
        requires
            header_size <= data@.len(),
        ensures
            r matches Ok((ef, end)) ==> fields_of(data@, header_size as int, cipher.key@) == Ok::<
                _,
                PacketParsingError,
            >((ef@, end as int)) && header_size <= end <= data@.len(),
            r matches Err(e) ==> fields_of(data@, header_size as int, cipher.key@) == Err::<
                (EfView, int),
                _,
            >(e),
    {
        let mut offset = header_size;
        let mut untrusted: Vec<ExtensionField> = Vec::new();
        let mut encrypted_field: Option<(UnparsedEncryptedField, usize)> = None;
        assert(fields_view(untrusted@) =~= Seq::empty());

        while data.len() - offset >= MAC_MAXIMUM_SIZE
            invariant_except_break
                encrypted_field is None,
                scan_untrusted(data@, header_size as int, Seq::empty()) == scan_untrusted(
                    data@,
                    offset as int,
                    fields_view(untrusted@),
                ),
            invariant
                header_size <= offset <= data@.len(),
            ensures
                encrypted_field matches Some((u, at)) ==> scan_untrusted(
                    data@,
                    header_size as int,
                    Seq::empty(),
                ) == Ok::<_, PacketParsingError>(
                    (
                        fields_view(untrusted@),
                        offset as int,
                        Some((u.nonce@, u.ciphertext@, at as int)),
                    ),
                ) && at <= data@.len() && u.nonce@.len() == NONCE_LENGTH,
                encrypted_field is None ==> scan_untrusted(
                    data@,
                    header_size as int,
                    Seq::empty(),
                ) == Ok::<_, PacketParsingError>(
                    (fields_view(untrusted@), offset as int, None::<(Seq<u8>, Seq<u8>, int)>),
                ) && data@.len() - offset < MAC_MAXIMUM_SIZE,
                offset <= data@.len(),
            decreases data@.len() - offset,
        {
            let rest = slice_subrange(data, offset, data.len());
            let unparsed = match UnparsedExtensionField::deserialize(rest) {
                Ok(u) => u,
                Err(e) => return Err(e),
            };
            proof {
                lemma_frame_bounds(rest@);
            }
            let wire_length = unparsed.wire_length();
            let field = match ExtensionField::decode_basic_field(&unparsed) {
                Err(e) => return Err(e),
                Ok(None) => {
                    let field = match UnparsedEncryptedField::from_message_bytes(
                        unparsed.message_bytes.as_slice(),
                    ) {
                        Ok(f) => f,
                        Err(e) => return Err(e),
                    };
                    encrypted_field = Some((field, offset));
                    offset = offset + wire_length;
                    break ;
                },
                Ok(Some(field)) => field,
            };
            proof {
                lemma_view_push(untrusted@, field);
            }
            untrusted.push(field);
            offset = offset + wire_length;
        }

        let mut authenticated: Vec<ExtensionField> = Vec::new();
        let mut encrypted: Vec<ExtensionField> = Vec::new();
        if let Some((field, at)) = encrypted_field {
            let packet_so_far = slice_subrange(data, 0, at);
            if field.nonce.len() != NONCE_LENGTH {
                return Err(PacketParsingError::MalformedNonce);
            }
            let plaintext = match open(
                &cipher.key,
                field.nonce.as_slice(),
                field.ciphertext.as_slice(),
                packet_so_far,
            ) {
                Some(p) => p,
                None => return Err(PacketParsingError::DecryptError),
            };

            // The fields before the encrypted one are now authenticated.
            authenticated = untrusted;
            untrusted = Vec::new();
            assert(fields_view(untrusted@) =~= Seq::empty());
            assert(fields_view(encrypted@) =~= Seq::empty());
            assert(fields_of(data@, header_size as int, cipher.key@) == after_decrypt(
                plaintext@,
                data@,
                offset as int,
                fields_view(authenticated@),
            ));

            let mut inner: usize = 0;
            while inner < plaintext.len()
                invariant
                    inner <= plaintext@.len(),
                    fields_of(data@, header_size as int, cipher.key@) == after_decrypt(
                        plaintext@,
                        data@,
                        offset as int,
                        fields_view(authenticated@),
                    ),
                    scan_encrypted(plaintext@, 0, Seq::empty()) == scan_encrypted(
                        plaintext@,
                        inner as int,
                        fields_view(encrypted@),
                    ),
                decreases plaintext@.len() - inner,
            {
                let rest = slice_subrange(plaintext.as_slice(), inner, plaintext.len());
                let unparsed = match UnparsedExtensionField::deserialize(rest) {
                    Ok(u) => u,
                    Err(e) => return Err(e),
                };
                proof {
                    lemma_frame_bounds(rest@);
                }
                let wire_length = unparsed.wire_length();
                let field = match ExtensionField::decode_basic_field(&unparsed) {
                    Err(e) => return Err(e),
                    // An encrypted field inside another is malformed.
                    Ok(None) => return Err(PacketParsingError::MalformedNtsExtensionFields),
                    Ok(Some(field)) => field,
                };
                let field = field.into_owned();
                proof {
                    lemma_view_push(encrypted@, field);
                }
                encrypted.push(field);
                inner = inner + wire_length;
            }
            assert(scan_encrypted(plaintext@, inner as int, fields_view(encrypted@)) == Ok::<
                _,
                PacketParsingError,
            >(fields_view(encrypted@)));
        } else {
            assert(fields_view(authenticated@) =~= Seq::empty());
            assert(fields_view(encrypted@) =~= Seq::empty());
        }
        let ghost mid = offset;
        let ghost acc0 = fields_view(untrusted@);
        assert(fields_of(data@, header_size as int, cipher.key@) == finish(
            data@,
            mid as int,
            acc0,
            fields_view(authenticated@),
            fields_view(encrypted@),
        ));

        while data.len() - offset >= MAC_MAXIMUM_SIZE
            invariant
                mid <= offset <= data@.len(),
                fields_of(data@, header_size as int, cipher.key@) == finish(
                    data@,
                    mid as int,
                    acc0,
                    fields_view(authenticated@),
                    fields_view(encrypted@),
                ),
                scan_after(data@, mid as int, acc0) == scan_after(
                    data@,
                    offset as int,
                    fields_view(untrusted@),
                ),
            decreases data@.len() - offset,
        {
            let rest = slice_subrange(data, offset, data.len());
            let unparsed = match UnparsedExtensionField::deserialize(rest) {
                Ok(u) => u,
                Err(e) => return Err(e),
            };
            proof {
                lemma_frame_bounds(rest@);
            }
            let wire_length = unparsed.wire_length();
            let field = match ExtensionField::decode_basic_field(&unparsed) {
                Err(e) => return Err(e),
                // A second encrypted field is malformed.
                Ok(None) => return Err(PacketParsingError::MalformedNtsExtensionFields),
                Ok(Some(field)) => field,
            };
            proof {
                lemma_view_push(untrusted@, field);
            }
            untrusted.push(field);
            offset = offset + wire_length;
        }
        let this = ExtensionFieldData { authenticated, encrypted, untrusted };
        Ok((this, offset))
    }
}

} // verus!
