//! Writing back what was read: on packets without an NTS encrypted field
//! the codec is a bijection.

use crate::bytes::{
    be16, lemma_bytes_u16_round_trip, lemma_bytes_u32_round_trip, lemma_u16_round_trip,
    lemma_u32_round_trip, pad4, u16_bytes, zeros,
};
use crate::container::{
    efdata_bytes, efdata_encodable, encrypted_field_bytes, encrypted_parts, fields_of,
    has_encrypted_field, lemma_fields_bytes_push, scan_after, scan_encrypted, scan_untrusted,
    sealed_encodable, EfView, MAC_MAXIMUM_SIZE,
};
use crate::field::{
    decode_field, field_body, field_bytes, field_encodable, field_type, fields_bytes,
    fields_encodable, frame_bytes, frame_of, lemma_frame_bounds, wire_length_of, FieldView,
    MINIMUM_FIELD_SIZE, MINIMUM_UNIQUE_IDENTIFIER, NTS_COOKIE_ID, NTS_COOKIE_PLACEHOLDER_ID,
    NTS_ENCRYPTED_ID, UNIQUE_IDENTIFIER_ID,
};
use crate::header::{
    header_bytes, header_of, lemma_header_bytes_of_header, lemma_header_of_header_bytes,
    lemma_header_of_prefix, short_exact, version_of,
};
use crate::packet::{
    mac_bytes, mac_of, no_fields, packet_bytes, packet_encodable, packet_of, trailer_of, PacketView,
};
use crate::siv::{sealing_opens, siv_open, siv_seal, NONCE_LENGTH};
use vstd::prelude::*;

verus! {

/// A field decoded from a frame is written back as that very frame.
pub proof fn lemma_field_bytes_of_frame(s: Seq<u8>)
    requires
        frame_of(s) is Ok,
        decode_field(frame_of(s)->Ok_0.0, frame_of(s)->Ok_0.1) matches Ok(Some(_)),
    ensures
        ({
            let (t, body) = frame_of(s)->Ok_0;
            let f = decode_field(t, body)->Ok_0->Some_0;
            &&& field_encodable(f)
            &&& field_bytes(f) == s.subrange(0, wire_length_of(body.len() as int))
        }),
{
    let (t, body) = frame_of(s)->Ok_0;
    let f = decode_field(t, body)->Ok_0->Some_0;
    let fl = be16(s.subrange(2, 4)) as int;
    lemma_frame_bounds(s);
    lemma_bytes_u16_round_trip(s.subrange(0, 2));
    lemma_bytes_u16_round_trip(s.subrange(2, 4));
    assert(field_type(f) == t);
    if f is NtsCookiePlaceholder {
        assert(field_body(f) =~= body);
    }
    assert(field_body(f) == body);
    assert(pad4(body.len() as int) + 4 == pad4(fl));
    assert(zeros(pad4(body.len() as int) - body.len()) =~= s.subrange(fl, pad4(fl)));
    assert(frame_bytes(t, body) =~= s.subrange(0, wire_length_of(body.len() as int)));
}

/// The fields that the walk before any encrypted field reads are written
/// back as the octets it walked over.
pub proof fn lemma_scan_untrusted_bytes(data: Seq<u8>, off: int, acc: Seq<FieldView>)
    requires
        0 <= off <= data.len(),
        scan_untrusted(data, off, acc) matches Ok((_, _, None)),
        fields_encodable(acc),
    ensures
        ({
            let (fs, end, _) = scan_untrusted(data, off, acc)->Ok_0;
            &&& off <= end <= data.len()
            &&& fields_encodable(fs)
            &&& fields_bytes(fs) == fields_bytes(acc) + data.subrange(off, end)
        }),
    decreases data.len() - off,
{
    if data.len() - off < MAC_MAXIMUM_SIZE {
        assert(data.subrange(off, off) =~= Seq::<u8>::empty());
        assert(fields_bytes(acc) + data.subrange(off, off) =~= fields_bytes(acc));
    } else {
        let s = data.subrange(off, data.len() as int);
        let (t, body) = frame_of(s)->Ok_0;
        let f = decode_field(t, body)->Ok_0->Some_0;
        let next = off + wire_length_of(body.len() as int);
        lemma_field_bytes_of_frame(s);
        lemma_frame_bounds(s);
        lemma_fields_bytes_push(acc, f);
        assert(fields_encodable(acc.push(f))) by {
            assert forall|k: int| 0 <= k < acc.push(f).len() implies #[trigger] field_encodable(
                acc.push(f)[k],
            ) by {
                if k < acc.len() {
                    assert(acc.push(f)[k] == acc[k]);
                }
            }
        }
        lemma_scan_untrusted_bytes(data, next, acc.push(f));
        let (fs, end, _) = scan_untrusted(data, off, acc)->Ok_0;
        assert(s.subrange(0, wire_length_of(body.len() as int)) =~= data.subrange(off, next));
        assert(data.subrange(off, end) =~= data.subrange(off, next) + data.subrange(next, end));
        assert(fields_bytes(fs) =~= fields_bytes(acc) + data.subrange(off, end));
    }
}

/// Whether the walk over the extension fields of `data` meets an NTS
/// encrypted field.
pub open spec fn holds_encrypted_field(data: Seq<u8>) -> bool {
    scan_untrusted(data, 48, Seq::empty()) matches Ok((_, _, Some(_)))
}

/// A trailer read from the end of `data` is written back as those octets.
pub proof fn lemma_trailer_bytes(data: Seq<u8>, end: int)
    requires
        0 <= end <= data.len(),
        trailer_of(data, end) is Ok,
    ensures
        (match trailer_of(data, end)->Ok_0 {
            Some(m) => mac_bytes(m),
            None => Seq::empty(),
        }) == data.subrange(end, data.len() as int),
{
    if end == data.len() {
        assert(data.subrange(end, end) =~= Seq::<u8>::empty());
    } else {
        let s = data.subrange(end, data.len() as int);
        lemma_bytes_u32_round_trip(s.subrange(0, 4));
        assert(mac_bytes(mac_of(s)->Ok_0) =~= s);
    }
}

/// The extension fields read from `data`, which holds no NTS encrypted
/// field, are written back as the octets they were read from.
pub proof fn lemma_plain_fields_bytes(
    data: Seq<u8>,
    key: Seq<u8>,
    prefix: Seq<u8>,
    write_key: Seq<u8>,
    nonce: Seq<u8>,
)
    requires
        data.len() >= 48,
        fields_of(data, 48, key) is Ok,
        !holds_encrypted_field(data),
    ensures
        ({
            let (ef, end) = fields_of(data, 48, key)->Ok_0;
            &&& 48 <= end <= data.len()
            &&& efdata_encodable(ef)
            &&& efdata_bytes(prefix, ef, write_key, nonce) == data.subrange(48, end)
        }),
{
    let (ef, end) = fields_of(data, 48, key)->Ok_0;
    assert(fields_encodable(Seq::<FieldView>::empty()));
    lemma_scan_untrusted_bytes(data, 48, Seq::empty());
    assert(fields_bytes(Seq::<FieldView>::empty()) =~= Seq::empty());
    assert(!has_encrypted_field(ef));
    assert(efdata_bytes(prefix, ef, write_key, nonce) =~= data.subrange(48, end));
}

/// A packet read from `data`, which holds no NTS encrypted field, can be
/// written, and is written as `data` itself, under any key and nonce.
#[verifier::rlimit(60)]
pub proof fn lemma_parse_serialize_round_trip(
    data: Seq<u8>,
    key: Seq<u8>,
    write_key: Seq<u8>,
    nonce: Seq<u8>,
)
    requires
        packet_of(data, key) is Ok,
        !holds_encrypted_field(data),
    ensures
        packet_encodable(packet_of(data, key)->Ok_0),
        packet_bytes(Seq::empty(), packet_of(data, key)->Ok_0, write_key, nonce) == data,
{
    let p = packet_of(data, key)->Ok_0;
    lemma_header_bytes_of_header(data);
    let h = header_bytes(p.header.fields(), p.header.version());
    let trailer = match p.mac {
        Some(m) => mac_bytes(m),
        None => Seq::empty(),
    };
    if version_of(data[0]) == 3 {
        lemma_trailer_bytes(data, 48);
        assert(data =~= data.subrange(0, 48) + data.subrange(48, data.len() as int));
    } else {
        lemma_plain_fields_bytes(data, key, Seq::empty() + h, write_key, nonce);
        let end = fields_of(data, 48, key)->Ok_0.1;
        lemma_trailer_bytes(data, end);
        assert(data =~= data.subrange(0, 48) + data.subrange(48, end) + data.subrange(
            end,
            data.len() as int,
        ));
    }
}

/// Reading back a packet written from what was read from `data`, which
/// holds no NTS encrypted field, gives the same packet.
pub proof fn lemma_serialize_parse_round_trip(
    data: Seq<u8>,
    key: Seq<u8>,
    write_key: Seq<u8>,
    nonce: Seq<u8>,
)
    requires
        packet_of(data, key) is Ok,
        !holds_encrypted_field(data),
    ensures
        packet_of(packet_bytes(Seq::empty(), packet_of(data, key)->Ok_0, write_key, nonce), key)
            == packet_of(data, key),
{
    lemma_parse_serialize_round_trip(data, key, write_key, nonce);
}

/// Whether a field is written as a frame that reads back as that field: it
/// fits, its frame is at least 16 octets, a unique identifier has 32 octets
/// or more, and an unknown field does not carry a type id that means more.
pub open spec fn field_readable(f: FieldView) -> bool {
    &&& field_encodable(f)
    &&& field_body(f).len() + 4 >= MINIMUM_FIELD_SIZE
    &&& match f {
        FieldView::UniqueIdentifier(b) => b.len() >= MINIMUM_UNIQUE_IDENTIFIER,
        FieldView::Unknown(t, _) => t != UNIQUE_IDENTIFIER_ID && t != NTS_COOKIE_ID && t
            != NTS_COOKIE_PLACEHOLDER_ID && t != NTS_ENCRYPTED_ID,
        _ => true,
    }
}

/// Whether every field of a sequence is written as a frame that reads back.
pub open spec fn fields_readable(fs: Seq<FieldView>) -> bool {
    forall|i: int| 0 <= i < fs.len() ==> #[trigger] field_readable(fs[i])
}

/// The frame of a readable field, followed by whole words, reads back as
/// that field.
pub proof fn lemma_frame_of_field_bytes(f: FieldView, rest: Seq<u8>)
    requires
        field_readable(f),
        rest.len() % 4 == 0,
    ensures
        field_bytes(f).len() % 4 == 0,
        field_bytes(f).len() == wire_length_of(field_body(f).len() as int),
        frame_of(field_bytes(f) + rest) == Ok::<_, crate::error::PacketParsingError>(
            (field_type(f), field_body(f)),
        ),
        decode_field(field_type(f), field_body(f)) == Ok::<_, crate::error::PacketParsingError>(
            Some(f),
        ),
{
    let t = field_type(f);
    let b = field_body(f);
    let s = field_bytes(f) + rest;
    let fl = (4 + b.len()) as u16;
    lemma_u16_round_trip(t);
    lemma_u16_round_trip(fl);
    assert(s.subrange(0, 2) =~= u16_bytes(t));
    assert(s.subrange(2, 4) =~= u16_bytes(fl));
    assert(s.subrange(4, fl as int) =~= b);
    assert(s.subrange(fl as int, pad4(fl as int)) =~= zeros(pad4(b.len() as int) - b.len()));
    if f is NtsCookiePlaceholder {
        assert(b.len() as u16 == f->NtsCookiePlaceholder_0);
    }
}

/// Frames written one after the other start with the first.
pub proof fn lemma_fields_bytes_cons(f: FieldView, fs: Seq<FieldView>)
    ensures
        fields_bytes(seq![f] + fs) == field_bytes(f) + fields_bytes(fs),
    decreases fs.len(),
{
    if fs.len() == 0 {
        assert(seq![f] + fs =~= seq![f]);
        assert(seq![f].drop_last() =~= Seq::<FieldView>::empty());
        assert(fields_bytes(Seq::<FieldView>::empty()) =~= Seq::empty());
        assert(fields_bytes(fs) =~= Seq::empty());
        assert(field_bytes(f) + fields_bytes(fs) =~= field_bytes(f));
    } else {
        lemma_fields_bytes_cons(f, fs.drop_last());
        assert((seq![f] + fs).drop_last() =~= seq![f] + fs.drop_last());
        assert(field_bytes(f) + fields_bytes(fs) =~= field_bytes(f) + fields_bytes(fs.drop_last())
            + field_bytes(fs.last()));
    }
}

/// A frame takes its 4-octet header and its body padded to whole words.
pub proof fn lemma_field_bytes_len(f: FieldView)
    ensures
        field_bytes(f).len() == wire_length_of(field_body(f).len() as int),
        field_bytes(f).len() % 4 == 0,
{
    let b = field_body(f);
    assert(u16_bytes(field_type(f)).len() == 2);
    assert(u16_bytes((4 + b.len()) as u16).len() == 2);
}

/// The frames of readable fields are whole words.
pub proof fn lemma_fields_bytes_words(fs: Seq<FieldView>)
    requires
        fields_readable(fs),
    ensures
        fields_bytes(fs).len() % 4 == 0,
    decreases fs.len(),
{
    if fs.len() > 0 {
        assert(fields_readable(fs.drop_last())) by {
            assert forall|i: int| 0 <= i < fs.drop_last().len() implies #[trigger] field_readable(
                fs.drop_last()[i],
            ) by {
                assert(fs.drop_last()[i] == fs[i]);
            }
        }
        lemma_fields_bytes_words(fs.drop_last());
        lemma_field_bytes_len(fs.last());
    }
}

/// The walk before any encrypted field reads written frames back as their
/// fields, where at least 28 octets follow them.
#[verifier::rlimit(40)]
pub proof fn lemma_scan_untrusted_fields(
    data: Seq<u8>,
    off: int,
    fs: Seq<FieldView>,
    acc: Seq<FieldView>,
)
    requires
        0 <= off,
        off + fields_bytes(fs).len() + MAC_MAXIMUM_SIZE <= data.len(),
        data.subrange(off, off + fields_bytes(fs).len()) == fields_bytes(fs),
        fields_readable(fs),
        (data.len() - off) % 4 == 0,
    ensures
        scan_untrusted(data, off, acc) == scan_untrusted(
            data,
            off + fields_bytes(fs).len(),
            acc + fs,
        ),
    decreases fs.len(),
{
    if fs.len() == 0 {
        assert(acc + fs =~= acc);
        assert(fields_bytes(fs) =~= Seq::empty());
    } else {
        let f = fs[0];
        let rest = fs.subrange(1, fs.len() as int);
        assert(fs =~= seq![f] + rest);
        lemma_fields_bytes_cons(f, rest);
        assert(fields_readable(rest)) by {
            assert forall|i: int| 0 <= i < rest.len() implies #[trigger] field_readable(rest[i]) by {
                assert(rest[i] == fs[i + 1]);
            }
        }
        assert(field_readable(fs[0]));
        let fb = field_bytes(f);
        let rb = fields_bytes(rest);
        lemma_field_bytes_len(f);
        let tail = data.subrange(off + fb.len(), data.len() as int);
        lemma_frame_of_field_bytes(f, tail);
        let whole = data.subrange(off, off + fb.len() + rb.len());
        assert(whole == fb + rb);
        assert(data.subrange(off, off + fb.len()) =~= whole.subrange(0, fb.len() as int));
        assert(whole.subrange(0, fb.len() as int) =~= fb);
        assert(data.subrange(off, data.len() as int) =~= fb + tail);
        assert(data.subrange(off + fb.len(), off + fb.len() + rb.len()) =~= whole.subrange(
            fb.len() as int,
            (fb.len() + rb.len()) as int,
        ));
        assert(whole.subrange(fb.len() as int, (fb.len() + rb.len()) as int) =~= rb);
        lemma_scan_untrusted_fields(data, off + fb.len(), rest, acc.push(f));
        assert(acc.push(f) + rest =~= acc + fs);
    }
}

/// The walk over frames written from readable fields, followed by a trailer
/// of fewer than 28 octets, reads back those fields and stops at the trailer.
pub proof fn lemma_plain_walk(data: Seq<u8>, fs: Seq<FieldView>, trailer_len: int)
    requires
        data.len() == 48 + fields_bytes(fs).len() + trailer_len,
        data.subrange(48, 48 + fields_bytes(fs).len() as int) == fields_bytes(fs),
        fields_readable(fs),
        0 <= trailer_len < MAC_MAXIMUM_SIZE,
        fs.len() > 0 ==> field_bytes(fs.last()).len() + trailer_len >= MAC_MAXIMUM_SIZE
            && trailer_len % 4 == 0,
    ensures
        scan_untrusted(data, 48, Seq::empty()) == Ok::<_, crate::error::PacketParsingError>(
            (fs, 48 + fields_bytes(fs).len() as int, None::<(Seq<u8>, Seq<u8>, int)>),
        ),
{
    if fs.len() == 0 {
        assert(fields_bytes(fs) =~= Seq::empty());
        assert(fs =~= Seq::<FieldView>::empty());
    } else {
        let init = fs.drop_last();
        let last = fs.last();
        let fi = fields_bytes(init);
        let fl = field_bytes(last);
        assert(fields_readable(init)) by {
            assert forall|i: int| 0 <= i < init.len() implies #[trigger] field_readable(init[i]) by {
                assert(init[i] == fs[i]);
            }
        }
        assert(field_readable(fs[fs.len() - 1]));
        lemma_fields_bytes_words(fs);
        lemma_field_bytes_len(last);
        let all = data.subrange(48, 48 + fields_bytes(fs).len() as int);
        assert(data.subrange(48, 48 + fi.len() as int) =~= all.subrange(0, fi.len() as int));
        assert(all.subrange(0, fi.len() as int) =~= fi);
        lemma_scan_untrusted_fields(data, 48, init, Seq::empty());
        assert(Seq::<FieldView>::empty() + init =~= init);
        let off: int = 48 + fi.len() as int;
        let trailer = data.subrange(off + fl.len() as int, data.len() as int);
        lemma_frame_of_field_bytes(last, trailer);
        assert(data.subrange(off, off + fl.len() as int) =~= all.subrange(fi.len() as int, (fi.len()
            + fl.len()) as int));
        assert(all.subrange(fi.len() as int, (fi.len() + fl.len()) as int) =~= fl);
        assert(data.subrange(off, data.len() as int) =~= fl + trailer);
        let next = off + fl.len() as int;
        assert(data.len() - next < MAC_MAXIMUM_SIZE);
        assert(scan_untrusted(data, next, init.push(last)) == Ok::<
            _,
            crate::error::PacketParsingError,
        >((init.push(last), next, None::<(Seq<u8>, Seq<u8>, int)>)));
        assert(scan_untrusted(data, off, init) == scan_untrusted(data, next, init.push(last)));
        assert(init.push(last) =~= fs);
    }
}

/// Whether the parser reads `p` back from its own encoding: its durations
/// are exact 16.16 values; it has neither authenticated nor encrypted fields,
/// and no fields at all in version 3; its fields are readable; the last frame
/// and the trailer take at least 28 octets, and the trailer whole words; a
/// trailer takes 4 to 27 octets.
pub open spec fn packet_readable(p: PacketView) -> bool {
    let fs = p.efdata.untrusted;
    let trailer_len: int = match p.mac {
        Some(m) => 4 + m.1.len() as int,
        None => 0,
    };
    &&& short_exact(p.header.fields())
    &&& p.efdata.authenticated.len() == 0
    &&& p.efdata.encrypted.len() == 0
    &&& p.header is V3 ==> fs.len() == 0
    &&& fields_readable(fs)
    &&& fs.len() > 0 ==> field_bytes(fs.last()).len() + trailer_len >= MAC_MAXIMUM_SIZE
        && trailer_len % 4 == 0
    &&& trailer_len < MAC_MAXIMUM_SIZE
}

/// A readable packet can be written, and reading what was written gives
/// the packet back, under any key and nonce.
#[verifier::rlimit(40)]
pub proof fn lemma_constructed_round_trip(
    p: PacketView,
    key: Seq<u8>,
    write_key: Seq<u8>,
    nonce: Seq<u8>,
)
    requires
        packet_readable(p),
    ensures
        packet_encodable(p),
        packet_of(packet_bytes(Seq::empty(), p, write_key, nonce), key) == Ok::<
            _,
            crate::error::PacketParsingError,
        >(p),
{
    let version = p.header.version();
    let h = header_bytes(p.header.fields(), version);
    lemma_header_of_header_bytes(p.header.fields(), version);
    let fs = p.efdata.untrusted;
    let fb = fields_bytes(fs);
    let trailer = match p.mac {
        Some(m) => mac_bytes(m),
        None => Seq::empty(),
    };
    let data = packet_bytes(Seq::empty(), p, write_key, nonce);
    assert(fields_bytes(Seq::<FieldView>::empty()) =~= Seq::empty());
    assert(p.efdata.authenticated =~= Seq::empty());
    assert(!crate::container::has_encrypted_field(p.efdata));
    assert(fields_encodable(fs)) by {
        assert forall|i: int| 0 <= i < fs.len() implies #[trigger] field_encodable(fs[i]) by {
            assert(field_readable(fs[i]));
        }
    }
    if p.header is V3 {
        assert(fs =~= Seq::<FieldView>::empty());
    }
    assert(data =~= h + fb + trailer);
    assert(data.subrange(0, 48) =~= h.subrange(0, 48));
    lemma_header_of_prefix(data, h);
    assert(data[0] == h[0]);
    assert(data.subrange(48, 48 + fb.len() as int) =~= fb);
    assert(data.subrange(48 + fb.len() as int, data.len() as int) =~= trailer);
    if let Some(m) = p.mac {
        lemma_u32_round_trip(m.0);
        assert(trailer.subrange(0, 4) =~= crate::bytes::u32_bytes(m.0));
        assert(trailer.subrange(4, trailer.len() as int) =~= m.1);
    }
    if p.header is V4 {
        lemma_plain_walk(data, fs, trailer.len() as int);
    }
    assert(p.efdata.encrypted =~= Seq::empty());
    assert(p.header is V3 ==> p.efdata == no_fields());
}

/// The walk over a decrypted plaintext reads written frames back as their
/// fields.
pub proof fn lemma_scan_encrypted_fields(p: Seq<u8>, off: int, fs: Seq<FieldView>, acc: Seq<FieldView>)
    requires
        0 <= off <= p.len(),
        p.subrange(off, p.len() as int) == fields_bytes(fs),
        fields_readable(fs),
    ensures
        scan_encrypted(p, off, acc) == Ok::<_, crate::error::PacketParsingError>(acc + fs),
    decreases fs.len(),
{
    if fs.len() == 0 {
        assert(acc + fs =~= acc);
        assert(fields_bytes(fs) =~= Seq::empty());
        assert(p.subrange(off, p.len() as int).len() == 0);
    } else {
        let f = fs[0];
        let rest = fs.subrange(1, fs.len() as int);
        assert(fs =~= seq![f] + rest);
        lemma_fields_bytes_cons(f, rest);
        assert(fields_readable(rest)) by {
            assert forall|i: int| 0 <= i < rest.len() implies #[trigger] field_readable(rest[i]) by {
                assert(rest[i] == fs[i + 1]);
            }
        }
        assert(field_readable(fs[0]));
        lemma_fields_bytes_words(rest);
        let fb = field_bytes(f);
        let rb = fields_bytes(rest);
        lemma_field_bytes_len(f);
        lemma_frame_of_field_bytes(f, rb);
        assert(p.subrange(off, p.len() as int) == fb + rb);
        assert(p.subrange(off + fb.len() as int, p.len() as int) =~= p.subrange(
            off,
            p.len() as int,
        ).subrange(fb.len() as int, (fb.len() + rb.len()) as int));
        assert((fb + rb).subrange(fb.len() as int, (fb.len() + rb.len()) as int) =~= rb);
        lemma_scan_encrypted_fields(p, off + fb.len() as int, rest, acc.push(f));
        assert(acc.push(f) + rest =~= acc + fs);
    }
}

/// The encrypted field written with a 16-octet nonce reads back as that
/// nonce and ciphertext.
pub proof fn lemma_encrypted_frame(nonce: Seq<u8>, ct: Seq<u8>, rest: Seq<u8>)
    requires
        nonce.len() == NONCE_LENGTH,
        8 + pad4(NONCE_LENGTH + ct.len()) <= 0xFFFF,
        rest.len() % 4 == 0,
    ensures
        ({
            let s = encrypted_field_bytes(nonce, ct) + rest;
            let body = s.subrange(4, 4 + 20 + pad4(ct.len() as int));
            &&& encrypted_field_bytes(nonce, ct).len() == 24 + pad4(ct.len() as int)
            &&& frame_of(s) == Ok::<_, crate::error::PacketParsingError>((NTS_ENCRYPTED_ID, body))
            &&& decode_field(NTS_ENCRYPTED_ID, body) == Ok::<
                Option<FieldView>,
                crate::error::PacketParsingError,
            >(None)
            &&& encrypted_parts(body) == Ok::<_, crate::error::PacketParsingError>((nonce, ct))
            &&& wire_length_of(body.len() as int) == 24 + pad4(ct.len() as int)
        }),
{
    let c = ct.len() as int;
    let e = encrypted_field_bytes(nonce, ct);
    let s = e + rest;
    let fl = (8 + pad4(NONCE_LENGTH + c)) as u16;
    assert(pad4(NONCE_LENGTH + c) == NONCE_LENGTH + pad4(c));
    lemma_u16_round_trip(NTS_ENCRYPTED_ID);
    lemma_u16_round_trip(fl);
    lemma_u16_round_trip(16);
    lemma_u16_round_trip(c as u16);
    assert(s.subrange(0, 2) =~= u16_bytes(NTS_ENCRYPTED_ID));
    assert(s.subrange(2, 4) =~= u16_bytes(fl));
    let body = s.subrange(4, 4 + 20 + pad4(c));
    assert(body.subrange(0, 2) =~= u16_bytes(16));
    assert(body.subrange(2, 4) =~= u16_bytes(c as u16));
    assert(body.subrange(4, 20) =~= nonce);
    assert(body.subrange(20, 20 + c) =~= ct);
    assert(body.subrange(20, 20) =~= Seq::<u8>::empty());
    assert(s.subrange(fl as int, pad4(fl as int)) =~= Seq::<u8>::empty());
}

/// Whether the parser reads the NTS packet `p` back from its own encoding
/// with a 16-octet nonce: version 4, exact durations, an encrypted field,
/// readable authenticated and encrypted fields that fit the encrypted field,
/// and neither untrusted fields nor a trailer.
pub open spec fn nts_readable(p: PacketView, nonce: Seq<u8>) -> bool {
    &&& p.header is V4
    &&& short_exact(p.header.fields())
    &&& has_encrypted_field(p.efdata)
    &&& fields_readable(p.efdata.authenticated)
    &&& fields_readable(p.efdata.encrypted)
    &&& sealed_encodable(fields_bytes(p.efdata.encrypted).len() as int)
    &&& p.efdata.untrusted.len() == 0
    &&& p.mac is None
    &&& nonce.len() == NONCE_LENGTH
}

/// The extension fields of an NTS packet's encoding read back as its
/// authenticated and encrypted fields, where its sealed fields open again.
#[verifier::rlimit(60)]
pub proof fn lemma_nts_fields_of(
    data: Seq<u8>,
    h: Seq<u8>,
    auth: Seq<FieldView>,
    enc: Seq<FieldView>,
    key: Seq<u8>,
    nonce: Seq<u8>,
)
    requires
        h.len() == 48,
        nonce.len() == NONCE_LENGTH,
        fields_readable(auth),
        fields_readable(enc),
        sealed_encodable(fields_bytes(enc).len() as int),
        sealing_opens(key, nonce, fields_bytes(enc), h + fields_bytes(auth)),
        data == h + fields_bytes(auth) + encrypted_field_bytes(
            nonce,
            siv_seal(key, nonce, fields_bytes(enc), h + fields_bytes(auth)),
        ),
    ensures
        fields_of(data, 48, key) == Ok::<_, crate::error::PacketParsingError>(
            (EfView { authenticated: auth, encrypted: enc, untrusted: Seq::empty() }, data.len() as int),
        ),
{
    let a = fields_bytes(auth);
    let pt = fields_bytes(enc);
    let aad = h + a;
    let ct = siv_seal(key, nonce, pt, aad);
    let e = encrypted_field_bytes(nonce, ct);
    assert(pad4(NONCE_LENGTH + pt.len() + 16) == NONCE_LENGTH + pad4((pt.len() + 16) as int));
    lemma_encrypted_frame(nonce, ct, Seq::empty());
    lemma_fields_bytes_words(auth);
    let off: int = 48 + a.len() as int;
    assert(data.subrange(48, off) =~= a);
    lemma_scan_untrusted_fields(data, 48, auth, Seq::empty());
    assert(Seq::<FieldView>::empty() + auth =~= auth);
    assert(data.subrange(off, data.len() as int) =~= e + Seq::empty());
    assert(data.subrange(0, off) =~= aad);
    assert(scan_untrusted(data, off, auth) == Ok::<_, crate::error::PacketParsingError>(
        (auth, data.len() as int, Some((nonce, ct, off))),
    ));
    assert(pt.subrange(0, pt.len() as int) =~= pt);
    lemma_scan_encrypted_fields(pt, 0, enc, Seq::empty());
    assert(Seq::<FieldView>::empty() + enc =~= enc);
    assert(scan_after(data, data.len() as int, Seq::empty()) == Ok::<
        _,
        crate::error::PacketParsingError,
    >((Seq::<FieldView>::empty(), data.len() as int)));
}

/// Every frame of an NTS packet that reads back fits its length.
pub proof fn lemma_nts_encodable(p: PacketView, nonce: Seq<u8>)
    requires
        nts_readable(p, nonce),
    ensures
        packet_encodable(p),
{
    assert(fields_encodable(p.efdata.authenticated)) by {
        assert forall|i: int| 0 <= i < p.efdata.authenticated.len() implies #[trigger] field_encodable(
            p.efdata.authenticated[i],
        ) by {
            assert(field_readable(p.efdata.authenticated[i]));
        }
    }
    assert(fields_encodable(p.efdata.encrypted)) by {
        assert forall|i: int| 0 <= i < p.efdata.encrypted.len() implies #[trigger] field_encodable(
            p.efdata.encrypted[i],
        ) by {
            assert(field_readable(p.efdata.encrypted[i]));
        }
    }
}

/// An NTS packet written into an empty buffer reads back as itself with
/// the same key, where its sealed fields open again.
pub proof fn lemma_nts_round_trip(p: PacketView, key: Seq<u8>, nonce: Seq<u8>)
    requires
        nts_readable(p, nonce),
        sealing_opens(
            key,
            nonce,
            fields_bytes(p.efdata.encrypted),
            header_bytes(p.header.fields(), 4) + fields_bytes(p.efdata.authenticated),
        ),
    ensures
        packet_of(packet_bytes(Seq::empty(), p, key, nonce), key) == Ok::<
            _,
            crate::error::PacketParsingError,
        >(p),
{
    let h = header_bytes(p.header.fields(), 4);
    lemma_header_of_header_bytes(p.header.fields(), 4);
    let auth = p.efdata.authenticated;
    let enc = p.efdata.encrypted;
    let a = fields_bytes(auth);
    let ct = siv_seal(key, nonce, fields_bytes(enc), h + a);
    let data = packet_bytes(Seq::empty(), p, key, nonce);
    assert(fields_bytes(Seq::<FieldView>::empty()) =~= Seq::empty());
    assert(p.efdata.untrusted =~= Seq::empty());
    assert(Seq::<u8>::empty() + h =~= h);
    assert(data =~= h + a + encrypted_field_bytes(nonce, ct));
    assert(data.subrange(0, 48) =~= h.subrange(0, 48));
    lemma_header_of_prefix(data, h);
    assert(data[0] == h[0]);
    lemma_nts_fields_of(data, h, auth, enc, key, nonce);
    assert(p.efdata == EfView { authenticated: auth, encrypted: enc, untrusted: Seq::empty() });
}

} // verus!
