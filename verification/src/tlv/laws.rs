//! What the wire format promises: what parsing, event extraction and field
//! extraction give back of an encoded message, and what reading a field
//! gives back of a write.

use vstd::prelude::*;
use crate::tlv::message::TLVMessage;
use crate::tlv::types::{
    EventType, FieldType, field_type_byte, law_event_type_byte_roundtrip, law_field_type_byte_roundtrip,
};
use crate::tlv::wire::{
    be_u32_bytes, be_u32_value, decode_event, decode_fields, decode_message, entry_position, field_bytes, fields_bytes,
    field_types_distinct, find_field, insert_entry, lemma_be_u32_roundtrip, lemma_entry_position,
    lookup_entry, message_bytes, scan_field,
};

verus! {

/// Every value in the list is shorter than 2^32 bytes, so that its length
/// fits the 4-byte length of a field.
pub open spec fn values_fit(fs: Seq<(FieldType, Seq<u8>)>) -> bool {
    forall|i: int| 0 <= i < fs.len() ==> fs[i].1.len() < 0x1_0000_0000
}

/// The first field of an encoded list, split off: its type byte, its length
/// and its value, followed by the bytes of the rest of the list.
proof fn lemma_first_field_layout(fs: Seq<(FieldType, Seq<u8>)>)
    requires
        fs.len() > 0,
        fs[0].1.len() < 0x1_0000_0000,
    ensures
        ({
            let s = fields_bytes(fs);
            let n = fs[0].1.len() as int;
            &&& s.len() >= 5
            &&& s[0] == field_type_byte(fs[0].0)
            &&& crate::tlv::wire::be_u32_value(s.subrange(1, 5)) == n
            &&& s.len() - 5 >= n
            &&& s.subrange(5, 5 + n) == fs[0].1
            &&& s.subrange(5 + n, s.len() as int) == fields_bytes(fs.drop_first())
        }),
{
    let s = fields_bytes(fs);
    let v = fs[0].1;
    let n = v.len() as int;
    lemma_be_u32_roundtrip(n);
    assert(s == field_bytes(fs[0].0, v) + fields_bytes(fs.drop_first()));
    assert(s.subrange(1, 5) =~= be_u32_bytes(n));
    assert(s.subrange(5, 5 + n) =~= v);
    assert(s.subrange(5 + n, s.len() as int) =~= fields_bytes(fs.drop_first()));
}

/// Decoding the bytes of a list of fields with distinct types appends the
/// list to what was decoded before.
pub proof fn lemma_decode_fields_bytes(fs: Seq<(FieldType, Seq<u8>)>, acc: Seq<(FieldType, Seq<u8>)>)
    requires
        field_types_distinct(acc + fs),
        values_fit(fs),
    ensures
        decode_fields(fields_bytes(fs), acc) == Ok::<_, (crate::error::ErrorCode, Seq<char>)>(acc + fs),
    decreases fs.len(),
{
    if fs.len() == 0 {
        assert(acc + fs =~= acc);
        assert(fields_bytes(fs) =~= Seq::<u8>::empty());
    } else {
        let t = fs[0].0;
        let v = fs[0].1;
        let rest = fs.drop_first();
        lemma_first_field_layout(fs);
        law_field_type_byte_roundtrip(t);
        lemma_entry_position(acc, t);
        assert forall|j: int| 0 <= j < acc.len() implies acc[j].0 != t by {
            assert((acc + fs)[j] == acc[j]);
            assert((acc + fs)[acc.len() as int] == fs[0]);
        }
        assert(insert_entry(acc, t, v) == acc.push((t, v)));
        assert(acc.push((t, v)) + rest =~= acc + fs);
        assert forall|i: int| 0 <= i < rest.len() implies rest[i].1.len() < 0x1_0000_0000 by {
            assert(rest[i] == fs[i + 1]);
        }
        lemma_decode_fields_bytes(rest, acc.push((t, v)));
    }
}

/// Parsing an encoded message gives back its event type and its fields.
pub proof fn law_parse_after_encode(et: EventType, fs: Seq<(FieldType, Seq<u8>)>)
    requires
        field_types_distinct(fs),
        values_fit(fs),
    ensures
        decode_message(message_bytes(et, fs)) == Ok::<_, (crate::error::ErrorCode, Seq<char>)>((et, fs)),
{
    let raw = message_bytes(et, fs);
    let body = fields_bytes(fs);
    law_event_type_byte_roundtrip(et);
    assert(raw.subrange(5, raw.len() as int) =~= body);
    assert(Seq::<(FieldType, Seq<u8>)>::empty() + fs =~= fs);
    lemma_decode_fields_bytes(fs, Seq::empty());
}

/// The event type extracted from an encoded message is its event type.
pub proof fn law_extract_event_after_encode(et: EventType, fs: Seq<(FieldType, Seq<u8>)>)
    ensures
        decode_event(message_bytes(et, fs)) == Ok::<_, (crate::error::ErrorCode, Seq<char>)>(et),
{
    law_event_type_byte_roundtrip(et);
}

/// The value that a field of a given type has in a list: that of the first
/// such field, or empty.
pub open spec fn value_or_empty(fs: Seq<(FieldType, Seq<u8>)>, t: FieldType) -> Seq<u8> {
    match lookup_entry(fs, t) {
        Some(v) => v,
        None => Seq::empty(),
    }
}

/// Scanning the bytes of a list of fields finds the value of the first field
/// of the target type, or nothing.
pub proof fn lemma_scan_fields_bytes(fs: Seq<(FieldType, Seq<u8>)>, target: FieldType)
    requires
        values_fit(fs),
    ensures
        scan_field(fields_bytes(fs), target) == Ok::<_, (crate::error::ErrorCode, Seq<char>)>(
            value_or_empty(fs, target),
        ),
    decreases fs.len(),
{
    if fs.len() == 0 {
        assert(fields_bytes(fs) =~= Seq::<u8>::empty());
    } else {
        let rest = fs.drop_first();
        lemma_first_field_layout(fs);
        law_field_type_byte_roundtrip(fs[0].0);
        if fs[0].0 != target {
            assert forall|i: int| 0 <= i < rest.len() implies rest[i].1.len() < 0x1_0000_0000 by {
                assert(rest[i] == fs[i + 1]);
            }
            lemma_scan_fields_bytes(rest, target);
            let p = entry_position(rest, target);
            assert(entry_position(fs, target) == if p < 0 { -1 } else { p + 1 });
            if p >= 0 {
                lemma_entry_position(rest, target);
                assert(fs[p + 1] == rest[p]);
            }
        }
    }
}

/// Extracting a field from an encoded message gives the value of the first
/// field of that type, or an empty value when it has none.
pub proof fn law_extract_field_after_encode(et: EventType, fs: Seq<(FieldType, Seq<u8>)>, target: FieldType)
    requires
        values_fit(fs),
    ensures
        find_field(message_bytes(et, fs), target) == Ok::<_, (crate::error::ErrorCode, Seq<char>)>(
            value_or_empty(fs, target),
        ),
{
    let raw = message_bytes(et, fs);
    assert(raw.subrange(5, raw.len() as int) =~= fields_bytes(fs));
    lemma_scan_fields_bytes(fs, target);
}

/// A message survives its encoding: parsing the bytes that `encode` writes
/// gives back its event type and its fields in order, and extracting a field
/// from them gives the value that `get_field` reads (empty when it has none).
pub proof fn law_message_roundtrip(m: &TLVMessage, f: FieldType)
    requires
        m.well_formed(),
        values_fit(m.entries()),
    ensures
        decode_message(message_bytes(m.event(), m.entries())) == Ok::<_, (crate::error::ErrorCode, Seq<char>)>(
            (m.event(), m.entries()),
        ),
        find_field(message_bytes(m.event(), m.entries()), f) == Ok::<_, (crate::error::ErrorCode, Seq<char>)>(
            value_or_empty(m.entries(), f),
        ),
{
    law_parse_after_encode(m.event(), m.entries());
    law_extract_field_after_encode(m.event(), m.entries(), f);
}

/// The 4-byte header of an encoded message holds the length of the whole
/// encoding (header, event type byte and every field), taken modulo 2^32 as
/// a `u32`; so a reader that takes the header as the frame's length reads
/// exactly this message.
pub proof fn law_header_is_frame_length(et: EventType, fs: Seq<(FieldType, Seq<u8>)>)
    ensures
        message_bytes(et, fs).len() >= 5,
        be_u32_value(message_bytes(et, fs).subrange(0, 4)) == message_bytes(et, fs).len() % 0x1_0000_0000,
        message_bytes(et, fs).len() < 0x1_0000_0000 ==> be_u32_value(message_bytes(et, fs).subrange(0, 4))
            == message_bytes(et, fs).len(),
{
    let m = message_bytes(et, fs);
    let body = fields_bytes(fs);
    let n = ((5 + body.len()) % 0x1_0000_0000) as int;
    lemma_be_u32_roundtrip(n);
    assert(m.len() == 5 + body.len());
    assert(m.subrange(0, 4) =~= be_u32_bytes(n));
}

/// Reading a field after setting it gives the value set; the other fields
/// read as before.
pub proof fn law_get_after_insert(fs: Seq<(FieldType, Seq<u8>)>, t: FieldType, v: Seq<u8>, u: FieldType)
    ensures
        lookup_entry(insert_entry(fs, t, v), u) == if u == t { Some(v) } else { lookup_entry(fs, u) },
{
    let g = insert_entry(fs, t, v);
    lemma_entry_position(fs, t);
    lemma_entry_position(fs, u);
    lemma_entry_position(g, u);
    let p = entry_position(fs, t);
    let q = entry_position(fs, u);
    let r = entry_position(g, u);
    if p >= 0 {
        assert(g.len() == fs.len());
        assert forall|j: int| 0 <= j < g.len() implies g[j].0 == fs[j].0 by {}
    } else {
        assert(g == fs.push((t, v)));
        assert forall|j: int| 0 <= j < fs.len() implies g[j] == fs[j] by {}
    }
    // first positions agree: r and q (or p) are both the first index of their type
    if u == t {
        if p >= 0 {
            assert(r == p);
            assert(g[p] == (t, v));
        } else {
            assert(g[fs.len() as int] == (t, v));
            assert(r == fs.len());
        }
    } else {
        assert(r == q);
        if q >= 0 {
            assert(g[q] == fs[q]);
        }
    }
}

} // verus!
