//! The byte layout of a TLV message, as spec functions, with the small
//! big-endian helpers that read and write it.
//!
//! A message is a 4-byte big-endian total length, one event-type byte, then
//! its fields; each field is one field-type byte, a 4-byte big-endian value
//! length, then the value bytes.

use vstd::prelude::*;
use crate::error::ErrorCode;
use crate::tlv::types::{
    EventType, FieldType, event_type_byte, event_type_of_byte, field_type_byte, field_type_of_byte,
    unknown_event_type_text, unknown_field_type_text,
};

verus! {

/// The four big-endian bytes of `n` (for `0 <= n < 2^32`).
pub open spec fn be_u32_bytes(n: int) -> Seq<u8> {
    seq![
        (n / 0x100_0000 % 256) as u8,
        (n / 0x1_0000 % 256) as u8,
        (n / 0x100 % 256) as u8,
        (n % 256) as u8,
    ]
}

/// The value of the first four bytes of `s`, read big-endian.
pub open spec fn be_u32_value(s: Seq<u8>) -> int {
    s[0] * 0x100_0000 + s[1] * 0x1_0000 + s[2] * 0x100 + s[3]
}

/// Reading back the big-endian bytes of a 32-bit value gives the value.
pub proof fn lemma_be_u32_roundtrip(n: int)
    requires
        0 <= n < 0x1_0000_0000,
    ensures
        be_u32_bytes(n).len() == 4,
        be_u32_value(be_u32_bytes(n)) == n,
{
    let b = be_u32_bytes(n);
    assert(n / 0x100_0000 < 256) by (nonlinear_arith)
        requires 0 <= n < 0x1_0000_0000;
    assert(b[0] == n / 0x100_0000);
    assert(b[1] == n / 0x1_0000 % 256);
    assert(b[2] == n / 0x100 % 256);
    assert(b[3] == n % 256);
    assert(
        (n / 0x100_0000) * 0x100_0000 + (n / 0x1_0000 % 256) * 0x1_0000
            + (n / 0x100 % 256) * 0x100 + n % 256 == n
    ) by (nonlinear_arith)
        requires 0 <= n < 0x1_0000_0000;
}

/// The bytes of one field. The length travels modulo 2^32, as a `u32`.
pub open spec fn field_bytes(t: FieldType, v: Seq<u8>) -> Seq<u8> {
    seq![field_type_byte(t)] + be_u32_bytes((v.len() % 0x1_0000_0000) as int) + v
}

/// The bytes of a list of fields, in order.
pub open spec fn fields_bytes(fs: Seq<(FieldType, Seq<u8>)>) -> Seq<u8>
    decreases fs.len(),
{
    if fs.len() == 0 {
        Seq::empty()
    } else {
        field_bytes(fs[0].0, fs[0].1) + fields_bytes(fs.drop_first())
    }
}

/// The bytes of a whole message: total length, event type, fields.
pub open spec fn message_bytes(et: EventType, fs: Seq<(FieldType, Seq<u8>)>) -> Seq<u8> {
    let body = fields_bytes(fs);
    be_u32_bytes(((5 + body.len()) % 0x1_0000_0000) as int) + seq![event_type_byte(et)] + body
}

/// Appending a field to the list appends its bytes.
pub proof fn lemma_fields_bytes_push(fs: Seq<(FieldType, Seq<u8>)>, t: FieldType, v: Seq<u8>)
    ensures
        fields_bytes(fs.push((t, v))) == fields_bytes(fs) + field_bytes(t, v),
    decreases fs.len(),
{
    if fs.len() == 0 {
        let p = fs.push((t, v));
        assert(p.drop_first() =~= Seq::<(FieldType, Seq<u8>)>::empty());
        assert(fields_bytes(p.drop_first()) == Seq::<u8>::empty());
        assert(p[0] == (t, v));
        assert(fields_bytes(p) == field_bytes(t, v) + Seq::<u8>::empty());
        assert(fields_bytes(p) =~= fields_bytes(fs) + field_bytes(t, v));
    } else {
        lemma_fields_bytes_push(fs.drop_first(), t, v);
        assert(fs.push((t, v)).drop_first() =~= fs.drop_first().push((t, v)));
        assert(fields_bytes(fs.push((t, v))) =~= fields_bytes(fs) + field_bytes(t, v));
    }
}

/// The bytes of a prefix of the list are no longer than those of the list.
pub proof fn lemma_fields_bytes_prefix(fs: Seq<(FieldType, Seq<u8>)>, k: int)
    requires
        0 <= k <= fs.len(),
    ensures
        fields_bytes(fs.take(k)).len() <= fields_bytes(fs).len(),
    decreases fs.len() - k,
{
    if k < fs.len() {
        lemma_fields_bytes_prefix(fs, k + 1);
        lemma_fields_bytes_push(fs.take(k), fs[k].0, fs[k].1);
        assert(fs.take(k).push(fs[k]) =~= fs.take(k + 1));
    } else {
        assert(fs.take(k) =~= fs);
    }
}

/// The position of the first field of type `t`, or -1 when there is none.
pub open spec fn entry_position(fs: Seq<(FieldType, Seq<u8>)>, t: FieldType) -> int
    decreases fs.len(),
{
    if fs.len() == 0 {
        -1
    } else if fs[0].0 == t {
        0
    } else {
        let p = entry_position(fs.drop_first(), t);
        if p < 0 { -1 } else { p + 1 }
    }
}

/// The value of the first field of type `t`, if there is one.
pub open spec fn lookup_entry(fs: Seq<(FieldType, Seq<u8>)>, t: FieldType) -> Option<Seq<u8>> {
    let p = entry_position(fs, t);
    if p >= 0 { Some(fs[p].1) } else { None }
}

/// The list with field `t` set to `v`: the first field of that type is
/// overwritten, or the field is appended when there is none.
pub open spec fn insert_entry(fs: Seq<(FieldType, Seq<u8>)>, t: FieldType, v: Seq<u8>) -> Seq<(FieldType, Seq<u8>)> {
    let p = entry_position(fs, t);
    if p >= 0 { fs.update(p, (t, v)) } else { fs.push((t, v)) }
}

/// No two fields of the list have the same type.
pub open spec fn field_types_distinct(fs: Seq<(FieldType, Seq<u8>)>) -> bool {
    forall|i: int, j: int| 0 <= i < j < fs.len() ==> fs[i].0 != fs[j].0
}

/// `entry_position` is the first position of a field of type `t`.
pub proof fn lemma_entry_position(fs: Seq<(FieldType, Seq<u8>)>, t: FieldType)
    ensures
        -1 <= entry_position(fs, t) < fs.len(),
        entry_position(fs, t) == -1 <==> forall|j: int| 0 <= j < fs.len() ==> fs[j].0 != t,
        entry_position(fs, t) >= 0 ==> fs[entry_position(fs, t)].0 == t,
        forall|j: int| 0 <= j < entry_position(fs, t) ==> fs[j].0 != t,
    decreases fs.len(),
{
    if fs.len() > 0 && fs[0].0 != t {
        lemma_entry_position(fs.drop_first(), t);
        assert forall|j: int| 1 <= j < fs.len() implies fs[j].0 == fs.drop_first()[j - 1].0 by {}
    }
}

/// Setting a field keeps the types distinct.
pub proof fn lemma_insert_entry_distinct(fs: Seq<(FieldType, Seq<u8>)>, t: FieldType, v: Seq<u8>)
    requires
        field_types_distinct(fs),
    ensures
        field_types_distinct(insert_entry(fs, t, v)),
{
    lemma_entry_position(fs, t);
}

/// A list with distinct field types holds at most one field of each of the
/// nine types.
pub proof fn lemma_distinct_fields_bounded(fs: Seq<(FieldType, Seq<u8>)>)
    requires
        field_types_distinct(fs),
    ensures
        fs.len() <= 9,
{
    broadcast use vstd::set::group_set_axioms;
    let ts = fs.map_values(|e: (FieldType, Seq<u8>)| e.0);
    assert(ts.no_duplicates()) by {
        assert forall|i: int, j: int| 0 <= i < ts.len() && 0 <= j < ts.len() && i != j implies ts[i] != ts[j] by {
            if i < j {
            } else {
            }
        }
    }
    ts.unique_seq_to_set();
    let all = Set::<FieldType>::empty().insert(FieldType::Key).insert(FieldType::Value).insert(
        FieldType::Ttl,
    ).insert(FieldType::Persistent).insert(FieldType::Group).insert(FieldType::Timestamp).insert(
        FieldType::Version,
    ).insert(FieldType::ErrorCode).insert(FieldType::ErrorText);
    assert(all.len() == 9);
    assert(ts.to_set().subset_of(all)) by {
        assert forall|x: FieldType| ts.to_set().contains(x) implies all.contains(x) by {
            match x {
                FieldType::Key => {},
                FieldType::Value => {},
                FieldType::Ttl => {},
                FieldType::Persistent => {},
                FieldType::Group => {},
                FieldType::Timestamp => {},
                FieldType::Version => {},
                FieldType::ErrorCode => {},
                FieldType::ErrorText => {},
            }
        }
    }
    vstd::set_lib::lemma_len_subset(ts.to_set(), all);
}

/// What decoding the fields in `s` gives, folding each into `acc` as
/// `insert_field` does: the fields, or the code and message of the error.
/// Fewer than five trailing bytes end the fields and are ignored.
pub open spec fn decode_fields(s: Seq<u8>, acc: Seq<(FieldType, Seq<u8>)>) -> Result<Seq<(FieldType, Seq<u8>)>, (ErrorCode, Seq<char>)>
    decreases s.len(),
{
    if s.len() < 5 {
        Ok(acc)
    } else {
        match field_type_of_byte(s[0]) {
            None => Err((ErrorCode::MalformedTlv, unknown_field_type_text(s[0]))),
            Some(t) => {
                let n = be_u32_value(s.subrange(1, 5));
                if s.len() - 5 < n {
                    Err((ErrorCode::MalformedTlv, "Incomplete TLV field"@))
                } else {
                    decode_fields(s.subrange(5 + n, s.len() as int), insert_entry(acc, t, s.subrange(5, 5 + n)))
                }
            },
        }
    }
}

/// What parsing a whole message gives. The length in the header is not
/// checked against the bytes.
pub open spec fn decode_message(raw: Seq<u8>) -> Result<(EventType, Seq<(FieldType, Seq<u8>)>), (ErrorCode, Seq<char>)> {
    if raw.len() < 5 {
        Err((ErrorCode::MalformedTlv, "Message too short"@))
    } else {
        match event_type_of_byte(raw[4]) {
            None => Err((ErrorCode::InvalidEventType, unknown_event_type_text(raw[4]))),
            Some(et) => match decode_fields(raw.subrange(5, raw.len() as int), Seq::empty()) {
                Ok(fs) => Ok((et, fs)),
                Err(e) => Err(e),
            },
        }
    }
}

/// The event type that the header of a buffer names.
pub open spec fn decode_event(buf: Seq<u8>) -> Result<EventType, (ErrorCode, Seq<char>)> {
    if buf.len() < 5 {
        Err((ErrorCode::MalformedTlv, "Buffer too short"@))
    } else {
        match event_type_of_byte(buf[4]) {
            None => Err((ErrorCode::InvalidEventType, unknown_event_type_text(buf[4]))),
            Some(et) => Ok(et),
        }
    }
}

/// Scanning the fields in `s` for the first one of type `target`: its value,
/// the empty value when none is found, or the code and message of the error.
pub open spec fn scan_field(s: Seq<u8>, target: FieldType) -> Result<Seq<u8>, (ErrorCode, Seq<char>)>
    decreases s.len(),
{
    if s.len() < 5 {
        Ok(Seq::empty())
    } else {
        match field_type_of_byte(s[0]) {
            None => Err((ErrorCode::MalformedTlv, "Invalid field type"@)),
            Some(t) => {
                let n = be_u32_value(s.subrange(1, 5));
                if s.len() - 5 < n {
                    Err((ErrorCode::MalformedTlv, "Field data too short"@))
                } else if t == target {
                    Ok(s.subrange(5, 5 + n))
                } else {
                    scan_field(s.subrange(5 + n, s.len() as int), target)
                }
            },
        }
    }
}

/// Finding the first field of type `target` in a whole message buffer.
pub open spec fn find_field(buf: Seq<u8>, target: FieldType) -> Result<Seq<u8>, (ErrorCode, Seq<char>)> {
    if buf.len() < 5 {
        Err((ErrorCode::MalformedTlv, "Buffer too short"@))
    } else {
        scan_field(buf.subrange(5, buf.len() as int), target)
    }
}

/// Appends the four big-endian bytes of `x`.
pub fn push_be_u32(out: &mut Vec<u8>, x: u32)
    ensures
        final(out)@ == old(out)@ + be_u32_bytes(x as int),
{
    out.push((x / 0x100_0000 % 256) as u8);
    out.push((x / 0x1_0000 % 256) as u8);
    out.push((x / 0x100 % 256) as u8);
    out.push((x % 256) as u8);
    assert(final(out)@ =~= old(out)@ + be_u32_bytes(x as int));
}

/// Reads the four big-endian bytes of `buf` that start at `at`.
pub fn read_be_u32(buf: &[u8], at: usize) -> (r: u32)
    requires
        at + 4 <= buf@.len(),
    ensures
        r == be_u32_value(buf@.subrange(at as int, at + 4)),
{
    let b0 = buf[at] as u32;
    let b1 = buf[at + 1] as u32;
    let b2 = buf[at + 2] as u32;
    let b3 = buf[at + 3] as u32;
    b0 * 0x100_0000 + b1 * 0x1_0000 + b2 * 0x100 + b3
}

} // verus!
