//! TLV messages: an event type and a list of typed fields.

use vstd::prelude::*;
use crate::error::{ErrorCode, ReplicashError, is_standard_error};
use crate::tlv::fields::{FieldList, clone_field_list, field_at, field_count, field_entries, new_field_list, push_field, set_field_value};
use crate::tlv::types::{EventType, FieldType, event_type_of_byte};
use crate::tlv::wire::{decode_event, decode_fields, decode_message, entry_position, fields_bytes, field_types_distinct, find_field, insert_entry, lemma_distinct_fields_bounded, lemma_entry_position, lemma_fields_bytes_prefix, lemma_fields_bytes_push, lemma_insert_entry_distinct, lookup_entry, message_bytes, push_be_u32, read_be_u32, scan_field};

verus! {

/// A message of the TLV protocol.
#[derive(Debug)]
pub struct TLVMessage {
    pub event_type: EventType,
    fields: FieldList,
}

impl TLVMessage {
    /// The event type of the message: its field `event_type`.
    ///
    /// Verus treats the struct as opaque outside this module, because the
    /// field list is private; no specification there can read the public
    /// field, so this function is closed and `kind` reads the field for
    /// verified callers.
    pub closed spec fn event(&self) -> EventType {
        self.event_type
    }

    /// The fields of the message, in order.
    pub closed spec fn entries(&self) -> Seq<(FieldType, Seq<u8>)> {
        field_entries(self.fields)
    }

    /// Every message that the functions here make holds each field type at
    /// most once.
    pub open spec fn well_formed(&self) -> bool {
        field_types_distinct(self.entries())
    }

    /// Create a new message without fields.
    pub fn new(event_type: EventType) -> (m: TLVMessage)
        ensures
            m.event() == event_type,
            m.entries() == Seq::<(FieldType, Seq<u8>)>::empty(),
            m.well_formed(),
    {
        TLVMessage { event_type, fields: new_field_list() }
    }

    /// The event type of the message, as its field `event_type` holds it.
    pub fn kind(&self) -> (e: EventType)
        ensures
            e == self.event(),
    {
        self.event_type
    }

    /// Gets a field: the value of the field of that type, if the message has one.
    pub fn get_field(&self, field: FieldType) -> (r: Option<&Vec<u8>>)
        ensures
            match lookup_entry(self.entries(), field) {
                Some(v) => r matches Some(b) && b@ == v,
                None => r is None,
            },
    {
        proof {
            lemma_entry_position(self.entries(), field);
        }
        let n = field_count(&self.fields);
        let mut i: usize = 0;
        while i < n
            invariant
                n == self.entries().len(),
                i <= n,
                forall|j: int| 0 <= j < i ==> self.entries()[j].0 != field,
            decreases n - i,
        {
            let entry = field_at(&self.fields, i);
            if entry.0 == field {
                proof {
                    lemma_entry_position(self.entries(), field);
                }
                return Some(&entry.1);
            }
            i = i + 1;
        }
        proof {
            lemma_entry_position(self.entries(), field);
        }
        None
    }

    /// Sets or overwrites a field.
    pub fn insert_field(&mut self, field: FieldType, value: Vec<u8>)
        requires
            old(self).well_formed(),
        ensures
            final(self).event() == old(self).event(),
            final(self).entries() == insert_entry(old(self).entries(), field, value@),
            final(self).well_formed(),
    {
        let ghost before = self.entries();
        proof {
            lemma_entry_position(before, field);
            lemma_insert_entry_distinct(before, field, value@);
            lemma_distinct_fields_bounded(before);
        }
        let n = field_count(&self.fields);
        let mut i: usize = 0;
        while i < n
            invariant
                n == before.len(),
                self.entries() == before,
                i <= n,
                forall|j: int| 0 <= j < i ==> before[j].0 != field,
            ensures
                i <= n,
                self.entries() == before,
                forall|j: int| 0 <= j < i ==> before[j].0 != field,
                i < n ==> before[i as int].0 == field,
            decreases n - i,
        {
            let entry = field_at(&self.fields, i);
            if entry.0 == field {
                break;
            }
            i = i + 1;
        }
        proof {
            lemma_entry_position(before, field);
        }
        if i < n {
            assert(entry_position(before, field) == i);
            set_field_value(&mut self.fields, i, value);
        } else {
            assert(entry_position(before, field) == -1);
            push_field(&mut self.fields, field, value);
        }
    }

    /// The number of bytes that `encode` writes.
    pub open spec fn encoded_len(&self) -> int {
        message_bytes(self.event(), self.entries()).len() as int
    }

    /// Serializes the message as bytes: the total length (modulo 2^32),
    /// the event type, then each field with its length (modulo 2^32).
    pub fn encode(&self) -> (out: Vec<u8>)
        requires
            self.encoded_len() <= usize::MAX,
        ensures
            out@ == message_bytes(self.event(), self.entries()),
    {
        let ghost fs = self.entries();
        let n = field_count(&self.fields);
        // the total size: header, then type, length and value of each field
        let mut total: usize = 5;
        let mut i: usize = 0;
        while i < n
            invariant
                n == fs.len(),
                fs == self.entries(),
                i <= n,
                total == 5 + fields_bytes(fs.take(i as int)).len(),
                5 + fields_bytes(fs).len() <= usize::MAX,
            decreases n - i,
        {
            let entry = field_at(&self.fields, i);
            proof {
                lemma_fields_bytes_push(fs.take(i as int), entry.0, entry.1@);
                assert(fs.take(i as int).push((entry.0, entry.1@)) =~= fs.take(i + 1));
                lemma_fields_bytes_prefix(fs, i as int + 1);
            }
            total = total + 5 + entry.1.len();
            i = i + 1;
        }
        assert(fs.take(n as int) =~= fs);
        let mut out: Vec<u8> = Vec::with_capacity(total);
        push_be_u32(&mut out, (total as u64 % 0x1_0000_0000) as u32);
        out.push(self.event_type.as_u8());
        let ghost header = out@;
        assert(header == message_bytes(self.event(), fs).subrange(0, 5));
        let mut i: usize = 0;
        while i < n
            invariant
                n == fs.len(),
                fs == self.entries(),
                i <= n,
                header.len() == 5,
                out@ == header + fields_bytes(fs.take(i as int)),
            decreases n - i,
        {
            let entry = field_at(&self.fields, i);
            let ghost before = out@;
            out.push(entry.0.as_u8());
            push_be_u32(&mut out, (entry.1.len() as u64 % 0x1_0000_0000) as u32);
            let mut k: usize = 0;
            while k < entry.1.len()
                invariant
                    k <= entry.1@.len(),
                    out@ == before + seq![crate::tlv::types::field_type_byte(entry.0)]
                        + crate::tlv::wire::be_u32_bytes((entry.1@.len() % 0x1_0000_0000) as int)
                        + entry.1@.take(k as int),
                decreases entry.1@.len() - k,
            {
                out.push(entry.1[k]);
                proof {
                    assert(entry.1@.take(k as int).push(entry.1@[k as int]) =~= entry.1@.take(k + 1));
                }
                k = k + 1;
            }
            proof {
                assert(entry.1@.take(k as int) =~= entry.1@);
                lemma_fields_bytes_push(fs.take(i as int), entry.0, entry.1@);
                assert(fs.take(i as int).push((entry.0, entry.1@)) =~= fs.take(i + 1));
                assert(out@ =~= header + fields_bytes(fs.take(i + 1)));
            }
            i = i + 1;
        }
        assert(fs.take(n as int) =~= fs);
        assert(out@ =~= message_bytes(self.event(), fs));
        out
    }

    /// Parse a message from its bytes. Fields with the same type overwrite
    /// each other, as `insert_field` does; fewer than five trailing bytes are
    /// ignored, and so is the length in the header.
    pub fn parse(raw: &[u8]) -> (r: core::result::Result<TLVMessage, ReplicashError>)
        ensures
            match decode_message(raw@) {
                Ok((et, fs)) => r matches Ok(m) && m.event() == et && m.entries() == fs && m.well_formed(),
                Err((c, t)) => r matches Err(e) && is_standard_error(e, c, t),
            },
    {
        if raw.len() < 5 {
            return Err(ReplicashError::new(ErrorCode::MalformedTlv, String::from_str("Message too short")));
        }
        let event_type = match EventType::from_u8(raw[4]) {
            Ok(et) => et,
            Err(e) => {
                return Err(e);
            },
        };
        let mut msg = TLVMessage::new(event_type);
        let ghost all = raw@.subrange(5, raw@.len() as int);
        let mut offset: usize = 5;
        assert(raw@.subrange(offset as int, raw@.len() as int) =~= all);
        while raw.len() - offset >= 5
            invariant
                5 <= offset <= raw@.len(),
                raw@.len() >= 5,
                event_type_of_byte(raw@[4]) == Some(event_type),
                all == raw@.subrange(5, raw@.len() as int),
                msg.event() == event_type,
                msg.well_formed(),
                decode_fields(all, Seq::empty())
                    == decode_fields(raw@.subrange(offset as int, raw@.len() as int), msg.entries()),
            decreases raw.len() - offset,
        {
            let ghost s = raw@.subrange(offset as int, raw@.len() as int);
            assert(s[0] == raw@[offset as int]);
            let field_type = match FieldType::from_u8(raw[offset]) {
                Ok(ft) => ft,
                Err(e) => {
                    return Err(e);
                },
            };
            let field_len = read_be_u32(raw, offset + 1) as usize;
            assert(s.subrange(1, 5) =~= raw@.subrange(offset + 1, offset + 5));
            if raw.len() - (offset + 5) < field_len {
                return Err(ReplicashError::new(ErrorCode::MalformedTlv, String::from_str("Incomplete TLV field")));
            }
            let start = offset + 5;
            let value = vstd::slice::slice_to_vec(vstd::slice::slice_subrange(raw, start, start + field_len));
            assert(s.subrange(5, 5 + field_len) =~= value@);
            assert(s.subrange(5 + field_len, s.len() as int)
                =~= raw@.subrange(start + field_len, raw@.len() as int));
            msg.insert_field(field_type, value);
            offset = start + field_len;
        }
        Ok(msg)
    }

    /// The event type named by the header of a message buffer.
    pub fn extract_event(buf: &[u8]) -> (r: core::result::Result<EventType, ReplicashError>)
        ensures
            match decode_event(buf@) {
                Ok(et) => r matches Ok(e) && e == et,
                Err((c, t)) => r matches Err(e) && is_standard_error(e, c, t),
            },
    {
        if buf.len() < 5 {
            return Err(ReplicashError::new(ErrorCode::MalformedTlv, String::from_str("Buffer too short")));
        }
        EventType::from_u8(buf[4])
    }

    /// The value of the first field of type `target` in a message buffer,
    /// without parsing the whole message; empty when there is no such field.
    pub fn extract_field(buf: &[u8], target: FieldType) -> (r: core::result::Result<&[u8], ReplicashError>)
        ensures
            match find_field(buf@, target) {
                Ok(v) => r matches Ok(b) && b@ == v,
                Err((c, t)) => r matches Err(e) && is_standard_error(e, c, t),
            },
    {
        if buf.len() < 5 {
            return Err(ReplicashError::new(ErrorCode::MalformedTlv, String::from_str("Buffer too short")));
        }
        let mut offset: usize = 5;
        while buf.len() - offset >= 5
            invariant
                5 <= offset <= buf@.len(),
                find_field(buf@, target) == scan_field(buf@.subrange(offset as int, buf@.len() as int), target),
            decreases buf.len() - offset,
        {
            let ghost s = buf@.subrange(offset as int, buf@.len() as int);
            assert(s[0] == buf@[offset as int]);
            let field_type = match FieldType::from_u8(buf[offset]) {
                Ok(ft) => ft,
                Err(_) => {
                    return Err(ReplicashError::new(ErrorCode::MalformedTlv, String::from_str("Invalid field type")));
                },
            };
            let field_len = read_be_u32(buf, offset + 1) as usize;
            assert(s.subrange(1, 5) =~= buf@.subrange(offset + 1, offset + 5));
            offset = offset + 5;
            if field_len > buf.len() - offset {
                return Err(ReplicashError::new(ErrorCode::MalformedTlv, String::from_str("Field data too short")));
            }
            if field_type == target {
                let found = vstd::slice::slice_subrange(buf, offset, offset + field_len);
                assert(s.subrange(5, 5 + field_len) =~= found@);
                return Ok(found);
            }
            assert(s.subrange(5 + field_len, s.len() as int)
                =~= buf@.subrange(offset + field_len, buf@.len() as int));
            offset = offset + field_len;
        }
        assert(buf@.subrange(offset as int, buf@.len() as int).len() < 5);
        Ok(vstd::slice::slice_subrange(buf, 0, 0))
    }
}

impl Clone for TLVMessage {
    fn clone(&self) -> (m: TLVMessage)
        ensures
            m.event() == self.event(),
            m.entries() == self.entries(),
    {
        TLVMessage { event_type: self.event_type, fields: clone_field_list(&self.fields) }
    }
}

} // verus!
