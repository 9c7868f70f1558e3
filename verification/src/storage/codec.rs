//! The bytes that stand for a value in a persistent store.
//!
//! A value is written as a tag byte and its payload: `0` alone for the
//! absent value, `1` and the UTF-8 bytes of a text, `2` and the eight bytes
//! of an integer (least significant first), `3` and one byte `0` or `1` for
//! a boolean. Reading back what was written gives the value again.

use crate::error::KvError;
use crate::pb::abi::{Value, ValueView};
use vstd::bytes::{
    lemma_auto_spec_u64_to_from_le_bytes, spec_u64_from_le_bytes, spec_u64_to_le_bytes,
    u64_from_le_bytes, u64_to_le_bytes,
};
use vstd::prelude::*;
use vstd::slice::{slice_subrange, slice_to_vec};
use vstd::string::StringExecFns;
use vstd::utf8::{decode_utf8, encode_utf8, encode_utf8_decode_utf8, encode_utf8_valid_utf8, valid_utf8};

verus! {

pub const TAG_ABSENT: u8 = 0;

pub const TAG_TEXT: u8 = 1;

pub const TAG_INTEGER: u8 = 2;

pub const TAG_BOOLEAN: u8 = 3;

/// The bytes that stand for a value.
pub open spec fn value_bytes(value: ValueView) -> Seq<u8> {
    match value {
        ValueView::Absent => seq![TAG_ABSENT],
        ValueView::Text(text) => seq![TAG_TEXT] + encode_utf8(text),
        ValueView::Integer(i) => seq![TAG_INTEGER] + spec_u64_to_le_bytes(i as u64),
        ValueView::Boolean(b) => seq![TAG_BOOLEAN, if b { 1u8 } else { 0u8 }],
    }
}

/// The value that bytes stand for, if they stand for one.
pub open spec fn parse_value(bytes: Seq<u8>) -> Option<ValueView> {
    if bytes.len() == 0 {
        None
    } else if bytes[0] == TAG_ABSENT {
        if bytes.len() == 1 {
            Some(ValueView::Absent)
        } else {
            None
        }
    } else if bytes[0] == TAG_TEXT {
        if valid_utf8(bytes.skip(1)) {
            Some(ValueView::Text(decode_utf8(bytes.skip(1))))
        } else {
            None
        }
    } else if bytes[0] == TAG_INTEGER {
        if bytes.len() == 9 {
            Some(ValueView::Integer(spec_u64_from_le_bytes(bytes.skip(1)) as i64))
        } else {
            None
        }
    } else if bytes[0] == TAG_BOOLEAN {
        if bytes.len() == 2 && bytes[1] <= 1 {
            Some(ValueView::Boolean(bytes[1] == 1))
        } else {
            None
        }
    } else {
        None
    }
}

/// Reading back the bytes of a value gives the value: the encoding loses
/// nothing.
pub proof fn law_codec_round_trip(value: ValueView)
    ensures
        parse_value(value_bytes(value)) == Some(value),
{
    let bytes = value_bytes(value);
    match value {
        ValueView::Absent => {},
        ValueView::Text(text) => {
            assert(bytes.skip(1) =~= encode_utf8(text));
            encode_utf8_valid_utf8(text);
            encode_utf8_decode_utf8(text);
        },
        ValueView::Integer(i) => {
            lemma_auto_spec_u64_to_from_le_bytes();
            assert(bytes.skip(1) =~= spec_u64_to_le_bytes(i as u64));
            assert((i as u64) as i64 == i) by (bit_vector);
        },
        ValueView::Boolean(b) => {},
    }
}

/// Different values have different bytes.
pub proof fn law_codec_injective(first: ValueView, second: ValueView)
    requires
        value_bytes(first) == value_bytes(second),
    ensures
        first == second,
{
    law_codec_round_trip(first);
    law_codec_round_trip(second);
}

/// The text that bytes hold, if they are UTF-8.
///
/// Trusted: `String::from_utf8` succeeds exactly on well-formed UTF-8 and
/// then gives the text that the bytes encode.
#[verifier::external_body]
pub(crate) fn text_of(bytes: Vec<u8>) -> (text: Option<String>)
    ensures
        text is Some <==> valid_utf8(bytes@),
        text matches Some(s) ==> s@ == decode_utf8(bytes@),
{
    String::from_utf8(bytes).ok()
}

impl Value {
    /// The bytes that stand for the value.
    pub fn encode(&self) -> (bytes: Vec<u8>)
        ensures
            bytes@ == value_bytes(self@),
    {
        let mut bytes: Vec<u8> = Vec::new();
        match self {
            Value::Absent => {
                bytes.push(TAG_ABSENT);
            },
            Value::Text(text) => {
                bytes.push(TAG_TEXT);
                bytes.extend_from_slice(text.as_str().as_bytes());
                assert(bytes@ =~= seq![TAG_TEXT] + encode_utf8(text@));
            },
            Value::Integer(i) => {
                bytes.push(TAG_INTEGER);
                let mut payload = u64_to_le_bytes(#[verifier::truncate] (*i as u64));
                bytes.append(&mut payload);
                assert(bytes@ =~= seq![TAG_INTEGER] + spec_u64_to_le_bytes(*i as u64));
            },
            Value::Boolean(b) => {
                bytes.push(TAG_BOOLEAN);
                bytes.push(if *b { 1 } else { 0 });
                assert(bytes@ =~= seq![TAG_BOOLEAN, if *b { 1u8 } else { 0u8 }]);
            },
        }
        bytes
    }

    /// The value that `bytes` stand for. Bytes that stand for none are a
    /// decode error.
    pub fn decode(bytes: &[u8]) -> (r: Result<Value, KvError>)
        ensures
            match parse_value(bytes@) {
                Some(value) => r matches Ok(v) && v@ == value,
                None => r matches Err(KvError::DecodeError(_)),
            },
    {
        if bytes.len() == 0 {
            return Err(KvError::DecodeError(String::from_str("no bytes")));
        }
        let tag = bytes[0];
        let payload = slice_subrange(bytes, 1, bytes.len());
        assert(payload@ =~= bytes@.skip(1));
        if tag == TAG_ABSENT {
            if bytes.len() == 1 {
                Ok(Value::Absent)
            } else {
                Err(KvError::DecodeError(String::from_str("bytes after the absent value")))
            }
        } else if tag == TAG_TEXT {
            match text_of(slice_to_vec(payload)) {
                Some(text) => Ok(Value::Text(text)),
                None => Err(KvError::DecodeError(String::from_str("text is not UTF-8"))),
            }
        } else if tag == TAG_INTEGER {
            if bytes.len() == 9 {
                let u = u64_from_le_bytes(payload);
                Ok(Value::Integer(#[verifier::truncate] (u as i64)))
            } else {
                Err(KvError::DecodeError(String::from_str("an integer takes eight bytes")))
            }
        } else if tag == TAG_BOOLEAN {
            if bytes.len() == 2 && bytes[1] <= 1 {
                Ok(Value::Boolean(bytes[1] == 1))
            } else {
                Err(KvError::DecodeError(String::from_str("a boolean takes one byte, 0 or 1")))
            }
        } else {
            Err(KvError::DecodeError(String::from_str("unknown tag")))
        }
    }
}

impl TryFrom<Value> for Vec<u8> {
    type Error = KvError;

    /// The bytes that stand for the value; this never fails.
    fn try_from(value: Value) -> (r: Result<Vec<u8>, KvError>)
        ensures
            r matches Ok(bytes) && bytes@ == value_bytes(value@),
    {
        Ok(value.encode())
    }
}

impl vstd::std_specs::convert::TryFromSpecImpl<Value> for Vec<u8> {
    open spec fn obeys_try_from_spec() -> bool {
        false
    }

    open spec fn try_from_spec(value: Value) -> Result<Vec<u8>, KvError> {
        arbitrary()
    }
}

impl TryFrom<&[u8]> for Value {
    type Error = KvError;

    /// The value that the bytes stand for.
    fn try_from(bytes: &[u8]) -> (r: Result<Value, KvError>)
        ensures
            match parse_value(bytes@) {
                Some(value) => r matches Ok(v) && v@ == value,
                None => r matches Err(KvError::DecodeError(_)),
            },
    {
        Value::decode(bytes)
    }
}

impl vstd::std_specs::convert::TryFromSpecImpl<&[u8]> for Value {
    open spec fn obeys_try_from_spec() -> bool {
        false
    }

    open spec fn try_from_spec(bytes: &[u8]) -> Result<Value, KvError> {
        arbitrary()
    }
}

} // verus!
