//! The bulk string value: a length-prefixed, binary-safe byte string.

use vstd::prelude::*;

use crate::push_crlf;
use crate::resp::FormatError;
use crate::resp::RespObject;
use crate::resp::RespValues;
use crate::resp::decode_value;
use crate::resp::model::ValueModel;
use crate::resp::model::encode_model;
use crate::resp::push_bytes;
use crate::resp::push_decimal;

verus! {

/// A binary-safe byte string, written `$<byte count>\r\n<raw bytes>\r\n`.
/// The payload may itself contain `\r\n`; the length prefix, not the
/// terminator, delimits it.
pub struct RespBulkString {
    pub values: Vec<u8>,
}

impl RespBulkString {
    /// Wraps raw bytes as a bulk string value.
    pub fn from_raw(values: Vec<u8>) -> (r: RespBulkString)
        ensures
            r.values == values,
    {
        RespBulkString { values }
    }

    /// The payload bytes.
    pub fn inner(&self) -> (r: &Vec<u8>)
        ensures
            r == &self.values,
    {
        &self.values
    }

    /// The payload read as text; callers must know it is valid UTF-8.
    ///
    /// Relies on `core::str::from_utf8`: it succeeds exactly on valid
    /// UTF-8 and yields the characters those bytes encode.
    #[verifier::external_body]
    pub fn as_str(&self) -> (r: &str)
        requires
            vstd::utf8::valid_utf8(self.values@),
        ensures
            r@ == vstd::utf8::decode_utf8(self.values@),
    {
        core::str::from_utf8(&self.values).unwrap()
    }

    /// The byte at `index`, if the payload is that long.
    pub fn get(&self, index: usize) -> (r: Option<&u8>)
        ensures
            match r {
                Some(v) => index < self.values@.len() && v == &self.values@[index as int],
                None => index >= self.values@.len(),
            },
    {
        self.values.get(index)
    }

    /// Replaces the byte at `index`.
    pub fn set(&mut self, index: usize, element: u8)
        requires
            index < old(self).values@.len(),
        ensures
            final(self).values@ == old(self).values@.update(index as int, element),
    {
        self.values[index] = element;
    }

    /// How many bytes the payload holds.
    pub fn len(&self) -> (r: usize)
        ensures
            r == self.values@.len(),
    {
        self.values.len()
    }
}

impl RespObject for RespBulkString {
    open spec fn model(&self) -> ValueModel {
        ValueModel::BulkString(self.values@)
    }

    /// A bulk string encoding starts with the `$` marker.
    open spec fn handles(data: Seq<u8>) -> bool {
        data.len() > 0 && data[0] == 36
    }

    fn serialize(&self) -> (r: Vec<u8>) {
        let mut out: Vec<u8> = Vec::new();
        out.push(36);
        push_decimal(self.values.len(), &mut out);
        push_crlf(&mut out);
        push_bytes(&mut out, self.values.as_slice());
        push_crlf(&mut out);
        assert(out@ =~= encode_model(self.model()));
        out
    }

    fn deserialize(data: &[u8]) -> (r: Result<(usize, RespValues), FormatError>) {
        decode_value(data)
    }
}

} // verus!
