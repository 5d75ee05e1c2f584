//! The simple string value: one short line of ASCII text.

use vstd::prelude::*;
use vstd::string::StringExecFns;

use crate::push_crlf;
use crate::resp::FormatError;
use crate::resp::RespObject;
use crate::resp::RespValues;
use crate::resp::decode_value;
use crate::resp::model::ValueModel;
use crate::resp::model::encode_model;
use crate::resp::push_bytes;

verus! {

/// A short ASCII string, written `+<text>\r\n`; the text itself must not
/// contain the terminator.
pub struct RespSimpleString {
    pub value: String,
}

impl RespSimpleString {
    /// Wraps text as a simple string value.
    pub fn from_str(value: &str) -> (r: RespSimpleString)
        ensures
            r.value@ == value@,
    {
        RespSimpleString { value: String::from_str(value) }
    }

    /// The text.
    pub fn inner(&self) -> (r: &str)
        ensures
            r@ == self.value@,
    {
        self.value.as_str()
    }

    /// The length of the text in characters, which for the ASCII text a
    /// well-formed value carries is also its length in bytes.
    pub fn len(&self) -> (r: usize)
        ensures
            r == self.value@.len(),
    {
        self.value.as_str().unicode_len()
    }
}

impl RespObject for RespSimpleString {
    open spec fn model(&self) -> ValueModel {
        ValueModel::SimpleString(self.value@)
    }

    /// A simple string encoding starts with the `+` marker.
    open spec fn handles(data: Seq<u8>) -> bool {
        data.len() > 0 && data[0] == 43
    }

    fn serialize(&self) -> (r: Vec<u8>) {
        let mut out: Vec<u8> = Vec::new();
        out.push(43);
        let text = self.value.as_str();
        proof {
            vstd::string::is_ascii_spec_bytes(text);
        }
        push_bytes(&mut out, text.as_bytes());
        push_crlf(&mut out);
        assert(out@ =~= encode_model(self.model()));
        out
    }

    fn deserialize(data: &[u8]) -> (r: Result<(usize, RespValues), FormatError>) {
        decode_value(data)
    }
}

} // verus!
