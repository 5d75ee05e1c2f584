//! The null value: the absence marker, written `_\r\n`.

use vstd::prelude::*;

use crate::push_crlf;
use crate::resp::FormatError;
use crate::resp::RespObject;
use crate::resp::RespValues;
use crate::resp::decode_value;
use crate::resp::model::ValueModel;
use crate::resp::model::encode_model;

verus! {

/// The absence marker. It carries nothing; its encoding is `_\r\n`.
pub struct RespNull {}

impl RespObject for RespNull {
    open spec fn model(&self) -> ValueModel {
        ValueModel::Null
    }

    /// A null encoding starts with the `_` marker.
    open spec fn handles(data: Seq<u8>) -> bool {
        data.len() > 0 && data[0] == 95
    }

    fn serialize(&self) -> (r: Vec<u8>) {
        let mut out: Vec<u8> = Vec::new();
        out.push(95);
        push_crlf(&mut out);
        assert(out@ =~= encode_model(self.model()));
        out
    }

    fn deserialize(data: &[u8]) -> (r: Result<(usize, RespValues), FormatError>) {
        decode_value(data)
    }
}

} // verus!
