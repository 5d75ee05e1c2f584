//! The array value: an ordered sequence of protocol values.

use vstd::prelude::*;

use crate::push_crlf;
use crate::resp::FormatError;
use crate::resp::RespObject;
use crate::resp::RespValues;
use crate::resp::decode_value;
use crate::resp::lemma_seq_models;
use crate::resp::model::ValueModel;
use crate::resp::model::encode_model;
use crate::resp::model::wf_model;
use crate::resp::push_decimal;
use crate::resp::seq_models;
use crate::resp::value_model;
use crate::resp::write_elems;

verus! {

/// An ordered sequence of protocol values, written `*<count>\r\n` followed
/// by each element's encoding.
pub struct RespArray {
    pub values: Vec<RespValues>,
}

impl RespArray {
    /// Wraps a vector of values as an array value.
    pub fn from_raw(values: Vec<RespValues>) -> (r: RespArray)
        ensures
            r.values == values,
    {
        RespArray { values }
    }

    /// The elements.
    pub fn inner(&self) -> (r: &Vec<RespValues>)
        ensures
            r == &self.values,
    {
        &self.values
    }

    /// The element at `index`, if there is one.
    pub fn get(&self, index: usize) -> (r: Option<&RespValues>)
        ensures
            match r {
                Some(v) => index < self.values@.len() && v == &self.values@[index as int],
                None => index >= self.values@.len(),
            },
    {
        self.values.get(index)
    }

    /// Replaces the element at `index`.
    pub fn set(&mut self, index: usize, element: RespValues)
        requires
            index < old(self).values@.len(),
        ensures
            final(self).values@ == old(self).values@.update(index as int, element),
    {
        self.values[index] = element;
    }

    /// How many elements the array holds.
    pub fn len(&self) -> (r: usize)
        ensures
            r == self.values@.len(),
    {
        self.values.len()
    }
}

impl RespObject for RespArray {
    open spec fn model(&self) -> ValueModel {
        ValueModel::Array(seq_models(self.values@))
    }

    /// An array encoding starts with the `*` marker.
    open spec fn handles(data: Seq<u8>) -> bool {
        data.len() > 0 && data[0] == 42
    }

    fn serialize(&self) -> (r: Vec<u8>) {
        let mut out: Vec<u8> = Vec::new();
        out.push(42);
        proof {
            lemma_seq_models(self.values@);
            crate::resp::model::lemma_wf_array_elems(seq_models(self.values@));
            assert forall|j: int| 0 <= j < self.values@.len() implies wf_model(
                value_model(#[trigger] self.values@[j]),
            ) by {
                assert(seq_models(self.values@)[j] == value_model(self.values@[j]));
            }
        }
        push_decimal(self.values.len(), &mut out);
        push_crlf(&mut out);
        write_elems(&self.values, &mut out);
        assert(out@ =~= encode_model(self.model()));
        out
    }

    fn deserialize(data: &[u8]) -> (r: Result<(usize, RespValues), FormatError>) {
        decode_value(data)
    }
}

} // verus!
