//! Wire protocol values and their codec.
//!
//! A value is an array, a binary-safe bulk string, a short ASCII simple
//! string, or the null marker. [`RespObject`] gives every value type its
//! `serialize` and `deserialize`, specified against the byte-level grammar
//! in [`model`].

use vstd::prelude::*;

pub mod array;
pub mod bulk_string;
pub mod model;
pub mod null;
pub mod simple_string;

use crate::crlf;
use crate::push_crlf;
use crate::resp::array::RespArray;
use crate::resp::bulk_string::RespBulkString;
use crate::resp::model::ValueModel;
use crate::resp::model::all_digit_bytes;
use crate::resp::model::bytes_to_chars;
use crate::resp::model::dec_digits;
use crate::resp::model::dec_value;
use crate::resp::model::decode_elems;
use crate::resp::model::decode_model;
use crate::resp::model::encode_elems;
use crate::resp::model::encode_model;
use crate::resp::model::find_crlf;
use crate::resp::model::is_ascii_bytes;
use crate::resp::model::lemma_dec_digits;
use crate::resp::model::lemma_dec_value_nonneg;
use crate::resp::model::lemma_dec_value_take_le;
use crate::resp::model::lemma_dec_value_take_step;
use crate::resp::model::lemma_decode_elems_too_many;
use crate::resp::model::lemma_find_crlf_at;
use crate::resp::model::lemma_find_crlf_none;
use crate::resp::model::lemma_find_crlf_some;
use crate::resp::model::no_crlf_chars;
use crate::resp::model::spec_parse_len;
use crate::resp::model::wf_model;
use crate::resp::null::RespNull;
use crate::resp::simple_string::RespSimpleString;
use crate::util::ascii_bytes_to_string;
use vstd::slice::slice_subrange;
use vstd::slice::slice_to_vec;
use vstd::utf8::is_ascii_chars;

verus! {

/// A decoded protocol value.
pub enum RespValues {
    Array(RespArray),
    BulkString(RespBulkString),
    SimpleString(RespSimpleString),
    Null(RespNull),
}

/// Why a byte sequence failed to decode. Malformed wire bytes are fatal to
/// the connection that produced them; the taxonomy here is diagnostic only.
#[derive(Clone, Copy, Debug, PartialEq, Eq, Structural)]
pub enum FormatError {
    /// The input ended before a complete value.
    Truncated,
    /// No `\r\n` terminator where one was required.
    MissingTerminator,
    /// A length prefix that is not a plain decimal number, or too large.
    BadLength,
    /// A leading type marker this protocol does not know.
    UnknownMarker,
    /// A simple string carrying bytes outside the ASCII range.
    NonAsciiText,
}

/// The models of a sequence of values, in order.
pub open spec fn seq_models(vs: Seq<RespValues>) -> Seq<ValueModel>
    decreases vs,
{
    if vs.len() == 0 {
        Seq::empty()
    } else {
        seq![value_model(vs[0])] + seq_models(vs.drop_first())
    }
}

/// Pointwise reading of [`seq_models`].
pub proof fn lemma_seq_models(vs: Seq<RespValues>)
    ensures
        seq_models(vs).len() == vs.len(),
        forall|i: int| 0 <= i < vs.len() ==> seq_models(vs)[i] == value_model(#[trigger] vs[i]),
        forall|i: int| 0 <= i < vs.len() ==> #[trigger] seq_models(vs)[i] == value_model(vs[i]),
    decreases vs.len(),
{
    if vs.len() > 0 {
        lemma_seq_models(vs.drop_first());
        assert(forall|i: int| 1 <= i < vs.len() ==> vs.drop_first()[i - 1] == #[trigger] vs[i]);
    }
}

/// The model a value denotes.
pub open spec fn value_model(v: RespValues) -> ValueModel
    decreases v,
{
    match v {
        RespValues::Array(a) => ValueModel::Array(seq_models(a.values@)),
        RespValues::BulkString(b) => ValueModel::BulkString(b.values@),
        RespValues::SimpleString(s) => ValueModel::SimpleString(s.value@),
        RespValues::Null(_) => ValueModel::Null,
    }
}

/// Appends every byte of `src` to `out`.
pub fn push_bytes(out: &mut Vec<u8>, src: &[u8])
    ensures
        final(out)@ == old(out)@ + src@,
{
    let mut i: usize = 0;
    while i < src.len()
        invariant
            i <= src@.len(),
            out@ == old(out)@ + src@.subrange(0, i as int),
        decreases src@.len() - i,
    {
        let ghost before = out@;
        out.push(src[i]);
        proof {
            assert(before.push(src@[i as int]) =~= old(out)@ + src@.subrange(0, i + 1));
        }
        i = i + 1;
    }
    assert(src@.subrange(0, src@.len() as int) =~= src@);
}

/// Appends the canonical decimal digits of `n` to `out`.
pub fn push_decimal(n: usize, out: &mut Vec<u8>)
    ensures
        final(out)@ == old(out)@ + dec_digits(n as nat),
    decreases n,
{
    if n < 10 {
        out.push(n as u8 + 48);
        assert(out@ =~= old(out)@ + dec_digits(n as nat));
    } else {
        push_decimal(n / 10, out);
        out.push((n % 10) as u8 + 48);
        assert(out@ =~= old(out)@ + dec_digits(n as nat));
    }
}

/// Appends the encoding of one value to `out`.
pub fn write_value(v: &RespValues, out: &mut Vec<u8>)
    requires
        wf_model(value_model(*v)),
    ensures
        final(out)@ == old(out)@ + encode_model(value_model(*v)),
    decreases *v,
{
    match v {
        RespValues::Null(_) => {
            out.push(95);
            push_crlf(out);
            assert(out@ =~= old(out)@ + encode_model(value_model(*v)));
        },
        RespValues::SimpleString(s) => {
            out.push(43);
            let text = s.value.as_str();
            proof {
                vstd::string::is_ascii_spec_bytes(text);
            }
            push_bytes(out, text.as_bytes());
            push_crlf(out);
            assert(out@ =~= old(out)@ + encode_model(value_model(*v)));
        },
        RespValues::BulkString(b) => {
            out.push(36);
            push_decimal(b.values.len(), out);
            push_crlf(out);
            push_bytes(out, b.values.as_slice());
            push_crlf(out);
            assert(out@ =~= old(out)@ + encode_model(value_model(*v)));
        },
        RespValues::Array(a) => {
            out.push(42);
            proof {
                lemma_seq_models(a.values@);
            }
            push_decimal(a.values.len(), out);
            push_crlf(out);
            write_elems(&a.values, out);
            assert(out@ =~= old(out)@ + encode_model(value_model(*v)));
        },
    }
}

/// Appends the encodings of the values of `vs`, in order, to `out`.
pub fn write_elems(vs: &Vec<RespValues>, out: &mut Vec<u8>)
    requires
        forall|i: int| 0 <= i < vs@.len() ==> wf_model(value_model(#[trigger] vs@[i])),
    ensures
        final(out)@ == old(out)@ + encode_elems(seq_models(vs@)),
    decreases *vs,
{
    let ghost ms = seq_models(vs@);
    proof {
        lemma_seq_models(vs@);
        assert(ms.take(0) =~= Seq::<ValueModel>::empty());
    }
    let mut i: usize = 0;
    while i < vs.len()
        invariant
            i <= vs@.len(),
            ms == seq_models(vs@),
            ms.len() == vs@.len(),
            forall|j: int| 0 <= j < vs@.len() ==> ms[j] == value_model(#[trigger] vs@[j]),
            forall|j: int| 0 <= j < vs@.len() ==> wf_model(value_model(#[trigger] vs@[j])),
            out@ == old(out)@ + encode_elems(ms.take(i as int)),
        decreases vs@.len() - i,
    {
        let ghost before = out@;
        write_value(&vs[i], out);
        proof {
            lemma_encode_elems_take(ms, i as int);
            assert(out@ =~= old(out)@ + encode_elems(ms.take(i + 1)));
        }
        i = i + 1;
    }
    assert(ms.take(vs@.len() as int) =~= ms);
}

/// Appending one more element extends the concatenated encodings by its own.
pub proof fn lemma_encode_elems_take(ms: Seq<ValueModel>, i: int)
    requires
        0 <= i < ms.len(),
    ensures
        encode_elems(ms.take(i + 1)) == encode_elems(ms.take(i)) + encode_model(ms[i]),
    decreases i,
{
    if i == 0 {
        assert(ms.take(1).drop_first() =~= Seq::<ValueModel>::empty());
        assert(ms.take(1)[0] == ms[0]);
        assert(encode_elems(Seq::<ValueModel>::empty()) =~= Seq::<u8>::empty());
        assert(encode_model(ms[0]) + Seq::<u8>::empty() =~= encode_model(ms[0]));
        assert(encode_elems(ms.take(1)) =~= encode_model(ms[0]));
        assert(ms.take(0) =~= Seq::<ValueModel>::empty());
        assert(encode_elems(ms.take(0)) =~= Seq::<u8>::empty());
        assert(encode_elems(ms.take(1)) =~= encode_elems(ms.take(0)) + encode_model(ms[0]));
    } else {
        lemma_encode_elems_take(ms.drop_first(), i - 1);
        assert(ms.take(i + 1).drop_first() =~= ms.drop_first().take(i));
        assert(ms.take(i).drop_first() =~= ms.drop_first().take(i - 1));
        assert(ms.take(i + 1)[0] == ms[0]);
        assert(ms.take(i)[0] == ms[0]);
        assert(ms.drop_first()[i - 1] == ms[i]);
        assert(encode_elems(ms.take(i + 1)) =~= encode_elems(ms.take(i)) + encode_model(ms[i]));
    }
}

/// Finds the first `\r\n` pair at or after `from`, scanning byte offsets.
fn find_crlf_exec(data: &[u8], from: usize) -> (r: Option<usize>)
    ensures
        match r {
            Some(i) => find_crlf(data@, from as int) == Some(i as int) && from <= i && i + 2
                <= data@.len(),
            None => find_crlf(data@, from as int) is None,
        },
{
    let mut k: usize = from;
    loop
        invariant
            from <= k,
            forall|j: int| from <= j < k ==> !(#[trigger] data@[j] == 13 && data@[j + 1] == 10),
        decreases data@.len() - k,
    {
        if k >= data.len() || data.len() - k < 2 {
            proof {
                lemma_find_crlf_none(data@, from as int);
            }
            return None;
        }
        if data[k] == 13 && data[k + 1] == 10 {
            proof {
                lemma_find_crlf_at(data@, from as int, k as int);
            }
            return Some(k);
        }
        k = k + 1;
    }
}

/// Reads the decimal number written at `data[start..end]`, refusing empty or
/// non-digit text, and refusing a value above `bound`.
pub fn parse_decimal(data: &[u8], start: usize, end: usize, bound: u64) -> (r: Option<u64>)
    requires
        start <= end <= data@.len(),
    ensures
        ({
            let sub = data@.subrange(start as int, end as int);
            match r {
                Some(v) => spec_parse_len(sub) == Some(v as int) && v <= bound,
                None => spec_parse_len(sub) is None || spec_parse_len(sub)->Some_0 > bound,
            }
        }),
{
    let ghost sub = data@.subrange(start as int, end as int);
    if start == end {
        return None;
    }
    let mut acc: u64 = 0;
    let mut i: usize = start;
    proof {
        assert(sub.take(0) =~= Seq::<u8>::empty());
    }
    while i < end
        invariant
            start <= i <= end <= data@.len(),
            sub == data@.subrange(start as int, end as int),
            all_digit_bytes(sub.take(i - start)),
            acc == dec_value(sub.take(i - start)),
            acc <= bound,
        decreases end - i,
    {
        let b = data[i];
        proof {
            assert(sub[i - start] == b);
        }
        if b < 48 || b > 57 {
            proof {
                assert(!all_digit_bytes(sub));
            }
            return None;
        }
        let d = (b - 48) as u64;
        if d > bound || acc > (bound - d) / 10 {
            proof {
                assert(acc * 10 + d > bound) by (nonlinear_arith)
                    requires
                        d > bound || acc > (bound - d) / 10,
                        d <= 9,
                        acc >= 0,
                        bound >= 0,
                ;
                lemma_dec_value_take_step(sub, i - start);
                if spec_parse_len(sub) is Some {
                    lemma_dec_value_take_le(sub, i - start + 1);
                }
            }
            return None;
        }
        proof {
            assert(acc * 10 + d <= bound) by (nonlinear_arith)
                requires
                    d <= bound,
                    acc <= (bound - d) / 10,
                    d <= 9,
            ;
            lemma_dec_value_take_step(sub, i - start);
            assert(forall|j: int|
                0 <= j < i - start ==> #[trigger] sub.take(i - start + 1)[j] == sub.take(
                    i - start,
                )[j]);
        }
        acc = acc * 10 + d;
        i = i + 1;
    }
    proof {
        assert(sub.take(end - start) =~= sub);
    }
    Some(acc)
}

/// One value decoded from the head of `data`: the executable counterpart of
/// [`decode_model`], erring exactly where the grammar has no parse.
pub fn decode_value(data: &[u8]) -> (r: Result<(usize, RespValues), FormatError>)
    ensures
        match r {
            Ok((n, v)) => decode_model(data@) == Some((n as int, value_model(v))) && wf_model(
                value_model(v),
            ) && 1 <= n <= data@.len(),
            Err(_) => decode_model(data@) is None,
        },
    decreases data@.len(), 0int,
{
    if data.len() == 0 {
        return Err(FormatError::Truncated);
    }
    let marker = data[0];
    if marker == 42 {
        // array: "*<count>\r\n" then that many values
        match find_crlf_exec(data, 1) {
            None => Err(FormatError::MissingTerminator),
            Some(i) => {
                proof {
                    lemma_find_crlf_some(data@, 1, i as int);
                }
                match parse_decimal(data, 1, i, usize::MAX as u64) {
                    None => {
                        proof {
                            let sub = data@.subrange(1, i as int);
                            if spec_parse_len(sub) is Some {
                                let count = spec_parse_len(sub)->Some_0;
                                lemma_decode_elems_too_many(
                                    data@.subrange(i + 2, data@.len() as int),
                                    count,
                                );
                            }
                        }
                        Err(FormatError::BadLength)
                    },
                    Some(count64) => {
                        let count = count64 as usize;
                        let rest = slice_subrange(data, i + 2, data.len());
                        match decode_count(rest, count) {
                            Err(e) => Err(e),
                            Ok((used, vs)) => {
                                let n = i + 2 + used;
                                let r = RespValues::Array(RespArray::from_raw(vs));
                                proof {
                                    lemma_seq_models(vs@);
                                    assert forall|j: int|
                                        0 <= j < seq_models(vs@).len() implies wf_model(
                                        #[trigger] seq_models(vs@)[j],
                                    ) by {
                                        assert(seq_models(vs@)[j] == value_model(vs@[j]));
                                    }
                                    assert(wf_model(value_model(r)));
                                    assert(decode_model(data@) == Some(
                                        (n as int, value_model(r)),
                                    ));
                                }
                                Ok((n, r))
                            },
                        }
                    },
                }
            },
        }
    } else if marker == 36 {
        // bulk string: "$<count>\r\n" then that many raw bytes and "\r\n"
        match find_crlf_exec(data, 1) {
            None => Err(FormatError::MissingTerminator),
            Some(i) => {
                proof {
                    lemma_find_crlf_some(data@, 1, i as int);
                }
                match parse_decimal(data, 1, i, usize::MAX as u64) {
                    None => {
                        proof {
                            let sub = data@.subrange(1, i as int);
                            if spec_parse_len(sub) is Some {
                                lemma_dec_value_nonneg(sub);
                            }
                        }
                        Err(FormatError::BadLength)
                    },
                    Some(n64) => {
                        let n = n64 as usize;
                        let rem = data.len() - (i + 2);
                        if rem < 2 || n > rem - 2 {
                            return Err(FormatError::Truncated);
                        }
                        let p_end = i + 2 + n;
                        if data[p_end] == 13 && data[p_end + 1] == 10 {
                            let payload = slice_to_vec(slice_subrange(data, i + 2, p_end));
                            let r = RespValues::BulkString(RespBulkString::from_raw(payload));
                            proof {
                                assert(decode_model(data@) == Some(
                                    ((p_end + 2) as int, value_model(r)),
                                ));
                            }
                            Ok((p_end + 2, r))
                        } else {
                            Err(FormatError::Truncated)
                        }
                    },
                }
            },
        }
    } else if marker == 43 {
        // simple string: "+<ascii text>\r\n"
        match find_crlf_exec(data, 1) {
            None => Err(FormatError::MissingTerminator),
            Some(i) => {
                proof {
                    lemma_find_crlf_some(data@, 1, i as int);
                }
                let ghost payload = data@.subrange(1, i as int);
                let mut k: usize = 1;
                while k < i
                    invariant
                        1 <= k <= i,
                        i + 2 <= data@.len(),
                        data@[0] == 43,
                        find_crlf(data@, 1) == Some(i as int),
                        payload == data@.subrange(1, i as int),
                        forall|j: int| 1 <= j < k ==> #[trigger] data@[j] < 128,
                    decreases i - k,
                {
                    if data[k] >= 128 {
                        proof {
                            assert(payload[k - 1] == data@[k as int]);
                            assert(!is_ascii_bytes(payload));
                        }
                        return Err(FormatError::NonAsciiText);
                    }
                    k = k + 1;
                }
                proof {
                    assert(forall|j: int|
                        0 <= j < payload.len() ==> #[trigger] payload[j] == data@[j + 1]);
                    assert(is_ascii_bytes(payload));
                }
                let text = ascii_bytes_to_string(slice_subrange(data, 1, i));
                proof {
                    let chars = bytes_to_chars(payload);
                    assert forall|j: int| 0 <= j < chars.len() implies '\0' <= #[trigger] chars[j]
                        <= '\u{7f}' by {
                        assert(payload[j] < 128);
                    }
                    assert(is_ascii_chars(chars));
                    assert forall|j: int|
                        0 <= j && j + 1 < chars.len() implies !(#[trigger] chars[j] == '\r'
                        && chars[j + 1] == '\n') by {
                        if chars[j] == '\r' && chars[j + 1] == '\n' {
                            assert(data@[j + 1] == 13 && data@[j + 2] == 10);
                        }
                    }
                    assert(no_crlf_chars(chars));
                }
                let r = RespValues::SimpleString(RespSimpleString { value: text });
                proof {
                    assert(decode_model(data@) == Some(((i + 2) as int, value_model(r))));
                }
                Ok((i + 2, r))
            },
        }
    } else if marker == 95 {
        // null: "_\r\n"
        if data.len() >= 3 {
            if data[1] == 13 && data[2] == 10 {
                Ok((3, RespValues::Null(RespNull {  })))
            } else {
                Err(FormatError::Truncated)
            }
        } else {
            Err(FormatError::Truncated)
        }
    } else {
        Err(FormatError::UnknownMarker)
    }
}

/// `count` consecutive values decoded from the head of `data`: the
/// executable counterpart of [`decode_elems`].
pub fn decode_count(data: &[u8], count: usize) -> (r: Result<(usize, Vec<RespValues>), FormatError>)
    ensures
        match r {
            Ok((n, vs)) => decode_elems(data@, count as int) == Some((n as int, seq_models(vs@)))
                && (forall|i: int| 0 <= i < vs@.len() ==> wf_model(value_model(#[trigger] vs@[i])))
                && n <= data@.len() && vs@.len() == count,
            Err(_) => decode_elems(data@, count as int) is None,
        },
    decreases data@.len(), count as int + 1,
{
    if count == 0 {
        let vs: Vec<RespValues> = Vec::new();
        proof {
            assert(seq_models(vs@) =~= Seq::<ValueModel>::empty());
        }
        return Ok((0, vs));
    }
    match decode_value(data) {
        Err(e) => Err(e),
        Ok((k, v)) => {
            let rest = slice_subrange(data, k, data.len());
            match decode_count(rest, count - 1) {
                Err(e) => Err(e),
                Ok((used, mut vs)) => {
                    let ghost tail = vs@;
                    vs.insert(0, v);
                    proof {
                        assert(vs@.drop_first() =~= tail);
                        assert(vs@[0] == v);
                        assert(seq_models(vs@) =~= seq![value_model(v)] + seq_models(tail));
                        lemma_seq_models(vs@);
                    }
                    Ok((k + used, vs))
                },
            }
        },
    }
}

/// Shared contract of every value type: a model, the inputs its decoder
/// accepts, and a codec proved against the grammar.
pub trait RespObject: Sized {
    /// The model this value denotes.
    spec fn model(&self) -> ValueModel;

    /// The byte sequences this type's `deserialize` may be handed.
    spec fn handles(data: Seq<u8>) -> bool;

    /// The wire bytes of this value.
    fn serialize(&self) -> (r: Vec<u8>)
        requires
            wf_model(self.model()),
        ensures
            r@ == encode_model(self.model()),
    ;

    /// One value decoded from the head of `data`, with the count of bytes
    /// consumed; an error exactly when no complete value starts `data`.
    fn deserialize(data: &[u8]) -> (r: Result<(usize, RespValues), FormatError>)
        requires
            Self::handles(data@),
        ensures
            match r {
                Ok((n, v)) => decode_model(data@) == Some((n as int, value_model(v)))
                    && wf_model(value_model(v)) && 1 <= n <= data@.len(),
                Err(_) => decode_model(data@) is None,
            },
    ;
}

impl RespObject for RespValues {
    open spec fn model(&self) -> ValueModel {
        value_model(*self)
    }

    /// The top-level decoder accepts any input, answering an error where no
    /// value starts it.
    open spec fn handles(data: Seq<u8>) -> bool {
        true
    }

    fn serialize(&self) -> (r: Vec<u8>) {
        let mut out: Vec<u8> = Vec::new();
        write_value(self, &mut out);
        assert(out@ =~= encode_model(value_model(*self)));
        out
    }

    fn deserialize(data: &[u8]) -> (r: Result<(usize, RespValues), FormatError>) {
        decode_value(data)
    }
}

} // verus!
