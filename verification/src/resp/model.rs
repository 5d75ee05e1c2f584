//! Mathematical model of the wire protocol: the value tree, its
//! well-formedness, and the byte-level grammar (encode and decode as
//! specification functions), together with the lemmas that relate them.

use vstd::prelude::*;
use vstd::utf8::is_ascii_chars;
use crate::crlf;

verus! {

/// Ghost counterpart of a protocol value: an array of values, a binary-safe
/// byte string, a short ASCII line, or the absence marker.
pub enum ValueModel {
    Array(Seq<ValueModel>),
    BulkString(Seq<u8>),
    SimpleString(Seq<char>),
    Null,
}

/// The characters of `s` as bytes; faithful when the characters are ASCII.
pub open spec fn chars_to_bytes(s: Seq<char>) -> Seq<u8> {
    Seq::new(s.len(), |i: int| s[i] as u8)
}

/// The bytes of `s` as characters; faithful when the bytes are below 128.
pub open spec fn bytes_to_chars(s: Seq<u8>) -> Seq<char> {
    Seq::new(s.len(), |i: int| s[i] as char)
}

/// Every byte of `s` is in the ASCII range.
pub open spec fn is_ascii_bytes(s: Seq<u8>) -> bool {
    forall|i: int| 0 <= i < s.len() ==> #[trigger] s[i] < 128
}

/// No `\r\n` pair occurs anywhere in `s`.
pub open spec fn no_crlf_chars(s: Seq<char>) -> bool {
    forall|i: int| 0 <= i && i + 1 < s.len() ==> !(#[trigger] s[i] == '\r' && s[i + 1] == '\n')
}

/// A value the protocol can carry: simple strings are ASCII text without an
/// embedded terminator; array elements are well formed in turn.
pub open spec fn wf_model(m: ValueModel) -> bool
    decreases m,
{
    match m {
        ValueModel::Array(elems) => forall|i: int|
            0 <= i < elems.len() ==> wf_model(#[trigger] elems[i]),
        ValueModel::BulkString(_) => true,
        ValueModel::SimpleString(s) => is_ascii_chars(s) && no_crlf_chars(s),
        ValueModel::Null => true,
    }
}

/// Text glued from terminator-free pieces stays terminator-free, provided
/// the seam itself does not spell one.
pub proof fn lemma_no_crlf_concat(a: Seq<char>, b: Seq<char>)
    requires
        no_crlf_chars(a),
        no_crlf_chars(b),
        a.len() > 0 && b.len() > 0 ==> !(a.last() == '\r' && b[0] == '\n'),
    ensures
        no_crlf_chars(a + b),
{
    let c = a + b;
    assert forall|i: int| 0 <= i && i + 1 < c.len() implies !(#[trigger] c[i] == '\r' && c[i + 1]
        == '\n') by {
        if i + 1 < a.len() {
            assert(c[i] == a[i] && c[i + 1] == a[i + 1]);
        } else if i + 1 == a.len() {
            assert(c[i] == a.last() && c[i + 1] == b[0]);
        } else {
            assert(c[i] == b[i - a.len()] && c[i + 1] == b[i + 1 - a.len()]);
        }
    }
}

/// A well-formed array has well-formed elements.
pub proof fn lemma_wf_array_elems(elems: Seq<ValueModel>)
    requires
        wf_model(ValueModel::Array(elems)),
    ensures
        forall|i: int| 0 <= i < elems.len() ==> wf_model(#[trigger] elems[i]),
{
    let m = ValueModel::Array(elems);
    assert(m is Array && m->Array_0 == elems);
    assert(wf_model(m) == (forall|i: int|
        0 <= i < elems.len() ==> wf_model(#[trigger] elems[i]))) by {
        reveal_with_fuel(wf_model, 2);
    }
}

/// `b` is the byte of a decimal digit.
pub open spec fn is_digit_byte(b: u8) -> bool {
    48 <= b && b <= 57
}

/// Every byte of `s` is a decimal digit.
pub open spec fn all_digit_bytes(s: Seq<u8>) -> bool {
    forall|i: int| 0 <= i < s.len() ==> is_digit_byte(#[trigger] s[i])
}

/// The number a digit string denotes, most significant digit first.
pub open spec fn dec_value(s: Seq<u8>) -> int
    decreases s.len(),
{
    if s.len() == 0 {
        0
    } else {
        dec_value(s.drop_last()) * 10 + (s.last() - 48)
    }
}

/// A digit string denotes a nonnegative number.
pub proof fn lemma_dec_value_nonneg(s: Seq<u8>)
    requires
        all_digit_bytes(s),
    ensures
        dec_value(s) >= 0,
    decreases s.len(),
{
    if s.len() > 0 {
        assert(all_digit_bytes(s.drop_last())) by {
            assert(forall|i: int| 0 <= i < s.len() - 1 ==> s.drop_last()[i] == #[trigger] s[i]);
        }
        lemma_dec_value_nonneg(s.drop_last());
    }
}

/// Reading one more digit multiplies the value so far by ten and adds it.
pub proof fn lemma_dec_value_take_step(s: Seq<u8>, j: int)
    requires
        0 <= j < s.len(),
    ensures
        dec_value(s.take(j + 1)) == dec_value(s.take(j)) * 10 + (s[j] - 48),
{
    assert(s.take(j + 1).drop_last() =~= s.take(j));
    assert(s.take(j + 1).last() == s[j]);
}

/// A digit string denotes at least as much as any of its prefixes.
pub proof fn lemma_dec_value_take_le(s: Seq<u8>, j: int)
    requires
        all_digit_bytes(s),
        0 <= j <= s.len(),
    ensures
        dec_value(s.take(j)) <= dec_value(s),
    decreases s.len() - j,
{
    if j == s.len() {
        assert(s.take(j) =~= s);
    } else {
        lemma_dec_value_take_step(s, j);
        assert(all_digit_bytes(s.take(j))) by {
            assert(forall|i: int| 0 <= i < j ==> s.take(j)[i] == #[trigger] s[i]);
        }
        lemma_dec_value_nonneg(s.take(j));
        assert(dec_value(s.take(j)) * 10 >= dec_value(s.take(j))) by (nonlinear_arith)
            requires
                dec_value(s.take(j)) >= 0,
        ;
        lemma_dec_value_take_le(s, j + 1);
    }
}

/// The canonical decimal digits of `n`: no leading zeros, at least one digit.
pub open spec fn dec_digits(n: nat) -> Seq<u8>
    decreases n,
{
    if n < 10 {
        seq![(n + 48) as u8]
    } else {
        dec_digits(n / 10).push((n % 10 + 48) as u8)
    }
}

/// The digits of `n` denote `n`, are digits, and there is at least one.
pub proof fn lemma_dec_digits(n: nat)
    ensures
        all_digit_bytes(dec_digits(n)),
        dec_value(dec_digits(n)) == n,
        dec_digits(n).len() >= 1,
    decreases n,
{
    if n < 10 {
        assert(dec_digits(n) =~= seq![(n + 48) as u8]);
        assert(dec_digits(n).drop_last() =~= Seq::<u8>::empty());
        assert(dec_value(Seq::<u8>::empty()) == 0);
        assert(dec_value(dec_digits(n)) == 0 * 10 + ((n + 48) as u8 - 48));
    } else {
        lemma_dec_digits(n / 10);
        let prefix = dec_digits(n / 10);
        let d = (n % 10 + 48) as u8;
        assert(dec_digits(n) =~= prefix.push(d));
        assert(prefix.push(d).drop_last() =~= prefix);
        assert(prefix.push(d).last() == d);
        assert(dec_value(prefix.push(d)) == dec_value(prefix) * 10 + (d - 48));
        assert(dec_value(prefix) * 10 + (d - 48) == (n / 10) * 10 + n % 10);
        assert((n / 10) * 10 + n % 10 == n) by (nonlinear_arith);
        assert(forall|i: int| 0 <= i < prefix.len() ==> prefix.push(d)[i] == #[trigger] prefix[i]);
    }
}

/// The index of the first `\r\n` pair at or after `from`, if any.
pub open spec fn find_crlf(s: Seq<u8>, from: int) -> Option<int>
    decreases s.len() - from,
{
    if from < 0 || from + 2 > s.len() {
        None
    } else if s[from] == 13 && s[from + 1] == 10 {
        Some(from)
    } else {
        find_crlf(s, from + 1)
    }
}

/// What a successful search means: a pair at `i` and none before it.
pub proof fn lemma_find_crlf_some(s: Seq<u8>, from: int, i: int)
    requires
        find_crlf(s, from) == Some(i),
    ensures
        from <= i,
        i + 2 <= s.len(),
        s[i] == 13 && s[i + 1] == 10,
        forall|j: int| from <= j < i ==> !(#[trigger] s[j] == 13 && s[j + 1] == 10),
    decreases s.len() - from,
{
    if !(from < 0 || from + 2 > s.len()) && !(s[from] == 13 && s[from + 1] == 10) {
        lemma_find_crlf_some(s, from + 1, i);
    }
}

/// Conversely: a pair at `i` with none before it is what the search returns.
pub proof fn lemma_find_crlf_at(s: Seq<u8>, from: int, i: int)
    requires
        0 <= from <= i,
        i + 2 <= s.len(),
        s[i] == 13 && s[i + 1] == 10,
        forall|j: int| from <= j < i ==> !(#[trigger] s[j] == 13 && s[j + 1] == 10),
    ensures
        find_crlf(s, from) == Some(i),
    decreases i - from,
{
    if from < i {
        lemma_find_crlf_at(s, from + 1, i);
    }
}

/// A search over a region without any pair fails.
pub proof fn lemma_find_crlf_none(s: Seq<u8>, from: int)
    requires
        forall|j: int| from <= j && j + 2 <= s.len() ==> !(#[trigger] s[j] == 13 && s[j + 1]
            == 10),
    ensures
        find_crlf(s, from) is None,
    decreases s.len() - from,
{
    if !(from < 0 || from + 2 > s.len()) {
        lemma_find_crlf_none(s, from + 1);
    }
}

/// The wire bytes of a well-formed value.
pub open spec fn encode_model(m: ValueModel) -> Seq<u8>
    decreases m,
{
    match m {
        ValueModel::Array(elems) => seq![42u8] + dec_digits(elems.len()) + crlf() + encode_elems(
            elems,
        ),
        ValueModel::BulkString(b) => seq![36u8] + dec_digits(b.len()) + crlf() + b + crlf(),
        ValueModel::SimpleString(s) => seq![43u8] + chars_to_bytes(s) + crlf(),
        ValueModel::Null => seq![95u8] + crlf(),
    }
}

/// The encodings of the elements of an array, concatenated in order.
pub open spec fn encode_elems(elems: Seq<ValueModel>) -> Seq<u8>
    decreases elems,
{
    if elems.len() == 0 {
        Seq::empty()
    } else {
        encode_model(elems[0]) + encode_elems(elems.drop_first())
    }
}

/// A length prefix: at least one byte, all of them digits.
pub open spec fn spec_parse_len(s: Seq<u8>) -> Option<int> {
    if s.len() > 0 && all_digit_bytes(s) {
        Some(dec_value(s))
    } else {
        None
    }
}

/// What one value at the head of `s` decodes to, and how many bytes it
/// consumes; `None` when `s` does not start with a complete value.
pub open spec fn decode_model(s: Seq<u8>) -> Option<(int, ValueModel)>
    decreases s.len(), 0int,
{
    if s.len() == 0 {
        None
    } else if s[0] == 42 {  // '*'
        match find_crlf(s, 1) {
            Option::None => None,
            Option::Some(i) => {
                if 1 <= i && i + 2 <= s.len() {
                    match spec_parse_len(s.subrange(1, i)) {
                        Option::None => None,
                        Option::Some(count) => match decode_elems(
                            s.subrange(i + 2, s.len() as int),
                            count,
                        ) {
                            Option::None => None,
                            Option::Some((used, elems)) => Some(
                                (i + 2 + used, ValueModel::Array(elems)),
                            ),
                        },
                    }
                } else {
                    None
                }
            },
        }
    } else if s[0] == 36 {  // '$'
        match find_crlf(s, 1) {
            Option::None => None,
            Option::Some(i) => match spec_parse_len(s.subrange(1, i)) {
                Option::None => None,
                Option::Some(n) => {
                    if i + 2 + n + 2 <= s.len() && s[i + 2 + n] == 13 && s[i + 2 + n + 1] == 10 {
                        Some((i + 2 + n + 2, ValueModel::BulkString(s.subrange(i + 2, i + 2 + n))))
                    } else {
                        None
                    }
                },
            },
        }
    } else if s[0] == 43 {  // '+'
        match find_crlf(s, 1) {
            Option::None => None,
            Option::Some(i) => {
                let payload = s.subrange(1, i);
                if is_ascii_bytes(payload) {
                    Some((i + 2, ValueModel::SimpleString(bytes_to_chars(payload))))
                } else {
                    None
                }
            },
        }
    } else if s[0] == 95 {  // '_'
        if s.len() >= 3 && s[1] == 13 && s[2] == 10 {
            Some((3, ValueModel::Null))
        } else {
            None
        }
    } else {
        None
    }
}

/// Decodes `count` consecutive values from the head of `s`.
pub open spec fn decode_elems(s: Seq<u8>, count: int) -> Option<(int, Seq<ValueModel>)>
    decreases s.len(), count + 1,
{
    if count <= 0 {
        Some((0, Seq::empty()))
    } else {
        match decode_model(s) {
            Option::None => None,
            Option::Some((k, v)) => {
                if 1 <= k <= s.len() {
                    match decode_elems(s.subrange(k, s.len() as int), count - 1) {
                        Option::None => None,
                        Option::Some((used, elems)) => Some((k + used, seq![v] + elems)),
                    }
                } else {
                    None
                }
            },
        }
    }
}

/// More values were asked for than bytes remain: the run cannot decode.
pub proof fn lemma_decode_elems_too_many(s: Seq<u8>, count: int)
    requires
        count > s.len(),
    ensures
        decode_elems(s, count) is None,
    decreases count,
{
    if count > 0 {
        match decode_model(s) {
            Option::None => {},
            Option::Some((k, v)) => {
                if 1 <= k <= s.len() {
                    lemma_decode_elems_too_many(s.subrange(k, s.len() as int), count - 1);
                }
            },
        }
    }
}

} // verus!
