//! Small helpers shared across the library: canned protocol replies,
//! conversions between text and bytes, and the replication-id generator.

use vstd::prelude::*;
use vstd::string::StringSliceAdditionalSpecFns;

use crate::resp::RespValues;
use crate::resp::model::ValueModel;
use crate::resp::model::all_digit_bytes;
use crate::resp::model::bytes_to_chars;
use crate::resp::model::chars_to_bytes;
use crate::resp::model::is_ascii_bytes;
use crate::resp::model::is_digit_byte;
use crate::resp::model::wf_model;
use crate::resp::push_bytes;
use crate::resp::simple_string::RespSimpleString;
use crate::resp::value_model;

verus! {

/// Turns ASCII bytes into the text with the same code points.
///
/// Relies on `core::str::from_utf8`: bytes below 128 are valid UTF-8 and
/// decode to the characters with the same code points.
#[verifier::external_body]
pub fn ascii_bytes_to_string(bytes: &[u8]) -> (r: String)
    requires
        is_ascii_bytes(bytes@),
    ensures
        r@ == bytes_to_chars(bytes@),
{
    core::str::from_utf8(bytes).unwrap().to_string()
}

/// Turns valid UTF-8 bytes into the text they encode, refusing any other
/// bytes.
///
/// Relies on `core::str::from_utf8`: it succeeds exactly on valid UTF-8
/// and yields the characters those bytes encode.
#[verifier::external_body]
pub fn utf8_bytes_to_string(bytes: &[u8]) -> (r: Option<String>)
    ensures
        match r {
            Some(s) => vstd::utf8::valid_utf8(bytes@) && s@ == vstd::utf8::decode_utf8(bytes@),
            None => !vstd::utf8::valid_utf8(bytes@),
        },
{
    match core::str::from_utf8(bytes) {
        Ok(s) => Some(s.to_string()),
        Err(_) => None,
    }
}

/// Appends the bytes of ASCII text to `out`.
pub fn push_ascii(out: &mut Vec<u8>, s: &str)
    requires
        s.is_ascii(),
    ensures
        final(out)@ == old(out)@ + chars_to_bytes(s@),
{
    proof {
        vstd::string::is_ascii_spec_bytes(s);
    }
    push_bytes(out, s.as_bytes());
    assert(out@ =~= old(out)@ + chars_to_bytes(s@));
}

/// Whether two byte strings hold the same bytes.
pub fn bytes_eq(a: &[u8], b: &[u8]) -> (r: bool)
    ensures
        r == (a@ == b@),
{
    if a.len() != b.len() {
        proof {
            assert(a@ != b@) by {
                assert(a@.len() != b@.len());
            }
        }
        return false;
    }
    let mut i: usize = 0;
    while i < a.len()
        invariant
            i <= a@.len(),
            a@.len() == b@.len(),
            forall|j: int| 0 <= j < i ==> #[trigger] a@[j] == b@[j],
        decreases a@.len() - i,
    {
        if a[i] != b[i] {
            return false;
        }
        i = i + 1;
    }
    proof {
        assert(a@ =~= b@);
    }
    true
}

/// Whether `b[start..end]` is nonempty and all decimal digits.
pub fn slice_all_digits(b: &[u8], start: usize, end: usize) -> (r: bool)
    requires
        start <= end <= b@.len(),
    ensures
        r == (start < end && all_digit_bytes(b@.subrange(start as int, end as int))),
{
    if start == end {
        return false;
    }
    let ghost sub = b@.subrange(start as int, end as int);
    let mut i: usize = start;
    while i < end
        invariant
            start <= i <= end <= b@.len(),
            sub == b@.subrange(start as int, end as int),
            forall|j: int| 0 <= j < i - start ==> is_digit_byte(#[trigger] sub[j]),
        decreases end - i,
    {
        let x = b[i];
        proof {
            assert(sub[i - start] == x);
        }
        if x < 48 || x > 57 {
            return false;
        }
        i = i + 1;
    }
    true
}

/// Whether the bytes `b` spell exactly the ASCII text `s`.
pub fn name_is(b: &[u8], s: &str) -> (r: bool)
    requires
        s.is_ascii(),
    ensures
        r == (b@ == chars_to_bytes(s@)),
{
    proof {
        vstd::string::is_ascii_spec_bytes(s);
        assert(s.spec_bytes() =~= chars_to_bytes(s@));
    }
    bytes_eq(b, s.as_bytes())
}

/// Whether ASCII text is free of the protocol terminator `\r\n`.
pub fn ascii_no_crlf(s: &str) -> (r: bool)
    requires
        s.is_ascii(),
    ensures
        r == crate::resp::model::no_crlf_chars(s@),
{
    proof {
        vstd::string::is_ascii_spec_bytes(s);
    }
    let b = s.as_bytes();
    let n = b.len();
    let mut i: usize = 0;
    while i < n && i + 1 < n
        invariant
            n == b@.len(),
            b@.len() == s@.len(),
            forall|j: int| 0 <= j < s@.len() ==> #[trigger] b@[j] == s@[j] as u8,
            forall|j: int| 0 <= j < s@.len() ==> '\0' <= #[trigger] s@[j] <= '\u{7f}',
            i <= s@.len(),
            forall|j: int| 0 <= j < i ==> !(#[trigger] s@[j] == '\r' && s@[j + 1] == '\n'),
        decreases b@.len() - i,
    {
        if b[i] == 13 && b[i + 1] == 10 {
            proof {
                assert(s@[i as int] == '\r' && s@[i + 1] == '\n');
            }
            return false;
        }
        proof {
            if s@[i as int] == '\r' && s@[i + 1] == '\n' {
                assert(b@[i as int] == 13 && b@[i + 1] == 10);
            }
        }
        i = i + 1;
    }
    true
}

/// The `PONG` reply a server answers to `PING`.
pub fn ping_response() -> (r: RespValues)
    ensures
        value_model(r) == ValueModel::SimpleString("PONG"@),
        wf_model(value_model(r)),
{
    proof {
        reveal_strlit("PONG");
    }
    RespValues::SimpleString(RespSimpleString::from_str("PONG"))
}

/// The `OK` reply that acknowledges a write or a registration step.
pub fn ok_response() -> (r: RespValues)
    ensures
        value_model(r) == ValueModel::SimpleString("OK"@),
        wf_model(value_model(r)),
{
    proof {
        reveal_strlit("OK");
    }
    RespValues::SimpleString(RespSimpleString::from_str("OK"))
}

/// The null reply that stands for an absent value.
pub fn null_response() -> (r: RespValues)
    ensures
        value_model(r) == ValueModel::Null,
        wf_model(value_model(r)),
{
    RespValues::Null(crate::resp::null::RespNull {  })
}

/// A character the replication id may use: a decimal digit or a lowercase
/// letter.
pub open spec fn is_replid_char(c: char) -> bool {
    ('0' <= c && c <= '9') || ('a' <= c && c <= 'z')
}

/// A replication id: exactly forty digits or lowercase letters.
pub open spec fn wf_replid(s: Seq<char>) -> bool {
    s.len() == 40 && forall|i: int| 0 <= i < s.len() ==> is_replid_char(#[trigger] s[i])
}

/// One uniform draw among the thirty-six characters the id may use.
///
/// Relies on `rand::Rng::gen_range`: a sample from the range `0..36` lies
/// in that range.
#[verifier::external_body]
fn random_index36() -> (r: u8)
    ensures
        r < 36,
{
    rand::Rng::gen_range(&mut rand::thread_rng(), 0..36u8)
}

/// A fresh forty-character replication id drawn uniformly over digits and
/// lowercase letters. The draws are random: nothing relates two calls.
pub fn generate_master_replid() -> (r: String)
    ensures
        wf_replid(r@),
{
    let mut bytes: Vec<u8> = Vec::new();
    let mut i: usize = 0;
    while i < 40
        invariant
            i <= 40,
            bytes@.len() == i,
            forall|j: int|
                0 <= j < i ==> (48 <= #[trigger] bytes@[j] && bytes@[j] <= 57) || (97 <= bytes@[j]
                    && bytes@[j] <= 122),
        decreases 40 - i,
    {
        let n = random_index36();
        let c: u8 = if n < 10 {
            48 + n
        } else {
            87 + n  // 97 + (n - 10)
        };
        bytes.push(c);
        i = i + 1;
    }
    let r = ascii_bytes_to_string(bytes.as_slice());
    proof {
        assert forall|j: int| 0 <= j < r@.len() implies is_replid_char(#[trigger] r@[j]) by {
            assert(r@[j] == bytes@[j] as char);
        }
    }
    r
}

} // verus!
