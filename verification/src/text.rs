//! Reading bytes as UTF-8 text.

use vstd::prelude::*;
use vstd::string::StringSliceAdditionalSpecFns;
use vstd::utf8::*;

verus! {

/// `core::str::Utf8Error`, which `core::str::from_utf8` fails with. It is
/// handed on unread.
#[verifier::external_type_specification]
#[verifier::external_body]
pub struct ExUtf8Error(core::str::Utf8Error);

/// `core::str::from_utf8` succeeds exactly on well-formed UTF-8, and the
/// text it hands back is made of the very bytes it was given.
pub assume_specification[ core::str::from_utf8 ](v: &[u8]) -> (r: Result<
    &str,
    core::str::Utf8Error,
>)
    ensures
        r is Ok <==> valid_utf8(v@),
        r matches Ok(s) ==> s.spec_bytes() == v@,
;

/// The characters that stand for `bytes` when each byte is one character.
pub open spec fn ascii_text(bytes: Seq<u8>) -> Seq<char> {
    bytes.map_values(|b: u8| b as char)
}

/// Every byte is below 128.
pub open spec fn is_ascii_bytes(bytes: Seq<u8>) -> bool {
    forall|i: int| 0 <= i < bytes.len() ==> #[trigger] bytes[i] < 128
}

/// Bytes below 128 are well-formed UTF-8 and decode byte by byte.
pub proof fn lemma_ascii_bytes_decode(bytes: Seq<u8>)
    requires
        is_ascii_bytes(bytes),
    ensures
        valid_utf8(bytes),
        decode_utf8(bytes) == ascii_text(bytes),
        encode_utf8(ascii_text(bytes)) == bytes,
{
    let chars = ascii_text(bytes);
    assert forall|i: int| 0 <= i < chars.len() implies '\0' <= #[trigger] chars[i] <= '\u{7f}' by {
        assert(bytes[i] < 128);
    }
    assert(is_ascii_chars(chars));
    is_ascii_chars_encode_utf8(chars);
    assert forall|i: int| 0 <= i < bytes.len() implies encode_utf8(chars)[i] == bytes[i] by {
        assert(bytes[i] < 128);
        assert(chars[i] as u8 == encode_utf8(chars)[i]);
    }
    assert(encode_utf8(chars) =~= bytes);
    encode_utf8_valid_utf8(chars);
    encode_utf8_decode_utf8(chars);
}

/// The character of the decimal digit `d`.
pub open spec fn digit(d: nat) -> char
    recommends
        d < 10,
{
    ((48 + d) as u8) as char
}

/// The decimal numeral of `n`, without leading zeros.
pub open spec fn decimal(n: nat) -> Seq<char>
    decreases n,
{
    if n < 10 {
        seq![digit(n)]
    } else {
        decimal(n / 10).push(digit(n % 10))
    }
}

/// Putting ASCII bytes behind ASCII bytes puts their text behind the text.
pub proof fn lemma_ascii_text_concat(head: Seq<u8>, tail: Seq<u8>)
    requires
        is_ascii_bytes(head),
        is_ascii_bytes(tail),
    ensures
        is_ascii_bytes(head + tail),
        ascii_text(head + tail) == ascii_text(head) + ascii_text(tail),
{
    assert(ascii_text(head + tail) =~= ascii_text(head) + ascii_text(tail));
}

/// Appends the bytes of the ASCII text `s`.
pub fn push_ascii(out: &mut Vec<u8>, s: &str)
    requires
        is_ascii_bytes(old(out)@),
        is_ascii_chars(s@),
    ensures
        is_ascii_bytes(final(out)@),
        ascii_text(final(out)@) == ascii_text(old(out)@) + s@,
{
    let bytes = s.as_bytes();
    proof {
        is_ascii_chars_encode_utf8(s@);
        assert(is_ascii_bytes(bytes@)) by {
            assert forall|i: int| 0 <= i < bytes@.len() implies #[trigger] bytes@[i] < 128 by {
                assert(s@[i] as u8 == bytes@[i]);
            }
        }
        lemma_ascii_bytes_decode(bytes@);
        encode_utf8_decode_utf8(s@);
        lemma_ascii_text_concat(out@, bytes@);
    }
    out.extend_from_slice(bytes);
}

/// Appends the bytes `bytes`, all of them ASCII.
pub fn push_ascii_bytes(out: &mut Vec<u8>, bytes: &[u8])
    requires
        is_ascii_bytes(old(out)@),
        is_ascii_bytes(bytes@),
    ensures
        is_ascii_bytes(final(out)@),
        ascii_text(final(out)@) == ascii_text(old(out)@) + ascii_text(bytes@),
{
    proof {
        lemma_ascii_text_concat(out@, bytes@);
    }
    out.extend_from_slice(bytes);
}

/// Appends the decimal numeral of `n`.
pub fn push_decimal(out: &mut Vec<u8>, n: u64)
    requires
        is_ascii_bytes(old(out)@),
    ensures
        is_ascii_bytes(final(out)@),
        ascii_text(final(out)@) == ascii_text(old(out)@) + decimal(n as nat),
    decreases n,
{
    if n >= 10 {
        push_decimal(out, n / 10);
    }
    let ghost before = out@;
    let d: u8 = (n % 10) as u8;
    out.push(48 + d);
    proof {
        assert(out@ =~= before + seq![(48 + d) as u8]);
        assert(is_ascii_bytes(seq![(48 + d) as u8]));
        lemma_ascii_text_concat(before, seq![(48 + d) as u8]);
        assert(ascii_text(seq![(48 + d) as u8]) =~= seq![digit((n % 10) as nat)]);
        if n >= 10 {
            assert(ascii_text(old(out)@) + decimal((n / 10) as nat) + seq![digit((n % 10) as nat)]
                =~= ascii_text(old(out)@) + decimal(n as nat));
        } else {
            assert(before == old(out)@);
            assert(decimal(n as nat) =~= seq![digit(n as nat)]);
        }
    }
}

/// The text that ASCII bytes spell.
pub fn ascii_string(bytes: &[u8]) -> (s: String)
    requires
        is_ascii_bytes(bytes@),
    ensures
        s@ == ascii_text(bytes@),
{
    proof {
        lemma_ascii_bytes_decode(bytes@);
    }
    match core::str::from_utf8(bytes) {
        Ok(text) => {
            proof {
                encode_utf8_decode_utf8(text@);
            }
            text.to_owned()
        },
        Err(_) => vstd::pervasive::unreached(),
    }
}

} // verus!
