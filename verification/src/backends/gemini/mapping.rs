//! Stop reasons, token counts and URL encoding for Gemini.

use crate::json::{Json, JsonView};
use crate::text::same;
use crate::types::{StopReason, Usage};
use vstd::prelude::*;
use vstd::string::*;
use vstd::utf8::*;

verus! {

/// What Gemini's name of a finish reason means.
pub open spec fn stop_reason(s: Seq<char>) -> StopReason {
    if s == "STOP"@ {
        StopReason::EndTurn
    } else if s == "MAX_TOKENS"@ {
        StopReason::MaxTokens
    } else if s == "SAFETY"@ || s == "RECITATION"@ {
        StopReason::ContentFilter
    } else {
        StopReason::Other
    }
}

/// Maps Gemini's name of a finish reason.
pub fn map_stop_reason(s: &str) -> (r: StopReason)
    ensures
        r == stop_reason(s@),
{
    if same(s, "STOP") {
        StopReason::EndTurn
    } else if same(s, "MAX_TOKENS") {
        StopReason::MaxTokens
    } else if same(s, "SAFETY") || same(s, "RECITATION") {
        StopReason::ContentFilter
    } else {
        StopReason::Other
    }
}

/// The token counts of a `usageMetadata` object.
pub open spec fn usage_of(u: JsonView) -> Usage {
    Usage {
        input_tokens: u.u64_or_zero("promptTokenCount"@),
        output_tokens: u.u64_or_zero("candidatesTokenCount"@),
        cached_input_tokens: u.u64_or_zero("cachedContentTokenCount"@),
        cache_creation_tokens: 0,
        thinking_tokens: u.u64_or_zero("thoughtsTokenCount"@),
    }
}

/// Reads the token counts of a `usageMetadata` object.
pub fn parse_usage(u: &Json) -> (r: Usage)
    ensures
        r == usage_of(u@),
{
    Usage {
        input_tokens: u.u64_or_zero("promptTokenCount"),
        output_tokens: u.u64_or_zero("candidatesTokenCount"),
        cached_input_tokens: u.u64_or_zero("cachedContentTokenCount"),
        cache_creation_tokens: 0,
        thinking_tokens: u.u64_or_zero("thoughtsTokenCount"),
    }
}

/// Whether a byte may stand in a query string as it is.
pub open spec fn is_unreserved(b: u8) -> bool {
    ||| 0x41 <= b <= 0x5a
    ||| 0x61 <= b <= 0x7a
    ||| 0x30 <= b <= 0x39
    ||| b == 0x2d
    ||| b == 0x5f
    ||| b == 0x2e
    ||| b == 0x7e
}

/// The digit of a value below sixteen, in upper case.
pub open spec fn upper_digit(n: u8) -> char {
    if n < 10 {
        (0x30 + n) as char
    } else {
        (0x37 + n) as char
    }
}

/// A byte in a query string.
pub open spec fn byte_code(b: u8) -> Seq<char> {
    if is_unreserved(b) {
        seq![b as char]
    } else {
        seq!['%', upper_digit(b / 16), upper_digit(b % 16)]
    }
}

/// Bytes in a query string.
pub open spec fn percent_encoded(bytes: Seq<u8>) -> Seq<char>
    decreases bytes.len(),
{
    if bytes.len() == 0 {
        seq![]
    } else {
        percent_encoded(bytes.drop_last()) + byte_code(bytes.last())
    }
}

/// The character of a digit in base sixteen, in upper case.
fn upper_digit_char(n: u8) -> (c: char)
    requires
        n < 16,
    ensures
        c == upper_digit(n),
{
    if n < 10 {
        (0x30 + n) as char
    } else {
        (0x37 + n) as char
    }
}

/// Encodes a text for a query string, byte by byte.
pub fn urlencoding(s: &str) -> (r: String)
    ensures
        r@ == percent_encoded(encode_utf8(s@)),
{
    let bytes: &[u8] = s.as_bytes();
    let mut out: String = String::new();
    let mut i: usize = 0;
    assert(bytes@.take(0) =~= seq![]);
    while i < bytes.len()
        invariant
            i <= bytes@.len(),
            out@ == percent_encoded(bytes@.take(i as int)),
        decreases bytes@.len() - i,
    {
        let b: u8 = bytes[i];
        let ghost before = out@;
        proof {
            assert(bytes@.take(i + 1).drop_last() =~= bytes@.take(i as int));
        }
        if (0x41 <= b && b <= 0x5a) || (0x61 <= b && b <= 0x7a) || (0x30 <= b && b <= 0x39) || b
            == 0x2d || b == 0x5f || b == 0x2e || b == 0x7e {
            out.push(b as char);
        } else {
            out.push('%');
            out.push(upper_digit_char(b / 16));
            out.push(upper_digit_char(b % 16));
        }
        assert(out@ =~= before + byte_code(b));
        i += 1;
    }
    assert(bytes@.take(bytes@.len() as int) =~= bytes@);
    out
}

/// Whether a character may stand in an encoded text.
pub open spec fn is_query_char(c: char) -> bool {
    c == '%' || (c as u32 <= 0x7f && is_unreserved(c as u8))
}

/// An encoded text holds nothing that would end or split a query string.
pub proof fn law_encoded_text_is_safe(bytes: Seq<u8>)
    ensures
        forall|i: int|
            0 <= i < percent_encoded(bytes).len() ==> is_query_char(
                #[trigger] percent_encoded(bytes)[i],
            ),
    decreases bytes.len(),
{
    if bytes.len() > 0 {
        law_encoded_text_is_safe(bytes.drop_last());
        let b = bytes.last();
        let d = b / 16;
        let m = b % 16;
        assert(d < 16 && m < 16);
        let whole = percent_encoded(bytes);
        let n = percent_encoded(bytes.drop_last()).len() as int;
        assert forall|i: int| 0 <= i < whole.len() implies is_query_char(#[trigger] whole[i]) by {
            if i < n {
                assert(whole[i] == percent_encoded(bytes.drop_last())[i]);
            } else {
                assert(whole[i] == byte_code(b)[i - n]);
            }
        }
    }
}

/// Bytes are encoded one by one, so that a text can be split anywhere.
proof fn lemma_encoded_parts(a: Seq<u8>, b: Seq<u8>)
    ensures
        percent_encoded(a + b) == percent_encoded(a) + percent_encoded(b),
    decreases b.len(),
{
    if b.len() == 0 {
        assert(a + b =~= a);
        assert(percent_encoded(a) + percent_encoded(b) =~= percent_encoded(a));
    } else {
        assert((a + b).drop_last() =~= a + b.drop_last());
        lemma_encoded_parts(a, b.drop_last());
        assert(percent_encoded(a + b) =~= percent_encoded(a) + percent_encoded(b));
    }
}

proof fn lemma_one_byte(b: u8)
    ensures
        percent_encoded(seq![b]) == byte_code(b),
{
    reveal_with_fuel(percent_encoded, 2);
    assert(seq![b].drop_last() =~= seq![]);
    assert(percent_encoded(seq![b]) =~= byte_code(b));
}

proof fn lemma_utf8_parts(a: Seq<char>, b: Seq<char>)
    ensures
        encode_utf8(a + b) == encode_utf8(a) + encode_utf8(b),
    decreases a.len(),
{
    if a.len() == 0 {
        assert(a + b =~= b);
        assert(encode_utf8(a) + encode_utf8(b) =~= encode_utf8(b));
    } else {
        assert((a + b).drop_first() =~= a.drop_first() + b);
        lemma_utf8_parts(a.drop_first(), b);
        assert(encode_utf8(a + b) =~= encode_utf8(a) + encode_utf8(b));
    }
}

/// The encoding of a text is that of its parts, wherever it is split.
pub proof fn law_encoding_splits(a: Seq<char>, b: Seq<char>)
    ensures
        percent_encoded(encode_utf8(a + b)) == percent_encoded(encode_utf8(a)) + percent_encoded(
            encode_utf8(b),
        ),
{
    lemma_utf8_parts(a, b);
    lemma_encoded_parts(encode_utf8(a), encode_utf8(b));
}

/// The value of a digit in base sixteen, in upper case.
pub open spec fn digit_value(c: char) -> int {
    if '0' <= c <= '9' {
        c as int - 0x30
    } else {
        c as int - 0x37
    }
}

/// Whether a character is a digit in base sixteen, in upper case.
pub open spec fn is_upper_digit(c: char) -> bool {
    '0' <= c <= '9' || 'A' <= c <= 'F'
}

/// Whether a text consists of characters that need no encoding and of percent signs
/// with two digits behind each.
pub open spec fn is_percent_text(s: Seq<char>) -> bool
    decreases s.len(),
{
    if s.len() == 0 {
        true
    } else if s[0] == '%' {
        s.len() >= 3 && is_upper_digit(s[1]) && is_upper_digit(s[2]) && is_percent_text(s.skip(3))
    } else {
        s[0] as u32 <= 0x7f && is_unreserved(s[0] as u8) && is_percent_text(s.skip(1))
    }
}

/// The bytes that such a text stands for.
pub open spec fn percent_decoded(s: Seq<char>) -> Seq<u8>
    decreases s.len(),
{
    if s.len() == 0 {
        seq![]
    } else if s[0] == '%' && s.len() >= 3 {
        seq![(digit_value(s[1]) * 16 + digit_value(s[2])) as u8] + percent_decoded(s.skip(3))
    } else {
        seq![s[0] as u8] + percent_decoded(s.skip(1))
    }
}

/// Nothing is lost: an encoded text is well formed, and decoding it gives the bytes
/// back.
pub proof fn law_encoding_is_undone(bytes: Seq<u8>)
    ensures
        is_percent_text(percent_encoded(bytes)),
        percent_decoded(percent_encoded(bytes)) == bytes,
    decreases bytes.len(),
{
    if bytes.len() > 0 {
        let b = bytes[0];
        let rest = bytes.drop_first();
        law_encoding_is_undone(rest);
        assert(bytes =~= seq![b] + rest);
        lemma_encoded_parts(seq![b], rest);
        lemma_one_byte(b);
        let s = percent_encoded(bytes);
        assert(s == byte_code(b) + percent_encoded(rest));
        if is_unreserved(b) {
            assert(s[0] == b as char);
            assert(s.skip(1) =~= percent_encoded(rest));
        } else {
            let d = b / 16;
            let m = b % 16;
            assert(d < 16 && m < 16 && d * 16 + m == b);
            assert(s[0] == '%' && s[1] == upper_digit(d) && s[2] == upper_digit(m));
            assert(s.skip(3) =~= percent_encoded(rest));
        }
        assert(percent_decoded(s) =~= bytes);
    }
}

/// Whether a character needs no encoding.
pub open spec fn is_plain_char(c: char) -> bool {
    c as u32 <= 0x7f && is_unreserved(c as u8)
}

proof fn lemma_encoded_len(bytes: Seq<u8>)
    ensures
        percent_encoded(bytes).len() >= bytes.len(),
    decreases bytes.len(),
{
    if bytes.len() > 0 {
        lemma_encoded_len(bytes.drop_last());
    }
}

proof fn lemma_plain_char(c: char)
    ensures
        is_plain_char(c) ==> percent_encoded(encode_scalar(c as u32)) == seq![c],
        !is_plain_char(c) ==> percent_encoded(encode_scalar(c as u32)).len() > 1,
{
    let code = encode_scalar(c as u32);
    lemma_encoded_len(code);
    if c as u32 <= 0x7f {
        let n = c as u32;
        assert((n & 0x7F) as u8 == n as u8) by (bit_vector)
            requires
                n <= 0x7f,
        ;
        assert(code =~= seq![c as u8]);
        lemma_one_byte(c as u8);
    }
}

proof fn lemma_plain_text(s: Seq<char>)
    ensures
        percent_encoded(encode_utf8(s)).len() >= s.len(),
        (forall|i: int| 0 <= i < s.len() ==> is_plain_char(#[trigger] s[i])) ==> percent_encoded(
            encode_utf8(s),
        ) == s,
        (exists|i: int| 0 <= i < s.len() && !is_plain_char(#[trigger] s[i])) ==> percent_encoded(
            encode_utf8(s),
        ).len() > s.len(),
    decreases s.len(),
{
    if s.len() > 0 {
        let rest = s.drop_first();
        lemma_plain_text(rest);
        lemma_plain_char(s[0]);
        lemma_encoded_parts(encode_scalar(s[0] as u32), encode_utf8(rest));
        assert forall|i: int| 0 <= i < rest.len() implies rest[i] == #[trigger] s[i + 1] by {}
        if forall|i: int| 0 <= i < s.len() ==> is_plain_char(#[trigger] s[i]) {
            assert forall|i: int| 0 <= i < rest.len() implies is_plain_char(#[trigger] rest[i]) by {
                assert(is_plain_char(s[i + 1]));
            }
            assert(is_plain_char(s[0]));
            assert(seq![s[0]] + rest =~= s);
        }
        if exists|i: int| 0 <= i < s.len() && !is_plain_char(#[trigger] s[i]) {
            let i = choose|i: int| 0 <= i < s.len() && !is_plain_char(#[trigger] s[i]);
            if i > 0 {
                assert(!is_plain_char(rest[i - 1]));
            }
        }
    }
}

/// A text is left as it is if and only if none of its characters needs encoding.
pub proof fn law_plain_text_is_kept(s: Seq<char>)
    ensures
        percent_encoded(encode_utf8(s)) == s <==> (forall|i: int|
            0 <= i < s.len() ==> is_plain_char(#[trigger] s[i])),
{
    lemma_plain_text(s);
}

} // verus!
