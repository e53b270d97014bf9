//! What the HTTP backends share: server-sent events, header and URL checks,
//! truncation of bodies for messages, and the delay that a server asks for.

use crate::text::{byte_len, char_width, chars_of, same, text_of_range, width_of};
use crate::json::{at, parse_lenient, parse_or_null, Json};
use crate::types::{ErrorView, ProviderError};
use vstd::prelude::*;
use vstd::string::*;
use vstd::utf8::*;

verus! {

/// One server-sent event.
#[derive(Debug, Clone, PartialEq)]
pub struct SseEvent {
    pub event: String,
    pub data: String,
}

/// Headers that a deployment adds to every request.
#[derive(Debug, Clone, PartialEq)]
pub struct HttpProviderExtras {
    pub headers: Vec<(String, String)>,
}

impl Default for HttpProviderExtras {
    fn default() -> (r: HttpProviderExtras)
        ensures
            r.headers@.len() == 0,
    {
        HttpProviderExtras { headers: Vec::new() }
    }
}

/// The header names and values of a request.
pub open spec fn header_views(h: Seq<(String, String)>) -> Seq<(Seq<char>, Seq<char>)> {
    h.map_values(|p: (String, String)| (p.0@, p.1@))
}

/// What `Url::parse` makes of a text: the URL as it is written out, or the text of
/// the error.
pub uninterp spec fn url_parse(text: Seq<char>) -> Result<Seq<char>, Seq<char>>;

/// `Url::parse`: the URL as it is written out, or the text of the error. Both are
/// a function of the text.
#[verifier::external_body]
pub(crate) fn parse_url(text: &str) -> (r: Result<String, String>)
    ensures
        match r {
            Ok(u) => url_parse(text@) == Ok::<Seq<char>, Seq<char>>(u@),
            Err(e) => url_parse(text@) == Err::<Seq<char>, Seq<char>>(e@),
        },
{
    url::Url::parse(text).map(String::from).map_err(|e| e.to_string())
}

/// A URL, or the error that its text gives.
pub open spec fn url_outcome(parsed: Result<Seq<char>, Seq<char>>, prefix: Seq<char>) -> Result<
    Seq<char>,
    ErrorView,
> {
    match parsed {
        Ok(u) => Ok(u),
        Err(e) => Err(ErrorView::Internal(prefix + e)),
    }
}

/// Takes what parsing a URL gave.
pub fn url_or_error(parsed: Result<String, String>, prefix: &str) -> (r: Result<
    String,
    ProviderError,
>)
    ensures
        crate::types::text_result(r) == url_outcome(
            match parsed {
                Ok(u) => Ok::<Seq<char>, Seq<char>>(u@),
                Err(e) => Err::<Seq<char>, Seq<char>>(e@),
            },
            prefix@,
        ),
{
    match parsed {
        Ok(u) => Ok(u),
        Err(e) => {
            let mut msg: String = prefix.to_owned();
            msg.append(e.as_str());
            Err(ProviderError::Internal(msg))
        },
    }
}

/// What the outcome of building headers says.
pub open spec fn headers_result(r: Result<Vec<(String, String)>, ProviderError>) -> Result<
    Seq<(Seq<char>, Seq<char>)>,
    ErrorView,
> {
    match r {
        Ok(h) => Ok(header_views(h@)),
        Err(e) => Err(e@),
    }
}

/// Whether a byte may stand in a header value.
pub open spec fn header_byte(b: u8) -> bool {
    b >= 32 && b != 127 || b == 9
}

/// Whether a text may be a header value.
pub open spec fn header_text(s: Seq<char>) -> bool {
    forall|i: int| 0 <= i < encode_utf8(s).len() ==> header_byte(#[trigger] encode_utf8(s)[i])
}

/// `HeaderValue::from_str` accepts a text when each of its bytes is a tab, or at
/// least 32 and not 127. The error always reads the same.
#[verifier::external_body]
pub(crate) fn check_header(s: &str) -> (r: Result<(), String>)
    ensures
        r is Ok <==> header_text(s@),
        r matches Err(e) ==> e@ == "failed to parse header value"@,
{
    reqwest::header::HeaderValue::from_str(s).map(|_| ()).map_err(|e| e.to_string())
}

/// How an HTTP status is written out.
pub uninterp spec fn http_status_text(code: u16) -> Seq<char>;

/// The `Display` of a `StatusCode`: the number and its canonical reason.
#[verifier::external_body]
pub(crate) fn status_text(code: u16) -> (r: String)
    requires
        100 <= code <= 999,
    ensures
        r@ == http_status_text(code),
{
    reqwest::StatusCode::from_u16(code).map(|s| s.to_string()).unwrap_or_default()
}

/// The lower-case form of a text.
pub uninterp spec fn lowercase(s: Seq<char>) -> Seq<char>;

/// `str::to_lowercase`: a function of the text, by Unicode's tables.
#[verifier::external_body]
pub(crate) fn to_lowercase(s: &str) -> (r: String)
    ensures
        r@ == lowercase(s@),
{
    s.to_lowercase()
}

/// The upper-case form of a text.
pub uninterp spec fn uppercase(s: Seq<char>) -> Seq<char>;

/// `str::to_uppercase`: a function of the text, by Unicode's tables.
#[verifier::external_body]
pub(crate) fn to_uppercase(s: &str) -> (r: String)
    ensures
        r@ == uppercase(s@),
{
    s.to_uppercase()
}

/// A text as `Debug` writes it: quoted, with escapes.
pub uninterp spec fn quoted(s: Seq<char>) -> Seq<char>;

/// The `Debug` of a `str`.
#[verifier::external_body]
pub(crate) fn quote(s: &str) -> (r: String)
    ensures
        r@ == quoted(s@),
{
    format!("{s:?}")
}

/// The longest prefix that takes at most `max` bytes.
pub open spec fn fitting(s: Seq<char>, max: nat) -> Seq<char>
    decreases s.len(),
{
    if s.len() == 0 || char_width(s[0]) > max {
        seq![]
    } else {
        seq![s[0]] + fitting(s.drop_first(), (max - char_width(s[0])) as nat)
    }
}

/// The longest prefix of at most `max` bytes, cut between characters.
pub fn truncate_utf8<'a>(s: &'a str, max: usize) -> (r: &'a str)
    ensures
        r@ == fitting(s@, max as nat),
{
    let cs: Vec<char> = chars_of(s);
    let mut left: usize = max;
    let mut k: usize = 0;
    assert(cs@.subrange(0, cs@.len() as int) =~= cs@);
    assert(cs@.take(0) + fitting(cs@, max as nat) =~= fitting(cs@, max as nat));
    while k < cs.len() && width_of(cs[k]) <= left
        invariant
            k <= cs@.len(),
            cs@.take(k as int) + fitting(cs@.skip(k as int), left as nat) == fitting(
                cs@,
                max as nat,
            ),
        decreases cs@.len() - k,
    {
        let ghost rest = cs@.skip(k as int);
        assert(rest.drop_first() =~= cs@.skip(k + 1));
        left -= width_of(cs[k]);
        assert(cs@.take(k as int) + (seq![cs@[k as int]] + fitting(cs@.skip(k + 1), left as nat))
            =~= cs@.take(k + 1) + fitting(cs@.skip(k + 1), left as nat));
        k += 1;
    }
    assert(cs@.take(k as int) + fitting(cs@.skip(k as int), left as nat) =~= cs@.take(k as int));
    s.substring_char(0, k)
}

/// A text cut to `max` bytes, with an ellipsis where something was cut off.
pub open spec fn ellipsized(s: Seq<char>, max: nat) -> Seq<char> {
    if fitting(s, max) == s {
        s
    } else {
        fitting(s, max) + "…"@
    }
}

/// A character takes as many bytes as its width says.
proof fn lemma_first_width(s: Seq<char>)
    requires
        s.len() > 0,
    ensures
        byte_len(s) == char_width(s[0]) + byte_len(s.drop_first()),
{
    char_is_scalar(s[0]);
    assert(encode_scalar(s[0] as u32).len() == char_width(s[0]));
}

/// A text is cut at the last place between characters that the limit admits: what
/// is left is a front of the text, is within the limit, and one character more would
/// not be.
pub proof fn law_cut_is_tight(s: Seq<char>, max: nat)
    ensures
        fitting(s, max).len() <= s.len(),
        fitting(s, max) == s.take(fitting(s, max).len() as int),
        byte_len(fitting(s, max)) <= max,
        byte_len(s) <= max ==> fitting(s, max) == s,
        fitting(s, max).len() < s.len() ==> byte_len(fitting(s, max)) + char_width(
            s[fitting(s, max).len() as int],
        ) > max,
    decreases s.len(),
{
    let cut = fitting(s, max);
    if s.len() > 0 {
        lemma_first_width(s);
    }
    if s.len() > 0 && char_width(s[0]) <= max {
        let t = s.drop_first();
        let m = (max - char_width(s[0])) as nat;
        law_cut_is_tight(t, m);
        assert(cut.drop_first() =~= fitting(t, m));
        lemma_first_width(cut);
        assert(cut =~= s.take(cut.len() as int));
        if byte_len(s) <= max {
            assert(cut =~= s);
        }
    } else {
        assert(cut =~= s.take(0));
        if byte_len(s) <= max {
            assert(s.len() == 0);
            assert(cut =~= s);
        }
    }
}

/// Cuts a text to `max` bytes, with an ellipsis where something was cut off.
pub fn truncate(s: &str, max: usize) -> (r: String)
    ensures
        r@ == ellipsized(s@, max as nat),
{
    let cut: &str = truncate_utf8(s, max);
    if same(cut, s) {
        s.to_owned()
    } else {
        let mut out: String = cut.to_owned();
        out.append("…");
        out
    }
}

/// What a server says of a failure: the message in its reply, or else the reply
/// itself, cut short.
pub open spec fn failure_message(body: Seq<char>) -> Seq<char> {
    match parse_or_null(body).at("error"@).at("message"@).as_str() {
        Some(m) => m,
        None => ellipsized(body, 300),
    }
}

/// Reads what a server says of a failure.
pub fn error_message(body: &str) -> (r: String)
    ensures
        r@ == failure_message(body@),
{
    let null: Json = Json::Null;
    let v: Json = parse_lenient(body);
    match at(&v, "error", &null).str_at("message") {
        Some(m) => m.to_owned(),
        None => truncate(body, 300),
    }
}

/// A status and a message in one line.
pub fn status_message(line: &str, message: &str) -> (r: String)
    ensures
        r@ == "status "@ + line@ + ": "@ + message@,
{
    let mut out: String = "status ".to_owned();
    out.append(line);
    out.append(": ");
    out.append(message);
    out
}

/// The text without the slashes at its end.
pub open spec fn no_end_slash(s: Seq<char>) -> Seq<char>
    decreases s.len(),
{
    if s.len() > 0 && s.last() == '/' {
        no_end_slash(s.drop_last())
    } else {
        s
    }
}

/// Removes the slashes at the end.
pub fn trim_end_slashes(s: &str) -> (r: String)
    ensures
        r@ == no_end_slash(s@),
{
    let cs: Vec<char> = chars_of(s);
    let mut to: usize = cs.len();
    assert(cs@.take(cs@.len() as int) =~= cs@);
    while to > 0 && cs[to - 1] == '/'
        invariant
            to <= cs@.len(),
            no_end_slash(cs@.take(to as int)) == no_end_slash(cs@),
        decreases to,
    {
        assert(cs@.take(to as int).drop_last() =~= cs@.take(to - 1));
        to -= 1;
    }
    assert(cs@.subrange(0, to as int) =~= cs@.take(to as int));
    text_of_range(&cs, 0, to)
}

/// Whether a character is a decimal digit.
pub open spec fn is_digit(c: char) -> bool {
    '0' <= c && c <= '9'
}

/// The number that a text of digits writes.
pub open spec fn digits_value(s: Seq<char>) -> nat
    decreases s.len(),
{
    if s.len() == 0 {
        0
    } else {
        digits_value(s.drop_last()) * 10 + (s.last() as nat - 0x30) as nat
    }
}

/// The number that a text writes, where it is one that fits in a `u64`.
pub open spec fn number_in(s: Seq<char>) -> Option<u64> {
    if s.len() > 0 && (forall|i: int| 0 <= i < s.len() ==> is_digit(#[trigger] s[i]))
        && digits_value(s) <= u64::MAX {
        Some(digits_value(s) as u64)
    } else {
        None
    }
}

/// A longer text of digits writes no smaller number.
proof fn lemma_digits_grow(s: Seq<char>, k: int)
    requires
        0 <= k <= s.len(),
    ensures
        digits_value(s.take(k)) <= digits_value(s),
    decreases s.len() - k,
{
    if k < s.len() {
        lemma_digits_grow(s, k + 1);
        assert(s.take(k + 1).drop_last() =~= s.take(k));
    } else {
        assert(s.take(k) =~= s);
    }
}

/// Reads a decimal number.
pub fn parse_number(s: &str) -> (r: Option<u64>)
    ensures
        r == number_in(s@),
{
    let cs: Vec<char> = chars_of(s);
    if cs.len() == 0 {
        return None;
    }
    let mut n: u64 = 0;
    let mut i: usize = 0;
    while i < cs.len()
        invariant
            i <= cs@.len(),
            cs@ == s@,
            forall|j: int| 0 <= j < i ==> is_digit(#[trigger] s@[j]),
            n == digits_value(s@.take(i as int)),
        decreases cs@.len() - i,
    {
        let c: char = cs[i];
        proof {
            lemma_digits_grow(s@, i + 1);
            assert(s@.take(i + 1).drop_last() =~= s@.take(i as int));
        }
        if !('0' <= c && c <= '9') {
            assert(!is_digit(s@[i as int]));
            return None;
        }
        let d: u64 = (c as u64) - 0x30;
        if n > (u64::MAX - d) / 10 {
            return None;
        }
        n = n * 10 + d;
        i += 1;
    }
    assert(s@.take(s@.len() as int) =~= s@);
    Some(n)
}

/// The value of the first header with this name.
pub open spec fn header_value(h: Seq<(String, String)>, name: Seq<char>) -> Option<Seq<char>>
    decreases h.len(),
{
    if h.len() == 0 {
        None
    } else if h[0].0@ == name {
        Some(h[0].1@)
    } else {
        header_value(h.drop_first(), name)
    }
}

/// Finds the first header with this name. Names are in lower case.
pub fn find_header<'a>(h: &'a Vec<(String, String)>, name: &str) -> (r: Option<&'a str>)
    ensures
        crate::text::opt_slice(r) == header_value(h@, name@),
{
    let mut i: usize = 0;
    assert(h@.skip(0) =~= h@);
    while i < h.len()
        invariant
            i <= h@.len(),
            header_value(h@.skip(i as int), name@) == header_value(h@, name@),
        decreases h@.len() - i,
    {
        if same(h[i].0.as_str(), name) {
            return Some(h[i].1.as_str());
        }
        assert(h@.skip(i as int).drop_first() =~= h@.skip(i + 1));
        i += 1;
    }
    None
}

/// A number of seconds in milliseconds, as far as a `u64` goes.
pub open spec fn seconds_in_ms(n: u64) -> u64 {
    if n * 1000 <= u64::MAX {
        (n * 1000) as u64
    } else {
        u64::MAX
    }
}

/// The delay that the server asks for, in milliseconds: `retry-after-ms`, or else
/// the seconds in `retry-after`.
pub open spec fn retry_after(h: Seq<(String, String)>) -> Option<u64> {
    let exact = match header_value(h, "retry-after-ms"@) {
        Some(v) => number_in(v),
        None => None,
    };
    if exact is Some {
        exact
    } else {
        match header_value(h, "retry-after"@) {
            Some(v) => match number_in(v) {
                Some(n) => Some(seconds_in_ms(n)),
                None => None,
            },
            None => None,
        }
    }
}

/// Reads the delay that the server asks for.
pub fn parse_retry_after(h: &Vec<(String, String)>) -> (r: Option<u64>)
    ensures
        r == retry_after(h@),
{
    if let Some(v) = find_header(h, "retry-after-ms") {
        if let Some(ms) = parse_number(v) {
            return Some(ms);
        }
    }
    match find_header(h, "retry-after") {
        Some(v) => match parse_number(v) {
            Some(n) => Some(
                if n <= u64::MAX / 1000 {
                    n * 1000
                } else {
                    u64::MAX
                },
            ),
            None => None,
        },
        None => None,
    }
}

} // verus!
