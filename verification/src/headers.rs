//! Validation of HTTP header names and values, and the list of headers a
//! request carries.

use vstd::prelude::*;
use vstd::utf8::*;
use vstd::string::StringSliceAdditionalSpecFns;
use crate::string_map::pairs_view;

verus! {

/// A byte allowed in an HTTP header name (an RFC 7230 `tchar`; upper-case
/// letters are accepted and stand for their lower-case forms).
pub open spec fn is_token_byte(b: u8) -> bool {
    ||| b == 33 || b == 35 || b == 36 || b == 37 || b == 38 || b == 39  // ! # $ % & '
    ||| b == 42 || b == 43 || b == 45 || b == 46  // * + - .
    ||| 48 <= b <= 57  // 0-9
    ||| 65 <= b <= 90  // A-Z
    ||| b == 94 || b == 95 || b == 96  // ^ _ `
    ||| 97 <= b <= 122  // a-z
    ||| b == 124 || b == 126  // | ~
}

/// The bytes of a valid HTTP header name: at least one and at most 65535
/// token bytes.
pub open spec fn header_name_valid(bytes: Seq<u8>) -> bool {
    &&& 1 <= bytes.len() <= 65535
    &&& forall|i: int| 0 <= i < bytes.len() ==> is_token_byte(#[trigger] bytes[i])
}

/// A byte allowed in an HTTP header value: a visible or space byte other
/// than DEL, or a tab.
pub open spec fn is_header_value_byte(b: u8) -> bool {
    (b >= 32 && b != 127) || b == 9
}

/// The bytes of a valid HTTP header value.
pub open spec fn header_value_valid(bytes: Seq<u8>) -> bool {
    forall|i: int| 0 <= i < bytes.len() ==> is_header_value_byte(#[trigger] bytes[i])
}

/// `reqwest::header::HeaderName::from_bytes` on the bytes of `name`,
/// keeping whether it succeeded and the error's text. The contract restates
/// the rule of the http crate's source: a name of 1 to 65535 bytes, each
/// mapped to a non-zero entry of its `HEADER_CHARS` table; the error displays
/// as "invalid HTTP header name".
#[verifier::external_body]
pub(crate) fn check_header_name(name: &str) -> (res: Result<(), String>)
    ensures
        res is Ok <==> header_name_valid(encode_utf8(name@)),
        res matches Err(text) ==> text@ == "invalid HTTP header name"@,
{
    reqwest::header::HeaderName::from_bytes(name.as_bytes()).map(|_| ()).map_err(|e| e.to_string())
}

/// `reqwest::header::HeaderValue::from_str(value)`, keeping whether it
/// succeeded and the error's text. The contract restates the http crate's
/// source: every byte must be a tab or at least 32 and not 127; the error
/// displays as "failed to parse header value".
#[verifier::external_body]
pub(crate) fn check_header_value(value: &str) -> (res: Result<(), String>)
    ensures
        res is Ok <==> header_value_valid(encode_utf8(value@)),
        res matches Err(text) ==> text@ == "failed to parse header value"@,
{
    reqwest::header::HeaderValue::from_str(value).map(|_| ()).map_err(|e| e.to_string())
}

/// The message for a custom header whose name is invalid.
pub open spec fn bad_header_name_message(name: Seq<char>) -> Seq<char> {
    "Invalid header name: "@ + name + ": "@ + "invalid HTTP header name"@
}

/// The message for a custom header whose value is invalid.
pub open spec fn bad_header_value_message(name: Seq<char>, value: Seq<char>) -> Seq<char> {
    "Invalid header value for "@ + name + ": "@ + value + ": "@ + "failed to parse header value"@
}

/// The first problem with the custom headers `pairs`, checked in order, the
/// name of each header before its value.
pub open spec fn header_problem(pairs: Seq<(Seq<char>, Seq<char>)>) -> Option<Seq<char>>
    decreases pairs.len(),
{
    if pairs.len() == 0 {
        None
    } else if !header_name_valid(encode_utf8(pairs[0].0)) {
        Some(bad_header_name_message(pairs[0].0))
    } else if !header_value_valid(encode_utf8(pairs[0].1)) {
        Some(bad_header_value_message(pairs[0].0, pairs[0].1))
    } else {
        header_problem(pairs.drop_first())
    }
}

/// The first problem with the headers `pairs`, as `header_problem` states it.
pub fn find_header_problem(pairs: &Vec<(String, String)>) -> (res: Option<String>)
    ensures
        res is None <==> header_problem(pairs_view(pairs@)) is None,
        res matches Some(m) ==> header_problem(pairs_view(pairs@)) == Some(m@),
{
    let ghost all = pairs_view(pairs@);
    let mut i: usize = 0;
    assert(all.skip(0) =~= all);
    while i < pairs.len()
        invariant
            i <= pairs@.len(),
            all == pairs_view(pairs@),
            header_problem(all) == header_problem(all.skip(i as int)),
        decreases pairs@.len() - i,
    {
        let ghost rest = all.skip(i as int);
        assert(rest[0] == all[i as int]);
        assert(rest.drop_first() =~= all.skip(i + 1));
        let name = pairs[i].0.as_str();
        let value = pairs[i].1.as_str();
        if let Err(text) = check_header_name(name) {
            let mut m = String::new();
            m.append("Invalid header name: ");
            m.append(name);
            m.append(": ");
            m.append(text.as_str());
            assert(m@ =~= bad_header_name_message(name@));
            return Some(m);
        }
        if let Err(text) = check_header_value(value) {
            let mut m = String::new();
            m.append("Invalid header value for ");
            m.append(name);
            m.append(": ");
            m.append(value);
            m.append(": ");
            m.append(text.as_str());
            assert(m@ =~= bad_header_value_message(name@, value@));
            return Some(m);
        }
        i += 1;
    }
    assert(all.skip(pairs@.len() as int) =~= Seq::<(Seq<char>, Seq<char>)>::empty());
    None
}

/// A text of printable ASCII characters is a valid header value.
pub proof fn lemma_printable_header_value(text: Seq<char>)
    requires
        forall|i: int| 0 <= i < text.len() ==> ' ' <= #[trigger] text[i] <= '~',
    ensures
        header_value_valid(encode_utf8(text)),
{
    assert(is_ascii_chars(text));
    is_ascii_chars_encode_utf8(text);
    assert forall|i: int| 0 <= i < encode_utf8(text).len() implies is_header_value_byte(
        #[trigger] encode_utf8(text)[i],
    ) by {
        let c = text[i];
        assert(c as u8 == encode_utf8(text)[i]);
        assert(32 <= c as u32 <= 126);
        let u = c as u32;
        assert(u as u8 == u) by (bit_vector)
            requires
                32 <= u <= 126,
        ;
    }
}

} // verus!
