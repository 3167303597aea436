//! HTTP header values, the two headers that uploads depend on, and where uploads go.

use ureq::http::header::InvalidHeaderValue;
use ureq::http::uri::InvalidUri;
use ureq::http::{HeaderMap, HeaderValue, Uri};
use vstd::prelude::*;

use crate::unicode;
use crate::unicode::trim_text;

verus! {

broadcast use vstd::string::group_string_axioms;

#[verifier::external_type_specification]
#[verifier::external_body]
pub struct ExHeaderValue(HeaderValue);

#[verifier::external_type_specification]
#[verifier::external_body]
pub struct ExInvalidHeaderValue(InvalidHeaderValue);

#[verifier::external_type_specification]
#[verifier::external_body]
#[verifier::reject_recursive_types(T)]
pub struct ExHeaderMap<T>(HeaderMap<T>);

/// The bytes of a header value.
pub uninterp spec fn header_bytes(value: HeaderValue) -> Seq<u8>;

/// Whether a header value is marked as sensitive.
pub uninterp spec fn header_sensitive(value: HeaderValue) -> bool;

/// The first value of each header, by the header's lower-case name.
pub uninterp spec fn header_contents(headers: HeaderMap<HeaderValue>) -> Map<Seq<char>, Seq<u8>>;

/// Whether a byte may stand in a header value: a tab, or anything from the space
/// on but the delete character.
pub open spec fn header_byte(b: u8) -> bool {
    b >= 32 && b != 127 || b == 9
}

/// Whether a text can be a header value.
pub open spec fn header_text(text: Seq<char>) -> bool {
    let bytes = vstd::utf8::encode_utf8(text);
    forall|i: int| 0 <= i < bytes.len() ==> header_byte(#[trigger] bytes[i])
}

/// `HeaderValue::from_str` accepts exactly the texts whose bytes may all stand in
/// a header value, and keeps those bytes; the value is not sensitive.
#[verifier::external_body]
pub(crate) fn header_value(text: &str) -> (r: Result<HeaderValue, InvalidHeaderValue>)
    ensures
        r is Ok <==> header_text(text@),
        r matches Ok(value) ==> header_bytes(value) == vstd::utf8::encode_utf8(text@)
            && !header_sensitive(value),
{
    HeaderValue::from_str(text)
}

/// `HeaderValue::set_sensitive` sets the mark and keeps the bytes.
pub assume_specification[ HeaderValue::set_sensitive ](value: &mut HeaderValue, val: bool)
    ensures
        header_bytes(*final(value)) == header_bytes(*old(value)),
        header_sensitive(*final(value)) == val,
;

/// `HeaderValue::as_bytes` gives the bytes of the value.
pub assume_specification[ HeaderValue::as_bytes ](value: &HeaderValue) -> (r: &[u8])
    ensures
        r@ == header_bytes(*value),
;

/// `HeaderMap::get` finds the first value of a header, whatever the case of its
/// name.
#[verifier::external_body]
pub(crate) fn first_header<'a>(headers: &'a HeaderMap<HeaderValue>, name: &str) -> (r: Option<
    &'a HeaderValue,
>)
    ensures
        match r {
            Some(value) => header_contents(*headers).contains_key(unicode::lower(name@))
                && header_contents(*headers)[unicode::lower(name@)] == header_bytes(*value),
            None => !header_contents(*headers).contains_key(unicode::lower(name@)),
        },
{
    headers.get(name)
}

#[verifier::external_type_specification]
#[verifier::external_body]
pub struct ExUri(Uri);

#[verifier::external_type_specification]
#[verifier::external_body]
pub struct ExInvalidUri(InvalidUri);

/// The text that a URI is written as.
pub uninterp spec fn uri_text(uri: Uri) -> Seq<char>;

/// What a text parsed as a URI is written as, or nothing for a text that is no URI.
pub uninterp spec fn parsed_uri_text(text: Seq<char>) -> Option<Seq<char>>;

/// `Uri::from_str` decides by the text alone whether it is a URI, and what URI it
/// is. Which texts it accepts, and that a host without a path is written with the
/// path of the root, is left to it.
#[verifier::external_body]
pub(crate) fn parse_uri(text: &str) -> (r: Result<Uri, InvalidUri>)
    ensures
        r is Ok <==> parsed_uri_text(text@) is Some,
        r matches Ok(uri) ==> parsed_uri_text(text@) == Some(uri_text(uri)),
{
    text.parse::<Uri>()
}

/// `Uri`'s `Display` writes the text of the URI.
#[verifier::external_body]
pub(crate) fn format_uri(uri: &Uri) -> (r: String)
    ensures
        r@ == uri_text(*uri),
{
    uri.to_string()
}

/// An upload endpoint that is no URI.
#[derive(Clone, Copy, Debug, PartialEq, Eq, Structural)]
pub enum EndpointError {
    InvalidUri,
}

/// Where uploads are sent, and the text by which a ledger remembers it: the URI as
/// it is written, not the endpoint as it was configured.
pub fn upload_destination(endpoint: &str) -> (r: Result<(Uri, String), EndpointError>)
    ensures
        match parsed_uri_text(endpoint@) {
            Some(text) => r matches Ok((uri, destination)) && uri_text(uri) == text
                && destination@ == text,
            None => r == Err::<(Uri, String), EndpointError>(EndpointError::InvalidUri),
        },
{
    match parse_uri(endpoint) {
        Ok(uri) => {
            let destination = format_uri(&uri);
            Ok((uri, destination))
        },
        Err(_) => Err(EndpointError::InvalidUri),
    }
}

/// A bearer token that cannot be sent.
#[derive(Clone, Copy, Debug, PartialEq, Eq, Structural)]
pub enum BearerTokenError {
    EmptyOrPadded,
    Unrepresentable,
}

/// Constructs a sensitive `Authorization: Bearer ...` value without exposing
/// rejected token bytes through this module's errors or logs.
pub fn bearer_authorization(token: &str) -> (r: Result<HeaderValue, BearerTokenError>)
    ensures
        match r {
            Ok(value) => {
                &&& header_text("Bearer "@ + token@)
                &&& header_bytes(value) == vstd::utf8::encode_utf8("Bearer "@ + token@)
                &&& header_sensitive(value)
            },
            Err(error) => !header_text("Bearer "@ + token@) && error
                == BearerTokenError::Unrepresentable,
        },
{
    let mut text = String::new();
    text.append("Bearer ");
    text.append(token);
    assert(text@ =~= "Bearer "@ + token@);
    match header_value(text.as_str()) {
        Ok(value) => {
            let mut value = value;
            value.set_sensitive(true);
            Ok(value)
        },
        Err(_) => Err(BearerTokenError::Unrepresentable),
    }
}

/// The authorization for a token from the environment, which must not be empty
/// or surrounded by whitespace.
pub fn checked_bearer_authorization(token: &str) -> (r: Result<HeaderValue, BearerTokenError>)
    ensures
        match r {
            Ok(value) => {
                &&& token@.len() > 0
                &&& unicode::trim(token@) == token@
                &&& header_text("Bearer "@ + token@)
                &&& header_bytes(value) == vstd::utf8::encode_utf8("Bearer "@ + token@)
                &&& header_sensitive(value)
            },
            Err(BearerTokenError::EmptyOrPadded) => token@.len() == 0 || unicode::trim(token@)
                != token@,
            Err(BearerTokenError::Unrepresentable) => token@.len() > 0 && unicode::trim(token@)
                == token@ && !header_text("Bearer "@ + token@),
        },
{
    let trimmed = trim_text(token);
    let chars = crate::text::chars_of(token);
    if chars.len() == 0 || trimmed.len() != chars.len() {
        return Err(BearerTokenError::EmptyOrPadded);
    }
    proof {
        unicode::lemma_trim(token@);
    }
    bearer_authorization(token)
}

/// The longest delay that an endpoint can ask for, and that any retry waits.
pub const MAX_RETRY_DELAY_SECONDS: u64 = 300;

/// Whether a byte is visible in a header: printable ASCII or a tab.
pub open spec fn visible_byte(b: u8) -> bool {
    b >= 32 && b < 127 || b == 9
}

/// The blanks that can surround a visible header value.
pub open spec fn is_blank(b: u8) -> bool {
    b == 32 || b == 9
}

pub open spec fn trim_blanks_start(s: Seq<u8>) -> Seq<u8>
    decreases s.len(),
{
    if s.len() > 0 && is_blank(s[0]) {
        trim_blanks_start(s.skip(1))
    } else {
        s
    }
}

pub open spec fn trim_blanks_end(s: Seq<u8>) -> Seq<u8>
    decreases s.len(),
{
    if s.len() > 0 && is_blank(s.last()) {
        trim_blanks_end(s.drop_last())
    } else {
        s
    }
}

/// The value without the blanks around it.
pub open spec fn trim_blanks(s: Seq<u8>) -> Seq<u8> {
    trim_blanks_end(trim_blanks_start(s))
}

pub open spec fn digit_byte(b: u8) -> bool {
    48 <= b <= 57
}

/// The number that decimal digits stand for.
pub open spec fn digits_value(s: Seq<u8>) -> nat
    decreases s.len(),
{
    if s.len() == 0 {
        0
    } else {
        10 * digits_value(s.drop_last()) + (s.last() - 48) as nat
    }
}

/// The delay that a `Retry-After` value asks for, in seconds: a visible value
/// that is a whole number, limited to the longest delay.
pub open spec fn requested_delay(value: Seq<u8>) -> Option<u64> {
    let digits = trim_blanks(value);
    if (forall|i: int| 0 <= i < value.len() ==> visible_byte(#[trigger] value[i])) && digits.len()
        > 0 && (forall|i: int| 0 <= i < digits.len() ==> digit_byte(#[trigger] digits[i])) {
        Some(
            if digits_value(digits) <= MAX_RETRY_DELAY_SECONDS {
                digits_value(digits) as u64
            } else {
                MAX_RETRY_DELAY_SECONDS
            },
        )
    } else {
        None
    }
}

/// The delay that a `Retry-After` value asks for.
pub fn retry_after_seconds(value: &[u8]) -> (r: Option<u64>)
    ensures
        r == requested_delay(value@),
{
    let mut start: usize = 0;
    let mut i: usize = 0;
    while i < value.len()
        invariant
            i <= value.len(),
            forall|k: int| 0 <= k < i ==> visible_byte(#[trigger] value@[k]),
        decreases value.len() - i,
    {
        let b: u8 = value[i];
        if !(b >= 32 && b < 127 || b == 9) {
            assert(!visible_byte(value@[i as int]));
            return None;
        }
        i = i + 1;
    }
    proof {
        assert(value@.skip(0) =~= value@);
    }
    while start < value.len() && (value[start] == 32 || value[start] == 9)
        invariant
            start <= value.len(),
            trim_blanks_start(value@.skip(start as int)) == trim_blanks_start(value@),
        decreases value.len() - start,
    {
        proof {
            let rest = value@.skip(start as int);
            assert(rest[0] == value@[start as int]);
            assert(rest.skip(1) =~= value@.skip(start + 1));
        }
        start = start + 1;
    }
    let mut end: usize = value.len();
    proof {
        let rest = value@.skip(start as int);
        if start < value.len() {
            assert(rest[0] == value@[start as int]);
        }
        assert(trim_blanks_start(rest) == rest);
        assert(value@.subrange(start as int, value@.len() as int) =~= rest);
    }
    while end > start && (value[end - 1] == 32 || value[end - 1] == 9)
        invariant
            start <= end <= value.len(),
            trim_blanks_end(value@.subrange(start as int, end as int)) == trim_blanks(value@),
        decreases end,
    {
        proof {
            let rest = value@.subrange(start as int, end as int);
            assert(rest.last() == value@[end - 1]);
            assert(rest.drop_last() =~= value@.subrange(start as int, end - 1));
        }
        end = end - 1;
    }
    let ghost digits = value@.subrange(start as int, end as int);
    proof {
        if end > start {
            assert(digits.last() == value@[end - 1]);
        }
        assert(trim_blanks_end(digits) == digits);
        assert(trim_blanks(value@) == digits);
    }
    if start == end {
        return None;
    }
    let mut j: usize = start;
    while j < end
        invariant
            start <= j <= end <= value.len(),
            digits == value@.subrange(start as int, end as int),
            trim_blanks(value@) == digits,
            forall|k: int| 0 <= k < j - start ==> digit_byte(#[trigger] digits[k]),
        decreases end - j,
    {
        if !(value[j] >= 48 && value[j] <= 57) {
            assert(digits[j - start] == value@[j as int]);
            assert(!digit_byte(digits[j - start]));
            return None;
        }
        assert(digits[j - start] == value@[j as int]);
        j = j + 1;
    }
    let mut seconds: u64 = 0;
    let mut k: usize = start;
    while k < end
        invariant
            start <= k <= end <= value.len(),
            digits == value@.subrange(start as int, end as int),
            forall|a: int| 0 <= a < digits.len() ==> digit_byte(#[trigger] digits[a]),
            seconds == (if digits_value(digits.take(k - start)) <= MAX_RETRY_DELAY_SECONDS {
                digits_value(digits.take(k - start)) as int
            } else {
                MAX_RETRY_DELAY_SECONDS as int
            }),
        decreases end - k,
    {
        proof {
            assert(digits.take(k + 1 - start).drop_last() =~= digits.take(k - start));
            assert(digits.take(k + 1 - start).last() == value@[k as int]);
            assert(digit_byte(digits[k - start]));
        }
        seconds = seconds * 10 + (value[k] - 48) as u64;
        if seconds > MAX_RETRY_DELAY_SECONDS {
            seconds = MAX_RETRY_DELAY_SECONDS;
        }
        k = k + 1;
    }
    proof {
        assert(digits.take(k - start) =~= digits);
    }
    Some(seconds)
}

/// The delay that a response's `Retry-After` header asks for, in seconds.
pub fn parse_retry_after(headers: &HeaderMap<HeaderValue>) -> (r: Option<u64>)
    ensures
        r == (if header_contents(*headers).contains_key("retry-after"@) {
            requested_delay(header_contents(*headers)["retry-after"@])
        } else {
            None
        }),
{
    proof {
        reveal_strlit("Retry-After");
        reveal_strlit("retry-after");
        assert(unicode::lower("Retry-After"@) =~= "retry-after"@);
    }
    match first_header(headers, "Retry-After") {
        Some(value) => retry_after_seconds(value.as_bytes()),
        None => None,
    }
}

proof fn lemma_trim_blanks_start_shape(s: Seq<u8>) -> (p: int)
    ensures
        0 <= p <= s.len(),
        trim_blanks_start(s) == s.skip(p),
        forall|i: int| 0 <= i < p ==> is_blank(#[trigger] s[i]),
        p < s.len() ==> !is_blank(s[p]),
    decreases s.len(),
{
    if s.len() > 0 && is_blank(s[0]) {
        let rest = s.skip(1);
        let p = lemma_trim_blanks_start_shape(rest);
        assert(rest.skip(p) =~= s.skip(p + 1));
        assert forall|i: int| 0 <= i < p + 1 implies is_blank(#[trigger] s[i]) by {
            if i > 0 {
                assert(rest[i - 1] == s[i]);
            }
        }
        if p < rest.len() {
            assert(rest[p] == s[p + 1]);
        }
        p + 1
    } else {
        assert(s.skip(0) =~= s);
        0
    }
}

proof fn lemma_trim_blanks_end_shape(s: Seq<u8>) -> (q: int)
    ensures
        0 <= q <= s.len(),
        trim_blanks_end(s) == s.take(q),
        forall|i: int| q <= i < s.len() ==> is_blank(#[trigger] s[i]),
        q > 0 ==> !is_blank(s[q - 1]),
    decreases s.len(),
{
    if s.len() > 0 && is_blank(s.last()) {
        let rest = s.drop_last();
        let q = lemma_trim_blanks_end_shape(rest);
        assert(rest.take(q) =~= s.take(q));
        assert forall|i: int| q <= i < s.len() implies is_blank(#[trigger] s[i]) by {
            if i < rest.len() {
                assert(rest[i] == s[i]);
            }
        }
        if q > 0 {
            assert(rest[q - 1] == s[q - 1]);
        }
        q
    } else {
        assert(s.take(s.len() as int) =~= s);
        s.len() as int
    }
}

/// What trimming leaves is what stands between the outermost bytes that are no blanks.
proof fn lemma_trim_blanks_shape(s: Seq<u8>) -> (r: (int, int))
    ensures
        0 <= r.0 <= r.1 <= s.len(),
        trim_blanks(s) == s.subrange(r.0, r.1),
        forall|i: int| 0 <= i < r.0 ==> is_blank(#[trigger] s[i]),
        forall|i: int| r.1 <= i < s.len() ==> is_blank(#[trigger] s[i]),
        r.0 < r.1 ==> !is_blank(s[r.0]) && !is_blank(s[r.1 - 1]),
{
    let p = lemma_trim_blanks_start_shape(s);
    let rest = s.skip(p);
    let q = lemma_trim_blanks_end_shape(rest);
    assert(rest.take(q) =~= s.subrange(p, p + q));
    assert forall|i: int| p + q <= i < s.len() implies is_blank(#[trigger] s[i]) by {
        assert(rest[i - p] == s[i]);
    }
    if q > 0 {
        assert(rest[q - 1] == s[p + q - 1]);
    }
    (p, p + q)
}

/// A value of digits with blanks around them asks for a delay.
pub proof fn law_delay_is_a_number_between_blanks(
    value: &[u8],
    before: Seq<u8>,
    digits: Seq<u8>,
    after: Seq<u8>,
    r: Option<u64>,
)
    requires
        call_ensures(retry_after_seconds, (value,), r),
        value@ == before + digits + after,
        forall|i: int| 0 <= i < before.len() ==> #[trigger] before[i] == 32 || before[i] == 9,
        forall|i: int| 0 <= i < after.len() ==> #[trigger] after[i] == 32 || after[i] == 9,
        forall|i: int| 0 <= i < digits.len() ==> 48 <= #[trigger] digits[i] <= 57,
        digits.len() > 0,
    ensures
        r is Some,
        r->0 <= 300,
        digits.len() == 1 ==> r->0 == digits[0] - 48,
        digits.len() == 2 ==> r->0 == 10 * (digits[0] - 48) + (digits[1] - 48),
{
    let s = value@;
    let (p, q) = lemma_trim_blanks_shape(s);
    let a = before.len() as int;
    let b = a + digits.len();
    assert(s[a] == digits[0]);
    assert(s[b - 1] == digits.last());
    assert(p <= a && b <= q);
    if p < a {
        assert(s[p] == before[p]);
    }
    if q > b {
        assert(s[q - 1] == after[q - 1 - b]);
    }
    assert(s.subrange(p, q) =~= digits);
    assert forall|i: int| 0 <= i < s.len() implies visible_byte(#[trigger] s[i]) by {
        if i < a {
            assert(s[i] == before[i]);
        } else if i < b {
            assert(s[i] == digits[i - a]);
        } else {
            assert(s[i] == after[i - b]);
        }
    }
    reveal_with_fuel(digits_value, 3);
}

/// One more digit makes the number ten times as large and the digit larger, up to the
/// longest delay.
pub proof fn law_each_digit_counts_tenfold(
    shorter: &[u8],
    longer: &[u8],
    digit: u8,
    r: Option<u64>,
    s: Option<u64>,
)
    requires
        call_ensures(retry_after_seconds, (shorter,), r),
        call_ensures(retry_after_seconds, (longer,), s),
        shorter@.len() > 0,
        forall|i: int| 0 <= i < shorter@.len() ==> 48 <= #[trigger] shorter@[i] <= 57,
        48 <= digit <= 57,
        longer@ == shorter@.push(digit),
    ensures
        r is Some,
        s is Some,
        10 * r->0 + (digit - 48) <= 300 ==> s->0 == 10 * r->0 + (digit - 48),
        10 * r->0 + (digit - 48) >= 300 ==> s->0 == 300,
{
    let e = Seq::<u8>::empty();
    assert(shorter@ =~= e + shorter@ + e);
    assert(longer@ =~= e + longer@ + e);
    assert forall|i: int| 0 <= i < longer@.len() implies 48 <= #[trigger] longer@[i] <= 57 by {
        if i < shorter@.len() {
            assert(longer@[i] == shorter@[i]);
        }
    }
    let (p, q) = lemma_trim_blanks_shape(shorter@);
    assert(!is_blank(shorter@[0]));
    assert(!is_blank(shorter@.last()));
    assert(shorter@.subrange(p, q) =~= shorter@);
    let (p2, q2) = lemma_trim_blanks_shape(longer@);
    assert(!is_blank(longer@[0]));
    assert(!is_blank(longer@.last()));
    assert(longer@.subrange(p2, q2) =~= longer@);
    assert(longer@.drop_last() =~= shorter@);
    assert(forall|i: int| 0 <= i < shorter@.len() ==> visible_byte(#[trigger] shorter@[i]));
    assert(forall|i: int| 0 <= i < longer@.len() ==> visible_byte(#[trigger] longer@[i]));
}

/// A value that holds anything but digits and blanks asks for nothing.
pub proof fn law_delay_holds_only_digits(value: &[u8], i: int, r: Option<u64>)
    requires
        call_ensures(retry_after_seconds, (value,), r),
        0 <= i < value@.len(),
        value@[i] != 32 && value@[i] != 9 && !(48 <= value@[i] <= 57),
    ensures
        r is None,
{
    let (p, q) = lemma_trim_blanks_shape(value@);
    assert(p <= i < q);
    assert(value@.subrange(p, q)[i - p] == value@[i]);
}

/// A value without a digit, or with a blank between two digits, asks for nothing.
pub proof fn law_delay_is_one_number(value: &[u8], i: int, j: int, k: int, r: Option<u64>)
    requires
        call_ensures(retry_after_seconds, (value,), r),
    ensures
        (forall|n: int| 0 <= n < value@.len() ==> !(48 <= #[trigger] value@[n] <= 57)) ==> r is None,
        0 <= i < j < k < value@.len() && 48 <= value@[i] <= 57 && (value@[j] == 32 || value@[j]
            == 9) && 48 <= value@[k] <= 57 ==> r is None,
{
    let (p, q) = lemma_trim_blanks_shape(value@);
    let digits = value@.subrange(p, q);
    if forall|n: int| 0 <= n < value@.len() ==> !(48 <= #[trigger] value@[n] <= 57) {
        if digits.len() > 0 {
            assert(digits[0] == value@[p]);
        }
    }
    if 0 <= i < j < k < value@.len() && 48 <= value@[i] <= 57 && (value@[j] == 32 || value@[j]
        == 9) && 48 <= value@[k] <= 57 {
        assert(p <= i && k < q);
        assert(digits[j - p] == value@[j]);
    }
}

/// A response asks for the delay of its `Retry-After` header, and for none without one.
pub proof fn law_response_asks_by_its_header(
    headers: &HeaderMap<HeaderValue>,
    value: &[u8],
    r: Option<u64>,
    s: Option<u64>,
)
    requires
        call_ensures(parse_retry_after, (headers,), r),
        call_ensures(retry_after_seconds, (value,), s),
    ensures
        header_contents(*headers).contains_key("retry-after"@) && header_contents(
            *headers,
        )["retry-after"@] == value@ ==> r == s,
        !header_contents(*headers).contains_key("retry-after"@) ==> r is None,
{
}

/// Whether some byte is a control that is no tab.
pub open spec fn holds_control(bytes: Seq<u8>) -> bool {
    exists|i: int|
        0 <= i < bytes.len() && (#[trigger] bytes[i] < 32 && bytes[i] != 9 || bytes[i] == 127)
}

/// A token from the environment becomes a sensitive header exactly where it is not
/// empty, has no whitespace at either end, and holds no control byte.
pub proof fn law_token_is_sent_as_it_is(token: &str, r: Result<HeaderValue, BearerTokenError>)
    requires
        call_ensures(checked_bearer_authorization, (token,), r),
    ensures
        r matches Ok(value) ==> header_sensitive(value) && header_bytes(value)
            == vstd::utf8::encode_utf8("Bearer "@ + token@),
        r matches Err(BearerTokenError::EmptyOrPadded) <==> token@.len() == 0
            || unicode::is_whitespace(token@[0]) || unicode::is_whitespace(token@.last()),
        r matches Err(BearerTokenError::Unrepresentable) ==> holds_control(
            vstd::utf8::encode_utf8("Bearer "@ + token@),
        ),
        r is Ok ==> !holds_control(vstd::utf8::encode_utf8("Bearer "@ + token@)),
{
    unicode::lemma_trim(token@);
    if token@.len() > 0 && !unicode::is_whitespace(token@[0]) && !unicode::is_whitespace(
        token@.last(),
    ) {
        assert(unicode::trim_start(token@) == token@);
        assert(unicode::trim(token@) == token@);
    }
}

/// Any token becomes a sensitive header where its bytes can be sent.
pub proof fn law_authorization_is_sensitive(token: &str, r: Result<HeaderValue, BearerTokenError>)
    requires
        call_ensures(bearer_authorization, (token,), r),
    ensures
        r matches Ok(value) ==> header_sensitive(value) && header_bytes(value)
            == vstd::utf8::encode_utf8("Bearer "@ + token@),
        r matches Err(error) ==> error is Unrepresentable,
{
}

/// A ledger remembers a destination by the URI as it is written, and what is no URI is
/// refused.
pub proof fn law_destination_is_the_written_uri(
    endpoint: &str,
    r: Result<(Uri, String), EndpointError>,
)
    requires
        call_ensures(upload_destination, (endpoint,), r),
    ensures
        r matches Ok((uri, destination)) ==> destination@ == uri_text(uri) && parsed_uri_text(
            endpoint@,
        ) == Some(destination@),
        r is Err <==> parsed_uri_text(endpoint@) is None,
{
}

} // verus!
