//! HTTP Basic Authentication.

use base64::Engine as _;
use hyper::HeaderMap;
use vstd::prelude::*;
use vstd::utf8::*;

use crate::text::{
    eq_ignore_ascii_case, split_at_first, split_words, string_from_utf8, text_eq,
};

verus! {

// ---------------------------------------------------------------------------
// Header fields
// ---------------------------------------------------------------------------

/// The header fields of an HTTP message.
#[verifier::external_type_specification]
#[verifier::external_body]
#[verifier::reject_recursive_types(T)]
pub struct ExHeaderMap<T>(HeaderMap<T>);

/// The value of a header field.
#[verifier::external_type_specification]
#[verifier::external_body]
pub struct ExHeaderValue(hyper::header::HeaderValue);

/// The header fields that a map holds: for each name, in small letters, the
/// bytes of its values in the order in which they were added.
pub uninterp spec fn header_fields(headers: HeaderMap) -> Map<Seq<char>, Seq<Seq<u8>>>;

/// A header name of letters and hyphens.
pub open spec fn plain_header_name(name: Seq<char>) -> bool {
    &&& 0 < name.len() <= 64
    &&& forall|i: int|
        0 <= i < name.len() ==> {
            ||| 'a' <= #[trigger] name[i] <= 'z'
            ||| 'A' <= name[i] <= 'Z'
            ||| name[i] == '-'
        }
}

/// The bytes of the first value of a header field.
pub open spec fn first_value(headers: HeaderMap, name: Seq<char>) -> Option<Seq<u8>> {
    let fields = header_fields(headers);
    let key = crate::text::ascii_lowercase(name);
    if fields.contains_key(key) && fields[key].len() > 0 {
        Some(fields[key][0])
    } else {
        None
    }
}

/// Wraps `HeaderMap::get` and `HeaderValue::as_bytes`: the name is looked up
/// with its letters made small, and the first of its values is returned.
#[verifier::external_body]
pub(crate) fn header_bytes(headers: &HeaderMap, name: &str) -> (value: Option<Vec<u8>>)
    requires
        plain_header_name(name@),
    ensures
        value is Some <==> {
            &&& header_fields(*headers).contains_key(crate::text::ascii_lowercase(name@))
            &&& header_fields(*headers)[crate::text::ascii_lowercase(name@)].len() > 0
        },
        value matches Some(bytes) ==> bytes@ == header_fields(
            *headers,
        )[crate::text::ascii_lowercase(name@)][0],
{
    headers.get(name).map(|value| value.as_bytes().to_vec())
}

/// The bytes that header text is made of: visible ASCII, spaces and tabs.
pub open spec fn visible(byte: u8) -> bool {
    32 <= byte < 127 || byte == 9
}

/// The text of a header value, if all of it is visible.
pub open spec fn visible_text(bytes: Seq<u8>) -> Option<Seq<char>> {
    if forall|i: int| 0 <= i < bytes.len() ==> visible(#[trigger] bytes[i]) {
        Some(bytes.map_values(|b: u8| b as char))
    } else {
        None
    }
}

/// The text of a header value, if all of it is visible.
pub fn header_text(bytes: &Vec<u8>) -> (text: Option<String>)
    ensures
        crate::text::optional_text(text) == visible_text(bytes@),
{
    let mut text: String = String::new();
    let mut i: usize = 0;
    while i < bytes.len()
        invariant
            i <= bytes@.len(),
            forall|k: int| 0 <= k < i ==> visible(#[trigger] bytes@[k]),
            text@ == bytes@.take(i as int).map_values(|b: u8| b as char),
        decreases bytes@.len() - i,
    {
        let byte: u8 = bytes[i];
        if !((32 <= byte && byte < 127) || byte == 9) {
            assert(!visible(bytes@[i as int]));
            return None;
        }
        text.push(byte as char);
        assert(bytes@.take(i + 1) == bytes@.take(i as int).push(byte));
        i = i + 1;
    }
    assert(bytes@.take(i as int) == bytes@);
    Some(text)
}

/// The text of the first value of a header field, if all of it is visible.
pub open spec fn field_text(headers: HeaderMap, name: Seq<char>) -> Option<Seq<char>> {
    match first_value(headers, name) {
        Some(bytes) => visible_text(bytes),
        None => None,
    }
}

/// Reads a header field as text.
pub(crate) fn header_field(headers: &HeaderMap, name: &str) -> (text: Option<String>)
    requires
        plain_header_name(name@),
    ensures
        crate::text::optional_text(text) == field_text(*headers, name@),
{
    match header_bytes(headers, name) {
        Some(bytes) => header_text(&bytes),
        None => None,
    }
}

/// The text of the `Authorization` field.
pub open spec fn authorization(headers: HeaderMap) -> Option<Seq<char>> {
    field_text(headers, "authorization"@)
}

/// Reads the `Authorization` field.
pub fn authorization_field(headers: &HeaderMap) -> (text: Option<String>)
    ensures
        crate::text::optional_text(text) == authorization(*headers),
{
    proof {
        reveal_strlit("authorization");
    }
    header_field(headers, "authorization")
}

// ---------------------------------------------------------------------------
// Credentials
// ---------------------------------------------------------------------------

/// The bytes that the standard Base64 alphabet with padding gives for a text;
/// none if the text is not such an encoding.
pub uninterp spec fn base64_decoded(text: Seq<char>) -> Option<Seq<u8>>;

/// Wraps `base64::engine::general_purpose::STANDARD.decode`.
#[verifier::external_body]
pub(crate) fn base64_decode(text: &str) -> (bytes: Option<Vec<u8>>)
    ensures
        bytes is Some <==> base64_decoded(text@) is Some,
        bytes matches Some(b) ==> base64_decoded(text@) == Some(b@),
{
    base64::engine::general_purpose::STANDARD.decode(text).ok()
}

/// The text of an optional pair of strings.
pub open spec fn pair_text(pair: Option<(String, String)>) -> Option<(Seq<char>, Seq<char>)> {
    match pair {
        Some(p) => Some((p.0@, p.1@)),
        None => None,
    }
}

/// The token of a Basic `Authorization` value: its second word, where it has
/// two and the first is the scheme, in any case.
pub open spec fn basic_token(value: Seq<char>) -> Option<Seq<char>> {
    let parts = crate::text::words(value);
    if parts.len() == 2 && crate::text::ascii_lowercase(parts[0]) == crate::text::ascii_lowercase(
        "basic"@,
    ) {
        Some(parts[1])
    } else {
        None
    }
}

/// The name and password that decoded bytes hold: UTF-8 text, split at its
/// first colon.
pub open spec fn credentials(decoded: Option<Seq<u8>>) -> Option<(Seq<char>, Seq<char>)> {
    match decoded {
        Some(bytes) => if valid_utf8(bytes) {
            crate::text::split_once(decode_utf8(bytes), ':')
        } else {
            None
        },
        None => None,
    }
}

/// The name and password of an `Authorization` value.
pub open spec fn basic_credentials(value: Seq<char>) -> Option<(Seq<char>, Seq<char>)> {
    match basic_token(value) {
        Some(token) => credentials(base64_decoded(token)),
        None => None,
    }
}

/// Finds the token of a Basic `Authorization` value.
pub fn parse_basic_token(value: &str) -> (token: Option<String>)
    ensures
        crate::text::optional_text(token) == basic_token(value@),
{
    let mut parts: Vec<String> = split_words(value);
    let ghost found = parts@;
    if parts.len() != 2 {
        assert(crate::text::words(value@).len() == found.len());
        return None;
    }
    assert(crate::text::words(value@)[0] == found[0]@);
    assert(crate::text::words(value@)[1] == found[1]@);
    if !eq_ignore_ascii_case(&parts[0], "basic") {
        return None;
    }
    parts.pop()
}

/// Splits decoded bytes into name and password.
pub fn split_credentials(decoded: Vec<u8>) -> (pair: Option<(String, String)>)
    ensures
        pair_text(pair) == credentials(Some(decoded@)),
{
    match string_from_utf8(decoded) {
        Some(text) => split_at_first(&text, ':'),
        None => None,
    }
}

/// Parses the value of an `Authorization` header.
pub fn parse_basic_credentials(value: &str) -> (pair: Option<(String, String)>)
    ensures
        pair_text(pair) == basic_credentials(value@),
{
    match parse_basic_token(value) {
        Some(token) => match base64_decode(&token) {
            Some(decoded) => split_credentials(decoded),
            None => None,
        },
        None => None,
    }
}

/// The name and password that a request carries.
pub open spec fn request_credentials(headers: HeaderMap) -> Option<(Seq<char>, Seq<char>)> {
    match authorization(headers) {
        Some(value) => basic_credentials(value),
        None => None,
    }
}

/// Reads the name and password that a request carries.
pub fn extract_basic_auth(headers: &HeaderMap) -> (pair: Option<(String, String)>)
    ensures
        pair_text(pair) == request_credentials(*headers),
{
    match authorization_field(headers) {
        Some(value) => parse_basic_credentials(&value),
        None => None,
    }
}

// ---------------------------------------------------------------------------
// Authorization
// ---------------------------------------------------------------------------

/// The methods that need no credentials.
pub open spec fn open_method(method: Seq<char>) -> bool {
    method == "OPTIONS"@
}

/// Whether a method needs no credentials.
pub fn method_allows_unauthenticated(method: &str) -> (yes: bool)
    ensures
        yes == open_method(method@),
{
    text_eq(method, "OPTIONS")
}

/// Whether credentials, if any, are the expected ones.
pub open spec fn matching(
    pair: Option<(Seq<char>, Seq<char>)>,
    user: Seq<char>,
    pass: Seq<char>,
) -> bool {
    pair == Some((user, pass))
}

/// Whether credentials, if any, are the expected ones.
pub fn credentials_match(
    pair: &Option<(String, String)>,
    expected_user: &str,
    expected_pass: &str,
) -> (yes: bool)
    ensures
        yes == matching(pair_text(*pair), expected_user@, expected_pass@),
{
    match pair {
        Some((user, pass)) => text_eq(user, expected_user) && text_eq(pass, expected_pass),
        None => false,
    }
}

/// Whether a request may be served: it needs no credentials, or carries the
/// expected ones.
pub open spec fn authorized(
    headers: HeaderMap,
    user: Seq<char>,
    pass: Seq<char>,
    method: Seq<char>,
) -> bool {
    open_method(method) || matching(request_credentials(headers), user, pass)
}

/// Whether a request may be served.
pub fn is_authorized(
    headers: &HeaderMap,
    expected_user: &str,
    expected_pass: &str,
    method: &str,
) -> (yes: bool)
    ensures
        yes == authorized(*headers, expected_user@, expected_pass@, method@),
{
    if method_allows_unauthenticated(method) {
        return true;
    }
    let pair: Option<(String, String)> = extract_basic_auth(headers);
    credentials_match(&pair, expected_user, expected_pass)
}

// ---------------------------------------------------------------------------
// The answer to an unauthorized request
// ---------------------------------------------------------------------------

/// Status and header fields of an answer with an empty body.
#[derive(Debug, Clone)]
pub struct ResponseHead {
    pub status: u16,
    pub headers: Vec<(String, String)>,
}

/// The contents of a [`ResponseHead`].
#[verifier::ext_equal]
pub struct ResponseHeadView {
    pub status: u16,
    pub headers: Seq<(Seq<char>, Seq<char>)>,
}

/// The text of a list of header fields.
pub open spec fn field_views(fields: Seq<(String, String)>) -> Seq<(Seq<char>, Seq<char>)> {
    fields.map_values(|f: (String, String)| (f.0@, f.1@))
}

impl View for ResponseHead {
    type V = ResponseHeadView;

    open spec fn view(&self) -> ResponseHeadView {
        ResponseHeadView { status: self.status, headers: field_views(self.headers@) }
    }
}

/// The value of the first field whose name is `name`, in any case.
pub open spec fn looked_up(
    fields: Seq<(Seq<char>, Seq<char>)>,
    name: Seq<char>,
) -> Option<Seq<char>>
    decreases fields.len(),
{
    if fields.len() == 0 {
        None
    } else if crate::text::ascii_lowercase(fields[0].0) == crate::text::ascii_lowercase(name) {
        Some(fields[0].1)
    } else {
        looked_up(fields.skip(1), name)
    }
}

impl ResponseHead {
    /// The value of a header field.
    pub fn header(&self, name: &str) -> (value: Option<&str>)
        ensures
            value is Some <==> looked_up(self@.headers, name@) is Some,
            value matches Some(text) ==> looked_up(self@.headers, name@) == Some(text@),
    {
        let mut i: usize = 0;
        let ghost fields = self@.headers;
        assert(fields.skip(0) == fields);
        while i < self.headers.len()
            invariant
                i <= self.headers@.len(),
                fields == field_views(self.headers@),
                looked_up(fields, name@) == looked_up(fields.skip(i as int), name@),
            decreases self.headers@.len() - i,
        {
            let ghost rest = fields.skip(i as int);
            assert(rest[0] == fields[i as int]);
            assert(rest.skip(1) == fields.skip(i + 1));
            if eq_ignore_ascii_case(&self.headers[i].0, name) {
                return Some(self.headers[i].1.as_str());
            }
            i = i + 1;
        }
        None
    }
}

/// The fields that every refusal carries.
pub open spec fn challenge_fields() -> Seq<(Seq<char>, Seq<char>)> {
    seq![
        ("WWW-Authenticate"@, "Basic realm=\"webdav\", charset=\"UTF-8\""@),
        ("Content-Length"@, "0"@),
    ]
}

/// The fields that tell what the server is capable of.
pub open spec fn capability_fields() -> Seq<(Seq<char>, Seq<char>)> {
    seq![
        ("DAV"@, "1,2"@),
        ("MS-Author-Via"@, "DAV"@),
        (
            "Allow"@,
            "OPTIONS, GET, HEAD, PUT, DELETE, PROPFIND, PROPPATCH, MKCOL, COPY, MOVE, LOCK, UNLOCK"@,
        ),
    ]
}

/// The answer to an unauthorized request.
pub open spec fn refusal(method: Seq<char>) -> ResponseHeadView {
    ResponseHeadView {
        status: 401,
        headers: if method == "OPTIONS"@ {
            challenge_fields() + capability_fields()
        } else {
            challenge_fields()
        },
    }
}

/// The answer to an unauthorized request: a strict challenge, with the DAV
/// capability headers on `OPTIONS`.
pub fn build_unauthorized_response(method: &str) -> (response: ResponseHead)
    ensures
        response@ == refusal(method@),
{
    let mut headers: Vec<(String, String)> = Vec::new();
    headers.push(
        (
            "WWW-Authenticate".to_string(),
            "Basic realm=\"webdav\", charset=\"UTF-8\"".to_string(),
        ),
    );
    headers.push(("Content-Length".to_string(), "0".to_string()));
    assert(field_views(headers@) =~= challenge_fields());
    if text_eq(method, "OPTIONS") {
        headers.push(("DAV".to_string(), "1,2".to_string()));
        headers.push(("MS-Author-Via".to_string(), "DAV".to_string()));
        headers.push(
            (
                "Allow".to_string(),
                "OPTIONS, GET, HEAD, PUT, DELETE, PROPFIND, PROPPATCH, MKCOL, COPY, MOVE, LOCK, UNLOCK".to_string(),
            ),
        );
        assert(field_views(headers@) =~= challenge_fields() + capability_fields());
    }
    let response = ResponseHead { status: 401, headers };
    assert(response@ =~= refusal(method@));
    response
}

// ---------------------------------------------------------------------------
// Laws
// ---------------------------------------------------------------------------

/// `OPTIONS` requests are served without credentials, whatever they carry.
pub proof fn law_options_need_no_credentials(
    headers: HeaderMap,
    user: Seq<char>,
    pass: Seq<char>,
)
    ensures
        authorized(headers, user, pass, "OPTIONS"@),
{
}

/// Any other request is served exactly if it carries the expected name and
/// password.
pub proof fn law_other_methods_need_credentials(
    headers: HeaderMap,
    user: Seq<char>,
    pass: Seq<char>,
    method: Seq<char>,
)
    requires
        method != "OPTIONS"@,
    ensures
        authorized(headers, user, pass, method) <==> request_credentials(headers) == Some(
            (user, pass),
        ),
        authorization(headers) is None ==> !authorized(headers, user, pass, method),
{
}

/// A request that is served for one pair of name and password is refused for
/// any other, unless it needs none.
pub proof fn law_credentials_are_unique(
    headers: HeaderMap,
    user: Seq<char>,
    pass: Seq<char>,
    other_user: Seq<char>,
    other_pass: Seq<char>,
    method: Seq<char>,
)
    requires
        method != "OPTIONS"@,
        authorized(headers, user, pass, method),
        (user, pass) != (other_user, other_pass),
    ensures
        !authorized(headers, other_user, other_pass, method),
{
}

proof fn lemma_word_then_end(s: Seq<char>)
    requires
        s.len() > 0,
        forall|i: int| 0 <= i < s.len() ==> !crate::text::white_space(#[trigger] s[i]),
    ensures
        crate::text::words(s) == seq![s],
{
    crate::text::lemma_prefix_len_unique(s, crate::text::not_white_space(), s.len() as int);
    assert(s.take(s.len() as int) == s);
    assert(crate::text::words(s.skip(s.len() as int)) == Seq::<Seq<char>>::empty());
    assert(seq![s] + Seq::<Seq<char>>::empty() == seq![s]);
}

/// The standard form `Basic <token>` is understood: where the token encodes
/// `user:pass`, that name and password are found, whatever the case of the
/// scheme's letters.
pub proof fn law_standard_header_is_understood(
    scheme: Seq<char>,
    token: Seq<char>,
    user: Seq<char>,
    pass: Seq<char>,
)
    requires
        crate::text::ascii_lowercase(scheme) == "basic"@,
        token.len() > 0,
        forall|i: int| 0 <= i < token.len() ==> !crate::text::white_space(#[trigger] token[i]),
        base64_decoded(token) == Some(encode_utf8(user + seq![':'] + pass)),
        forall|i: int| 0 <= i < user.len() ==> #[trigger] user[i] != ':',
    ensures
        basic_credentials(scheme + seq![' '] + token) == Some((user, pass)),
{
    let value = scheme + seq![' '] + token;
    reveal_strlit("basic");
    let small = crate::text::ascii_lowercase(scheme);
    assert(small.len() == scheme.len());
    assert("basic"@.len() == 5);
    assert(small == crate::text::ascii_lowercase("basic"@)) by {
        assert(crate::text::ascii_lowercase("basic"@) =~= "basic"@);
    }
    assert forall|i: int| 0 <= i < scheme.len() implies !crate::text::white_space(
        #[trigger] scheme[i],
    ) by {
        assert(small[i] == crate::text::ascii_lower(scheme[i]));
        assert(small[i] == "basic"@[i]);
        assert('a' <= "basic"@[i] <= 'z');
    }
    assert forall|i: int| 0 <= i < scheme.len() implies !crate::text::white_space(
        #[trigger] value[i],
    ) by {
        assert(value[i] == scheme[i]);
    }
    crate::text::lemma_prefix_len_unique(
        value,
        crate::text::not_white_space(),
        scheme.len() as int,
    );
    assert(value.take(scheme.len() as int) == scheme);
    let rest = value.skip(scheme.len() as int);
    assert(rest[0] == ' ');
    assert(rest.skip(1) == token);
    lemma_word_then_end(token);
    assert(crate::text::words(rest) == seq![token]);
    assert(value[0] == scheme[0]);
    assert(crate::text::words(value) == seq![scheme] + seq![token]);
    let text = user + seq![':'] + pass;
    encode_utf8_valid_utf8(text);
    encode_utf8_decode_utf8(text);
    assert forall|i: int| 0 <= i < user.len() implies #[trigger] text[i] != ':' by {
        assert(text[i] == user[i]);
    }
    crate::text::lemma_prefix_len_unique(
        text,
        crate::text::other_than(':'),
        user.len() as int,
    );
    assert(text.take(user.len() as int) == user);
    assert(text.skip(user.len() as int + 1) == pass);
}

/// Every refusal is a Basic challenge with an empty body.
pub proof fn law_refusal_challenges(method: Seq<char>)
    ensures
        refusal(method).status == 401,
        refusal(method).headers.take(2) == challenge_fields(),
        refusal(method).headers.len() == 2 <==> method != "OPTIONS"@,
{
    assert(refusal(method).headers.take(2) =~= challenge_fields());
}

/// A header field is read as text exactly if it is there and its first value
/// holds visible ASCII, spaces and tabs alone; the text is that value, byte by
/// byte. Later values do not count, and the case of the name makes no
/// difference.
pub proof fn law_field_is_its_first_value(headers: HeaderMap, name: Seq<char>, key: Seq<char>)
    requires
        key.len() == name.len(),
        forall|i: int|
            0 <= i < name.len() ==> (#[trigger] key[i] == name[i] && !('A' <= name[i] <= 'Z'))
                || ('A' <= name[i] <= 'Z' && key[i] as int == name[i] as int + 32),
    ensures
        ({
            let fields = header_fields(headers);
            let present = fields.contains_key(key) && fields[key].len() > 0;
            let value = fields[key][0];
            let readable = forall|i: int|
                0 <= i < value.len() ==> ' ' <= #[trigger] value[i] as char <= '~' || value[i]
                    == 9;
            &&& field_text(headers, name) is Some <==> present && readable
            &&& field_text(headers, name) matches Some(text) ==> {
                &&& text.len() == value.len()
                &&& forall|i: int| 0 <= i < text.len() ==> #[trigger] text[i] == value[i] as char
            }
        }),
{
    let fields = header_fields(headers);
    assert(crate::text::ascii_lowercase(name) == key) by {
        assert forall|i: int| 0 <= i < name.len() implies #[trigger] crate::text::ascii_lowercase(
            name,
        )[i] == key[i] by {
            assert(key[i] == key[i]);
        }
    }
    if fields.contains_key(key) && fields[key].len() > 0 {
        let value = fields[key][0];
        if forall|i: int| 0 <= i < value.len() ==> ' ' <= #[trigger] value[i] as char <= '~'
            || value[i] == 9 {
            assert forall|i: int| 0 <= i < value.len() implies visible(#[trigger] value[i]) by {
                assert(' ' <= value[i] as char <= '~' || value[i] == 9);
            }
        }
        if forall|i: int| 0 <= i < value.len() ==> visible(#[trigger] value[i]) {
            assert forall|i: int| 0 <= i < value.len() implies ' ' <= #[trigger] value[i] as char
                <= '~' || value[i] == 9 by {
                assert(visible(value[i]));
            }
        }
    }
}

/// A value of the Basic scheme has two words: the name of the scheme, in
/// whatever case, and the token. The token is the second, as it stands.
pub proof fn law_token_is_the_second_word(value: Seq<char>)
    ensures
        basic_token(value) is Some <==> {
            &&& crate::text::words(value).len() == 2
            &&& crate::text::words(value)[0].len() == 5
            &&& forall|i: int|
                0 <= i < 5 ==> {
                    let c = #[trigger] crate::text::words(value)[0][i];
                    c == "basic"@[i] || c == "BASIC"@[i]
                }
        },
        basic_token(value) matches Some(token) ==> token == crate::text::words(value)[1],
{
    reveal_strlit("basic");
    reveal_strlit("BASIC");
    let small = crate::text::ascii_lowercase("basic"@);
    assert(small =~= "basic"@);
    let first = crate::text::words(value)[0];
    let lowered = crate::text::ascii_lowercase(first);
    assert("basic"@.len() == 5 && "BASIC"@.len() == 5);
    if lowered == small {
        assert(first.len() == lowered.len());
        assert forall|i: int| 0 <= i < 5 implies ({
            let c = #[trigger] first[i];
            c == "basic"@[i] || c == "BASIC"@[i]
        }) by {
            assert(lowered[i] == small[i]);
            assert(lowered[i] == crate::text::ascii_lower(first[i]));
        }
    }
    if first.len() == 5 && forall|i: int|
        0 <= i < 5 ==> {
            let c = #[trigger] first[i];
            c == "basic"@[i] || c == "BASIC"@[i]
        } {
        assert forall|i: int| 0 <= i < 5 implies #[trigger] lowered[i] == small[i] by {
            let c = first[i];
            assert(c == "basic"@[i] || c == "BASIC"@[i]);
        }
        assert(lowered =~= small);
    }
}

/// Name and password are the parts of the decoded text before and after its
/// first colon: put together again, they are what was decoded.
pub proof fn law_credentials_are_the_decoded_text(decoded: Option<Seq<u8>>)
    ensures
        credentials(decoded) matches Some((user, pass)) ==> {
            &&& decoded == Some(encode_utf8(user + seq![':'] + pass))
            &&& !user.contains(':')
        },
        credentials(decoded) is None <==> {
            ||| decoded is None
            ||| !valid_utf8(decoded->0)
            ||| !decode_utf8(decoded->0).contains(':')
        },
{
    if let Some(bytes) = decoded {
        if valid_utf8(bytes) {
            let text = decode_utf8(bytes);
            crate::text::law_split_parts_make_the_text(text, ':');
            decode_utf8_encode_utf8(bytes);
            if let Some((user, pass)) = crate::text::split_once(text, ':') {
                assert(user.push(':') + pass == user + seq![':'] + pass);
            }
        }
    }
}

/// A request carries exactly what the token of its `Authorization` field
/// decodes to.
pub proof fn law_request_carries_the_decoded_token(headers: HeaderMap)
    ensures
        field_text(headers, "authorization"@) is None ==> request_credentials(headers) is None,
        field_text(headers, "authorization"@) matches Some(value) ==> {
            &&& basic_token(value) is None ==> request_credentials(headers) is None
            &&& basic_token(value) matches Some(token) ==> request_credentials(headers)
                == credentials(base64_decoded(token))
        },
{
}

/// A field is looked up by its name, in whatever case, and the first that
/// matches counts.
pub proof fn law_first_matching_field_counts(
    fields: Seq<(Seq<char>, Seq<char>)>,
    name: Seq<char>,
    i: int,
)
    requires
        0 <= i < fields.len(),
        crate::text::ascii_lowercase(fields[i].0) == crate::text::ascii_lowercase(name),
        forall|j: int|
            0 <= j < i ==> crate::text::ascii_lowercase((#[trigger] fields[j]).0)
                != crate::text::ascii_lowercase(name),
    ensures
        looked_up(fields, name) == Some(fields[i].1),
    decreases i,
{
    if i > 0 {
        assert(crate::text::ascii_lowercase(fields[0].0) != crate::text::ascii_lowercase(name));
        let rest = fields.skip(1);
        assert forall|j: int| 0 <= j < i - 1 implies crate::text::ascii_lowercase(
            (#[trigger] rest[j]).0,
        ) != crate::text::ascii_lowercase(name) by {
            assert(rest[j] == fields[j + 1]);
        }
        law_first_matching_field_counts(rest, name, i - 1);
    }
}

/// A field that is not there is not found.
pub proof fn law_missing_field_is_not_found(fields: Seq<(Seq<char>, Seq<char>)>, name: Seq<char>)
    requires
        forall|j: int|
            0 <= j < fields.len() ==> crate::text::ascii_lowercase((#[trigger] fields[j]).0)
                != crate::text::ascii_lowercase(name),
    ensures
        looked_up(fields, name) is None,
    decreases fields.len(),
{
    if fields.len() > 0 {
        assert(crate::text::ascii_lowercase(fields[0].0) != crate::text::ascii_lowercase(name));
        let rest = fields.skip(1);
        assert forall|j: int| 0 <= j < rest.len() implies crate::text::ascii_lowercase(
            (#[trigger] rest[j]).0,
        ) != crate::text::ascii_lowercase(name) by {
            assert(rest[j] == fields[j + 1]);
        }
        law_missing_field_is_not_found(rest, name);
    }
}

/// Every refusal asks for Basic credentials for the realm of this server, in
/// UTF-8, and has no body; that of `OPTIONS`, and no other, also tells what the
/// server is capable of.
pub proof fn law_refusal_names_realm_and_capabilities(method: Seq<char>)
    ensures
        refusal(method).status == 401,
        refusal(method).headers.contains(
            ("WWW-Authenticate"@, "Basic realm=\"webdav\", charset=\"UTF-8\""@),
        ),
        refusal(method).headers.contains(("Content-Length"@, "0"@)),
        method == "OPTIONS"@ ==> {
            &&& refusal(method).headers.contains(("DAV"@, "1,2"@))
            &&& refusal(method).headers.contains(("MS-Author-Via"@, "DAV"@))
            &&& refusal(method).headers.contains(
                (
                    "Allow"@,
                    "OPTIONS, GET, HEAD, PUT, DELETE, PROPFIND, PROPPATCH, MKCOL, COPY, MOVE, LOCK, UNLOCK"@,
                ),
            )
            &&& refusal(method).headers.len() == 5
        },
        method != "OPTIONS"@ ==> refusal(method).headers.len() == 2,
{
    let fields = refusal(method).headers;
    assert(fields[0].0 == "WWW-Authenticate"@ && fields[1].0 == "Content-Length"@);
    assert(fields.contains(fields[0]) && fields.contains(fields[1]));
    if method == "OPTIONS"@ {
        assert(fields[2] == capability_fields()[0]);
        assert(fields[3] == capability_fields()[1]);
        assert(fields[4] == capability_fields()[2]);
        assert(fields.contains(fields[2]) && fields.contains(fields[3]) && fields.contains(
            fields[4],
        ));
    }
}

/// The head of an answer is seen field by field, in its order.
pub proof fn law_response_head_tells_all(head: ResponseHead, i: int)
    ensures
        head@.status == head.status,
        head@.headers.len() == head.headers@.len(),
        0 <= i < head.headers@.len() ==> head@.headers[i].0 == head.headers@[i].0@
            && head@.headers[i].1 == head.headers@[i].1@,
{
}

} // verus!
