//! WebDAV paths: percent decoding, normalisation and parent folders.

use vstd::prelude::*;
use vstd::utf8::*;

use crate::text::{
    chars_of, count_after_last, find_char, starts_with, string_from_utf8_lossy, text_between,
    trim_end_char, trim_start_char,
};

verus! {

// ---------------------------------------------------------------------------
// Percent decoding
// ---------------------------------------------------------------------------

/// The value of a hexadecimal digit.
pub open spec fn hex_digit_value(byte: u8) -> Option<u8> {
    if 0x30 <= byte <= 0x39 {
        Some((byte - 0x30) as u8)
    } else if 0x61 <= byte <= 0x66 {
        Some((byte - 0x61 + 10) as u8)
    } else if 0x41 <= byte <= 0x46 {
        Some((byte - 0x41 + 10) as u8)
    } else {
        None
    }
}

/// A `%` and two hexadecimal digits stand at the start of `bytes`.
pub open spec fn starts_with_escape(bytes: Seq<u8>) -> bool {
    &&& bytes.len() >= 3
    &&& bytes[0] == 0x25
    &&& hex_digit_value(bytes[1]) is Some
    &&& hex_digit_value(bytes[2]) is Some
}

/// The bytes with each `%` escape replaced by the byte that it stands for.
pub open spec fn percent_decoded(bytes: Seq<u8>) -> Seq<u8>
    decreases bytes.len(),
{
    if bytes.len() == 0 {
        Seq::empty()
    } else if starts_with_escape(bytes) {
        let byte = hex_digit_value(bytes[1])->0 * 16 + hex_digit_value(bytes[2])->0;
        seq![byte as u8] + percent_decoded(bytes.skip(3))
    } else {
        seq![bytes[0]] + percent_decoded(bytes.skip(1))
    }
}

/// The text that a percent-encoded text stands for.
pub open spec fn decoded_text(s: Seq<char>) -> Seq<char> {
    crate::text::lossy_text(percent_decoded(encode_utf8(s)))
}

/// Returns the value of a hexadecimal digit.
pub fn hex_value(byte: u8) -> (value: Option<u8>)
    ensures
        value == hex_digit_value(byte),
        value matches Some(v) ==> v < 16,
{
    if 0x30 <= byte && byte <= 0x39 {
        Some(byte - 0x30)
    } else if 0x61 <= byte && byte <= 0x66 {
        Some(byte - 0x61 + 10)
    } else if 0x41 <= byte && byte <= 0x46 {
        Some(byte - 0x41 + 10)
    } else {
        None
    }
}

/// Replaces each `%` escape by the byte that it stands for.
pub fn percent_decode(bytes: &[u8]) -> (out: Vec<u8>)
    ensures
        out@ == percent_decoded(bytes@),
{
    let mut out: Vec<u8> = Vec::new();
    let mut i: usize = 0;
    assert(bytes@.skip(0) == bytes@);
    while i < bytes.len()
        invariant
            i <= bytes@.len(),
            out@ + percent_decoded(bytes@.skip(i as int)) == percent_decoded(bytes@),
        decreases bytes@.len() - i,
    {
        let ghost rest = bytes@.skip(i as int);
        let ghost before = out@;
        if bytes[i] == 0x25 && bytes.len() - i > 2 {
            let hi: Option<u8> = hex_value(bytes[i + 1]);
            let lo: Option<u8> = hex_value(bytes[i + 2]);
            if let (Some(hi), Some(lo)) = (hi, lo) {
                assert((hi << 4) | lo == hi * 16 + lo && hi * 16 + lo < 256) by (bit_vector)
                    requires
                        hi < 16,
                        lo < 16,
                ;
                out.push((hi << 4) | lo);
                i = i + 3;
                proof {
                    assert(rest.skip(3) == bytes@.skip(i as int));
                    assert(starts_with_escape(rest));
                    assert(out@ == before + seq![(hi * 16 + lo) as u8]);
                    assert(before + (seq![(hi * 16 + lo) as u8] + percent_decoded(
                        bytes@.skip(i as int),
                    )) == out@ + percent_decoded(bytes@.skip(i as int)));
                }
                continue;
            }
        }
        assert(!starts_with_escape(rest));
        out.push(bytes[i]);
        i = i + 1;
        proof {
            assert(rest.skip(1) == bytes@.skip(i as int));
            assert(before + (seq![rest[0]] + percent_decoded(bytes@.skip(i as int))) == out@
                + percent_decoded(bytes@.skip(i as int)));
        }
    }
    assert(bytes@.skip(i as int).len() == 0);
    assert(out@ + percent_decoded(bytes@.skip(i as int)) == out@);
    out
}

/// Decodes the `%` escapes of a text; bytes that are not UTF-8 are replaced.
pub fn percent_decode_lossy(input: &str) -> (text: String)
    ensures
        text@ == decoded_text(input@),
{
    let out: Vec<u8> = percent_decode(input.as_bytes());
    string_from_utf8_lossy(&out)
}

// ---------------------------------------------------------------------------
// Normalisation
// ---------------------------------------------------------------------------

/// The part of a URL after its host, or `/` where nothing follows the host.
pub open spec fn from_first_slash(s: Seq<char>) -> Seq<char> {
    let i = crate::text::first_index(s, '/');
    if i < s.len() {
        s.skip(i)
    } else {
        "/"@
    }
}

/// The path of an `http` or `https` URL; any other text as it is.
pub open spec fn url_path(s: Seq<char>) -> Seq<char> {
    if crate::text::has_prefix(s, "http://"@) {
        from_first_slash(s.skip("http://"@.len() as int))
    } else if crate::text::has_prefix(s, "https://"@) {
        from_first_slash(s.skip("https://"@.len() as int))
    } else {
        s
    }
}

/// The characters that do not start a query or a fragment.
pub open spec fn not_query() -> spec_fn(char) -> bool {
    |x: char| x != '?' && x != '#'
}

/// The part of a path before its query or fragment.
pub open spec fn before_query(s: Seq<char>) -> Seq<char> {
    s.take(crate::text::prefix_len(s, not_query()))
}

/// The path with a leading slash.
pub open spec fn with_leading_slash(s: Seq<char>) -> Seq<char> {
    if s.len() == 0 {
        "/"@
    } else if s[0] == '/' {
        s
    } else {
        "/"@ + s
    }
}

/// The path that a request names: query and fragment cut off, decoded, with a
/// leading slash.
pub open spec fn request_path(s: Seq<char>) -> Seq<char> {
    with_leading_slash(decoded_text(before_query(s)))
}

/// The path that a URL or a path sent over the wire names.
pub open spec fn wire_path(s: Seq<char>) -> Seq<char> {
    request_path(url_path(s))
}

/// The path below the data directory that a wire path names.
pub open spec fn fs_path(s: Seq<char>) -> Seq<char> {
    crate::text::trim_start(decoded_text(s), '/')
}

fn skip_to_first_slash(chars: &Vec<char>, from: usize) -> (text: String)
    requires
        from <= chars@.len(),
    ensures
        text@ == from_first_slash(chars@.skip(from as int)),
{
    let rest: String = text_between(chars, from, chars.len());
    assert(rest@ == chars@.skip(from as int));
    let after: Vec<char> = chars_of(&rest);
    let i: usize = find_char(&after, '/');
    if i < after.len() {
        let text: String = text_between(&after, i, after.len());
        assert(text@ == after@.skip(i as int));
        text
    } else {
        "/".to_string()
    }
}

/// Extracts the path component from a `Destination` header value, which may be
/// either a full URL (`http://host/path`) or a plain absolute path (`/path`).
pub fn destination_path(destination: &str) -> (path: String)
    ensures
        path@ == url_path(destination@),
{
    let chars: Vec<char> = chars_of(destination);
    proof {
        reveal_strlit("http://");
        reveal_strlit("https://");
    }
    if starts_with(destination, "http://") {
        return skip_to_first_slash(&chars, 7);
    }
    if starts_with(destination, "https://") {
        return skip_to_first_slash(&chars, 8);
    }
    destination.to_string()
}

/// Cuts off the query and the fragment of a path.
pub fn cut_query(path: &str) -> (text: String)
    ensures
        text@ == before_query(path@),
{
    let chars: Vec<char> = chars_of(path);
    let mut i: usize = 0;
    while i < chars.len() && chars[i] != '?' && chars[i] != '#'
        invariant
            i <= chars@.len(),
            forall|k: int| 0 <= k < i ==> #[trigger] chars@[k] != '?' && chars@[k] != '#',
        decreases chars@.len() - i,
    {
        i = i + 1;
    }
    proof {
        crate::text::lemma_prefix_len_unique(chars@, not_query(), i as int);
    }
    let text: String = text_between(&chars, 0, i);
    assert(text@ == path@.take(i as int));
    text
}

/// Normalises the path of a request: cuts off query and fragment, decodes the
/// escapes and adds a leading slash where there is none.
pub fn normalize_request_path(path: &str) -> (normalized: String)
    ensures
        normalized@ == request_path(path@),
{
    let cut: String = cut_query(path);
    let decoded: String = percent_decode_lossy(&cut);
    proof {
        reveal_strlit("/");
    }
    let chars: Vec<char> = chars_of(&decoded);
    if chars.len() == 0 {
        "/".to_string()
    } else if chars[0] == '/' {
        decoded
    } else {
        "/".to_string().concat(&decoded)
    }
}

/// Normalises the value of a `Destination` header to a path.
pub fn normalize_destination(destination: &str) -> (normalized: String)
    ensures
        normalized@ == wire_path(destination@),
{
    let path: String = destination_path(destination);
    normalize_request_path(&path)
}

/// Normalises a path or a URL that a peer sent.
pub fn normalize_wire_path(path: &str) -> (normalized: String)
    ensures
        normalized@ == wire_path(path@),
{
    let path: String = destination_path(path);
    normalize_request_path(&path)
}

/// The path, relative to the data directory, of the file that a wire path
/// names.
pub fn fs_path_from_wire_path(path: &str) -> (relative: String)
    ensures
        relative@ == fs_path(path@),
{
    let decoded: String = percent_decode_lossy(path);
    trim_start_char(&decoded, '/')
}

/// The path, relative to the data directory, of the file at a WebDAV path.
pub fn data_file_path(path: &str) -> (relative: String)
    ensures
        relative@ == crate::text::trim_start(path@, '/'),
{
    trim_start_char(path, '/')
}

// ---------------------------------------------------------------------------
// Folders
// ---------------------------------------------------------------------------

/// The parent of an absolute path.
pub open spec fn parent_of(path: Seq<char>) -> Seq<char> {
    match crate::text::before_last(path, '/') {
        Some(parent) => if parent.len() == 0 {
            "/"@
        } else {
            parent
        },
        None => "/"@,
    }
}

/// The path without trailing slashes; the root is `/`.
pub open spec fn stored_path(path: Seq<char>) -> Seq<char> {
    let trimmed = crate::text::trim_end(path, '/');
    if trimmed.len() == 0 {
        "/"@
    } else {
        trimmed
    }
}

/// The folder that holds the resource at a path.
pub open spec fn folder_of(path: Seq<char>) -> Seq<char> {
    parent_of(stored_path(path))
}

/// Returns the parent directory portion of an absolute path.
/// `/a/b/c` → `/a/b`, `/file.txt` → `/`, `/` → `/`.
pub fn parent_path(path: &str) -> (parent: String)
    ensures
        parent@ == parent_of(path@),
{
    let chars: Vec<char> = chars_of(path);
    let after: usize = count_after_last(&chars, '/');
    if after == chars.len() || chars.len() - after == 1 {
        "/".to_string()
    } else {
        let parent: String = text_between(&chars, 0, chars.len() - after - 1);
        assert(parent@ == path@.take(path@.len() - after - 1));
        parent
    }
}

/// Removes the trailing slashes of a path; the root stays `/`.
pub fn normalize_path(path: &str) -> (normalized: String)
    ensures
        normalized@ == stored_path(path@),
{
    let trimmed: String = trim_end_char(path, '/');
    if trimmed.as_str().is_empty() {
        "/".to_string()
    } else {
        trimmed
    }
}

/// The folder that holds the resource at `path`.
pub fn current_folder(path: &str) -> (folder: String)
    ensures
        folder@ == folder_of(path@),
{
    let path: String = normalize_path(path);
    parent_path(&path)
}

// ---------------------------------------------------------------------------
// Laws
// ---------------------------------------------------------------------------

/// No byte of the UTF-8 encoding is a percent sign unless a character is.
proof fn lemma_no_percent_byte(s: Seq<char>)
    requires
        forall|i: int| 0 <= i < s.len() ==> #[trigger] s[i] != '%',
    ensures
        forall|i: int| 0 <= i < encode_utf8(s).len() ==> #[trigger] encode_utf8(s)[i] != 0x25,
    decreases s.len(),
{
    if s.len() != 0 {
        let c = s[0] as u32;
        let rest = s.drop_first();
        lemma_no_percent_byte(rest);
        char_is_scalar(s[0]);
        char_u32_cast(s[0], c);
        assert(c != 0x25) by {
            assert(s[0] != '%');
            assert('%' as u32 == 0x25);
        }
        assert(has_width_1_encoding(c) ==> leading_byte_width_1(c) != 0x25) by (bit_vector)
            requires
                c != 0x25,
        ;
        assert(leading_byte_width_2(c) != 0x25 && leading_byte_width_3(c) != 0x25
            && leading_byte_width_4(c) != 0x25 && last_continuation_byte(c) != 0x25
            && second_last_continuation_byte(c) != 0x25 && third_last_continuation_byte(c)
            != 0x25) by (bit_vector);
        let head = encode_scalar(c);
        let tail = encode_utf8(rest);
        assert forall|i: int| 0 <= i < encode_utf8(s).len() implies #[trigger] encode_utf8(s)[i]
            != 0x25 by {
            if i < head.len() {
                assert(encode_utf8(s)[i] == head[i]);
            } else {
                assert(encode_utf8(s)[i] == tail[i - head.len()]);
            }
        }
    }
}

proof fn lemma_percent_decoded_plain(bytes: Seq<u8>)
    requires
        forall|i: int| 0 <= i < bytes.len() ==> #[trigger] bytes[i] != 0x25,
    ensures
        percent_decoded(bytes) == bytes,
    decreases bytes.len(),
{
    if bytes.len() != 0 {
        assert(bytes[0] != 0x25);
        lemma_percent_decoded_plain(bytes.skip(1));
        assert(seq![bytes[0]] + bytes.skip(1) == bytes);
    }
}

/// Text without percent signs decodes to itself.
pub proof fn law_plain_text_decodes_to_itself(s: Seq<char>)
    requires
        forall|i: int| 0 <= i < s.len() ==> #[trigger] s[i] != '%',
    ensures
        decoded_text(s) == s,
{
    lemma_no_percent_byte(s);
    lemma_percent_decoded_plain(encode_utf8(s));
    encode_utf8_valid_utf8(s);
    encode_utf8_decode_utf8(s);
}

/// Every normalised path is absolute.
pub proof fn law_normalized_paths_are_absolute(s: Seq<char>)
    ensures
        request_path(s).len() > 0,
        request_path(s)[0] == '/',
        wire_path(s).len() > 0,
        wire_path(s)[0] == '/',
{
    reveal_strlit("/");
}

/// An absolute path without escapes, query and fragment is normalised to
/// itself, whichever way it came.
pub proof fn law_plain_path_is_kept(s: Seq<char>)
    requires
        s.len() > 0,
        s[0] == '/',
        forall|i: int| 0 <= i < s.len() ==> #[trigger] s[i] != '%' && s[i] != '?' && s[i] != '#',
    ensures
        request_path(s) == s,
        wire_path(s) == s,
{
    crate::text::lemma_prefix_len_unique(s, not_query(), s.len() as int);
    assert(s.take(s.len() as int) == s);
    law_plain_text_decodes_to_itself(s);
    reveal_strlit("http://");
    reveal_strlit("https://");
    assert(s.len() >= 7 ==> s.take(7)[0] == '/');
    assert(s.len() >= 8 ==> s.take(8)[0] == '/');
    assert("http://"@[0] == 'h');
    assert("https://"@[0] == 'h');
}

/// An `http` or `https` URL names the same path as its part after the host.
pub proof fn law_url_names_its_path(host: Seq<char>, path: Seq<char>)
    requires
        path.len() > 0,
        path[0] == '/',
        forall|i: int| 0 <= i < host.len() ==> #[trigger] host[i] != '/',
    ensures
        wire_path("http://"@ + host + path) == request_path(path),
        wire_path("https://"@ + host + path) == request_path(path),
{
    reveal_strlit("http://");
    reveal_strlit("https://");
    let rest = host + path;
    crate::text::lemma_prefix_len_unique(
        rest,
        crate::text::other_than('/'),
        host.len() as int,
    );
    assert(rest.skip(host.len() as int) == path);
    let plain = "http://"@ + host + path;
    let secure = "https://"@ + host + path;
    assert(plain.take(7) == "http://"@);
    assert(plain.skip(7) == rest);
    assert(secure.take(7)[4] == 's');
    assert("http://"@[4] == ':');
    assert(secure.take(8) == "https://"@);
    assert(secure.skip(8) == rest);
}

/// Normalising a stored path again changes nothing, and only the root ends in
/// a slash.
pub proof fn law_stored_path_is_normal(path: Seq<char>)
    ensures
        stored_path(stored_path(path)) == stored_path(path),
        stored_path(path).len() > 0,
        stored_path(path).last() == '/' ==> stored_path(path) == "/"@,
{
    reveal_strlit("/");
    let p = crate::text::equal_to('/');
    let trimmed = crate::text::trim_end(path, '/');
    crate::text::lemma_suffix_len(path, p);
    if trimmed.len() != 0 {
        assert(trimmed.last() != '/');
        crate::text::lemma_suffix_len_unique(trimmed, p, 0);
        assert(trimmed.take(trimmed.len() as int) == trimmed);
    } else {
        crate::text::lemma_suffix_len_unique("/"@, p, 1);
    }
}

/// The folder of a resource is the path in front of its name.
pub proof fn law_folder_holds_its_children(folder: Seq<char>, name: Seq<char>)
    requires
        name.len() > 0,
        forall|i: int| 0 <= i < name.len() ==> #[trigger] name[i] != '/',
    ensures
        folder.len() > 0 ==> folder_of(folder + "/"@ + name) == folder,
        folder_of("/"@ + name) == "/"@,
{
    reveal_strlit("/");
    lemma_folder_of_child(folder, name);
    lemma_folder_of_child(Seq::empty(), name);
    assert(Seq::<char>::empty() + "/"@ + name == "/"@ + name);
}

proof fn lemma_folder_of_child(folder: Seq<char>, name: Seq<char>)
    requires
        name.len() > 0,
        forall|i: int| 0 <= i < name.len() ==> #[trigger] name[i] != '/',
    ensures
        folder_of(folder + "/"@ + name) == if folder.len() == 0 {
            "/"@
        } else {
            folder
        },
{
    reveal_strlit("/");
    let path = folder + "/"@ + name;
    assert(path.last() == name.last());
    crate::text::lemma_suffix_len_unique(path, crate::text::equal_to('/'), 0);
    assert(path.take(path.len() as int) == path);
    assert forall|i: int| path.len() - name.len() <= i < path.len() implies #[trigger] path[i]
        != '/' by {
        assert(path[i] == name[i - (path.len() - name.len())]);
    }
    assert(path[path.len() - name.len() - 1] == '/');
    crate::text::lemma_suffix_len_unique(
        path,
        crate::text::other_than('/'),
        name.len() as int,
    );
    assert(path.take(path.len() - name.len() - 1) == folder);
}

// ---------------------------------------------------------------------------
// Laws of decoding
// ---------------------------------------------------------------------------

/// A byte as a percent sign and two hexadecimal digits.
pub open spec fn escape_of(byte: u8) -> Seq<char> {
    seq!['%'] + crate::numbers::hex_digits(byte as nat, 2)
}

/// Bytes as escapes.
pub open spec fn escapes_of(bytes: Seq<u8>) -> Seq<char>
    decreases bytes.len(),
{
    if bytes.len() == 0 {
        Seq::empty()
    } else {
        escape_of(bytes[0]) + escapes_of(bytes.skip(1))
    }
}

/// Exactly the digits and the letters from a to f, small or capital, are
/// hexadecimal digits, each with its value.
pub proof fn law_hex_digit_values(byte: u8)
    ensures
        hex_digit_value(byte) is Some <==> '0' <= byte as char <= '9' || 'a' <= byte as char <= 'f'
            || 'A' <= byte as char <= 'F',
        '0' <= byte as char <= '9' ==> hex_digit_value(byte)->0 == byte as int - '0' as int,
        'a' <= byte as char <= 'f' ==> hex_digit_value(byte)->0 == byte as int - 'a' as int + 10,
        'A' <= byte as char <= 'F' ==> hex_digit_value(byte)->0 == byte as int - 'A' as int + 10,
{
}

/// A percent sign and two hexadecimal digits stand for one byte; any other
/// byte, and a percent sign that no two such digits follow, stands for itself.
pub proof fn law_escapes_are_decoded_one_by_one(first: u8, rest: Seq<u8>)
    ensures
        first != 0x25 ==> percent_decoded(seq![first] + rest) == seq![first] + percent_decoded(
            rest,
        ),
        rest.len() < 2 || hex_digit_value(rest[0]) is None || hex_digit_value(rest[1]) is None
            ==> percent_decoded(seq![first] + rest) == seq![first] + percent_decoded(rest),
        rest.len() >= 2 && hex_digit_value(rest[0]) is Some && hex_digit_value(rest[1]) is Some
            ==> percent_decoded(seq![0x25u8] + rest) == seq![
            (hex_digit_value(rest[0])->0 * 16 + hex_digit_value(rest[1])->0) as u8,
        ] + percent_decoded(rest.skip(2)),
        percent_decoded(Seq::empty()) == Seq::<u8>::empty(),
{
    let s = seq![first] + rest;
    assert(s.skip(1) == rest);
    if rest.len() >= 2 {
        assert(s[1] == rest[0] && s[2] == rest[1]);
        let t = seq![0x25u8] + rest;
        assert(t[1] == rest[0] && t[2] == rest[1]);
        assert(t.skip(3) == rest.skip(2));
    }
}

proof fn lemma_escapes_decode(bytes: Seq<u8>)
    ensures
        is_ascii_chars(escapes_of(bytes)),
        percent_decoded(encode_utf8(escapes_of(bytes))) == bytes,
    decreases bytes.len(),
{
    let s = escapes_of(bytes);
    if bytes.len() == 0 {
        is_ascii_chars_encode_utf8(s);
        assert(encode_utf8(s).len() == 0);
    } else {
        let byte = bytes[0];
        let rest = bytes.skip(1);
        lemma_escapes_decode(rest);
        let head = escape_of(byte);
        let tail = escapes_of(rest);
        crate::numbers::law_hex_digits_stand_for_the_number(byte as nat, 2, 0);
        crate::numbers::law_hex_digits_stand_for_the_number(byte as nat, 2, 1);
        assert(crate::numbers::power_of_16(0) == 1 && crate::numbers::power_of_16(1) == 16) by {
            reveal_with_fuel(crate::numbers::power_of_16, 2);
        }
        assert(byte as nat / 1 == byte as nat);
        let high = head[1];
        let low = head[2];
        assert(head == seq!['%', high, low]);
        assert forall|i: int| 0 <= i < s.len() implies (#[trigger] s[i] as u32) < 128 by {
            if i >= 3 {
                assert(s[i] == tail[i - 3]);
            }
        }
        assert(is_ascii_chars(s));
        is_ascii_chars_encode_utf8(s);
        is_ascii_chars_encode_utf8(tail);
        let coded = encode_utf8(s);
        assert(coded.skip(3) == encode_utf8(tail)) by {
            assert forall|i: int| 0 <= i < tail.len() implies #[trigger] coded.skip(3)[i]
                == encode_utf8(tail)[i] by {
                assert(s[i + 3] == tail[i]);
            }
        }
        assert(coded[0] == 0x25);
        assert(coded[1] == high as u8 && coded[2] == low as u8);
        assert(hex_digit_value(coded[1]) == Some(
            crate::numbers::small_hex_value(high) as u8,
        ));
        assert(hex_digit_value(coded[2]) == Some(crate::numbers::small_hex_value(low) as u8));
        assert(starts_with_escape(coded));
        assert(seq![byte] + rest == bytes);
    }
}

/// Decoding undoes encoding: a text of which every byte was escaped is decoded
/// to itself.
pub proof fn law_escaped_text_is_decoded(s: Seq<char>)
    ensures
        decoded_text(escapes_of(encode_utf8(s))) == s,
{
    lemma_escapes_decode(encode_utf8(s));
    encode_utf8_valid_utf8(s);
    encode_utf8_decode_utf8(s);
}

/// What follows the first question mark or hash is no part of a path.
pub proof fn law_query_is_cut_off(path: Seq<char>, mark: char, query: Seq<char>)
    requires
        forall|i: int| 0 <= i < path.len() ==> #[trigger] path[i] != '?' && path[i] != '#',
        mark == '?' || mark == '#',
    ensures
        before_query(path) == path,
        before_query(path.push(mark) + query) == path,
        request_path(path.push(mark) + query) == request_path(path),
{
    crate::text::lemma_prefix_len_unique(path, not_query(), path.len() as int);
    assert(path.take(path.len() as int) == path);
    let s = path.push(mark) + query;
    assert forall|i: int| 0 <= i < path.len() implies (not_query())(#[trigger] s[i]) by {
        assert(s[i] == path[i]);
    }
    assert(s[path.len() as int] == mark);
    crate::text::lemma_prefix_len_unique(s, not_query(), path.len() as int);
    assert(s.take(path.len() as int) == path);
}

/// The path that a request names is its decoded path; a slash is put in front
/// only where there is none.
pub proof fn law_request_path_is_the_decoded_path(path: Seq<char>)
    requires
        forall|i: int| 0 <= i < path.len() ==> #[trigger] path[i] != '?' && path[i] != '#',
    ensures
        ({
            let decoded = decoded_text(path);
            &&& decoded.len() == 0 ==> request_path(path) == seq!['/']
            &&& decoded.len() > 0 && decoded[0] == '/' ==> request_path(path) == decoded
            &&& decoded.len() > 0 && decoded[0] != '/' ==> request_path(path) == seq!['/']
                + decoded
        }),
{
    reveal_strlit("/");
    assert("/"@ == seq!['/']);
    law_query_is_cut_off(path, '?', Seq::empty());
}

/// What a peer or a `Destination` header names is the path of the request,
/// unless it is a URL; a URL without a path names the root.
pub proof fn law_destinations_name_paths(text: Seq<char>, host: Seq<char>)
    requires
        forall|i: int| 0 <= i < host.len() ==> #[trigger] host[i] != '/',
    ensures
        !(exists|rest: Seq<char>| text == "http://"@ + rest) && !(exists|rest: Seq<char>|
            text == "https://"@ + rest) ==> wire_path(text) == request_path(text),
        text.len() == 0 || text[0] != 'h' ==> wire_path(text) == request_path(text),
        wire_path("http://"@ + host) == seq!['/'],
        wire_path("https://"@ + host) == seq!['/'],
{
    reveal_strlit("http://");
    reveal_strlit("https://");
    reveal_strlit("/");
    assert("/"@ == seq!['/']);
    crate::text::law_prefix_and_rest_make_the_text(text, "http://"@);
    crate::text::law_prefix_and_rest_make_the_text(text, "https://"@);
    if text.len() > 0 && text[0] != 'h' {
        assert(text.len() >= 7 ==> text.take(7)[0] == text[0]);
        assert(text.len() >= 8 ==> text.take(8)[0] == text[0]);
        assert("http://"@[0] == 'h' && "https://"@[0] == 'h');
    }
    crate::text::lemma_prefix_len_unique(
        host,
        crate::text::other_than('/'),
        host.len() as int,
    );
    let plain = "http://"@ + host;
    let secure = "https://"@ + host;
    assert(plain.take(7) == "http://"@ && plain.skip(7) == host);
    assert(secure.take(7)[4] == 's' && "http://"@[4] == ':');
    assert(secure.take(8) == "https://"@ && secure.skip(8) == host);
    assert forall|i: int| 0 <= i < "/"@.len() implies #[trigger] "/"@[i] != '%' && "/"@[i] != '?'
        && "/"@[i] != '#' by {}
    law_plain_path_is_kept("/"@);
}

/// The file that a path names is found below the data directory: the decoded
/// path without the slashes in front, and nothing else changed.
pub proof fn law_file_path_drops_leading_slashes(path: Seq<char>)
    ensures
        ({
            let decoded = decoded_text(path);
            let relative = fs_path(path);
            let cut = decoded.len() - relative.len();
            &&& cut >= 0
            &&& relative == decoded.skip(cut)
            &&& forall|i: int| 0 <= i < cut ==> #[trigger] decoded[i] == '/'
            &&& relative.len() > 0 ==> relative[0] != '/'
        }),
{
    crate::text::law_trimming_takes_all_and_nothing_else(decoded_text(path), '/');
}

/// An absolute path without escapes names the file at the same path below the
/// data directory, whichever way it came.
pub proof fn law_plain_path_names_its_file(relative: Seq<char>)
    requires
        relative.len() > 0,
        relative[0] != '/',
        forall|i: int|
            0 <= i < relative.len() ==> #[trigger] relative[i] != '%' && relative[i] != '?'
                && relative[i] != '#',
    ensures
        fs_path(seq!['/'] + relative) == relative,
        fs_path(wire_path(seq!['/'] + relative)) == relative,
        crate::text::trim_start(seq!['/'] + relative, '/') == relative,
{
    let path = seq!['/'] + relative;
    assert forall|i: int| 0 <= i < path.len() implies #[trigger] path[i] != '%' && path[i] != '?'
        && path[i] != '#' by {
        if i > 0 {
            assert(path[i] == relative[i - 1]);
        }
    }
    law_plain_path_is_kept(path);
    law_plain_text_decodes_to_itself(path);
    assert(path[1] == relative[0]);
    crate::text::lemma_prefix_len_unique(path, crate::text::equal_to('/'), 1);
    assert(path.skip(1) == relative);
}

// ---------------------------------------------------------------------------
// Laws of folders
// ---------------------------------------------------------------------------

/// `stored` is `path` without the slashes at its end; a path of slashes alone
/// is stored as one.
pub open spec fn is_stored_form(path: Seq<char>, stored: Seq<char>) -> bool {
    if forall|i: int| 0 <= i < path.len() ==> #[trigger] path[i] == '/' {
        stored == seq!['/']
    } else {
        &&& 0 < stored.len() <= path.len()
        &&& stored == path.take(stored.len() as int)
        &&& stored.last() != '/'
        &&& forall|i: int| stored.len() <= i < path.len() ==> #[trigger] path[i] == '/'
    }
}

/// A path is stored without the slashes at its end, and only one text is that.
pub proof fn law_stored_form(path: Seq<char>, stored: Seq<char>)
    ensures
        is_stored_form(path, stored_path(path)),
        is_stored_form(path, stored) ==> stored == stored_path(path),
{
    reveal_strlit("/");
    assert("/"@ == seq!['/']);
    crate::text::law_trimming_takes_all_and_nothing_else(path, '/');
    let trimmed = crate::text::trim_end(path, '/');
    if trimmed.len() > 0 {
        assert(path[trimmed.len() - 1] == trimmed.last());
    }
    if is_stored_form(path, stored) && trimmed.len() > 0 {
        assert(path[stored.len() - 1] == stored.last());
        assert(stored.len() == trimmed.len());
    }
}

/// `folder` is what stands before the last slash of `path`, or the root where
/// nothing does.
pub open spec fn is_parent(folder: Seq<char>, path: Seq<char>) -> bool {
    if exists|k: int| 0 < k < path.len() && #[trigger] path[k] == '/' {
        &&& 0 < folder.len() < path.len()
        &&& folder == path.take(folder.len() as int)
        &&& path[folder.len() as int] == '/'
        &&& forall|i: int| folder.len() < i < path.len() ==> #[trigger] path[i] != '/'
    } else {
        folder == seq!['/']
    }
}

/// The parent of a path is what stands before its last slash, and only one
/// text is that.
pub proof fn law_parent_stands_before_the_last_slash(path: Seq<char>, folder: Seq<char>)
    ensures
        is_parent(parent_of(path), path),
        is_parent(folder, path) ==> folder == parent_of(path),
{
    reveal_strlit("/");
    assert("/"@ == seq!['/']);
    crate::text::law_part_before_the_last(path, '/');
    match crate::text::before_last(path, '/') {
        Some(left) => {
            let n = left.len() as int;
            assert(path[n] == '/');
            assert(left == path.take(n));
            assert forall|i: int| n < i < path.len() implies #[trigger] path[i] != '/' by {
                assert(path.skip(n + 1)[i - n - 1] == path[i]);
            }
            if is_parent(folder, path) && n > 0 {
                assert(folder.len() == n);
            }
        },
        None => {
            assert forall|i: int| 0 <= i < path.len() implies #[trigger] path[i] != '/' by {
                assert(path.contains(path[i]));
            }
        },
    }
}

/// The folder of a resource is the parent of its stored path.
pub proof fn law_folder_is_the_parent_of_the_stored_path(path: Seq<char>, stored: Seq<char>)
    requires
        is_stored_form(path, stored),
    ensures
        is_parent(folder_of(path), stored),
        is_parent(folder_of(stored), stored),
{
    law_stored_form(path, stored);
    law_stored_path_is_normal(path);
    law_parent_stands_before_the_last_slash(stored, stored);
}

/// The path of a URL is what follows its host, or the root; any other text is
/// a path already.
pub proof fn law_url_path_follows_the_host(host: Seq<char>, path: Seq<char>)
    requires
        forall|i: int| 0 <= i < host.len() ==> #[trigger] host[i] != '/',
    ensures
        path.len() > 0 && path[0] == '/' ==> url_path("http://"@ + host + path) == path
            && url_path("https://"@ + host + path) == path,
        url_path("http://"@ + host) == seq!['/'],
        url_path("https://"@ + host) == seq!['/'],
        !(exists|rest: Seq<char>| path == "http://"@ + rest) && !(exists|rest: Seq<char>|
            path == "https://"@ + rest) ==> url_path(path) == path,
{
    reveal_strlit("http://");
    reveal_strlit("https://");
    reveal_strlit("/");
    assert("/"@ =~= seq!['/']);
    crate::text::law_prefix_and_rest_make_the_text(path, "http://"@);
    crate::text::law_prefix_and_rest_make_the_text(path, "https://"@);
    let rest = host + path;
    if path.len() > 0 && path[0] == '/' {
        assert(rest[host.len() as int] == '/');
        crate::text::lemma_prefix_len_unique(
            rest,
            crate::text::other_than('/'),
            host.len() as int,
        );
        assert(rest.skip(host.len() as int) == path);
        let plain = "http://"@ + host + path;
        let secure = "https://"@ + host + path;
        assert(plain.take(7) == "http://"@ && plain.skip(7) == rest);
        assert(secure.take(7)[4] == 's' && "http://"@[4] == ':');
        assert(secure.take(8) == "https://"@ && secure.skip(8) == rest);
    }
    crate::text::lemma_prefix_len_unique(
        host,
        crate::text::other_than('/'),
        host.len() as int,
    );
    let plain = "http://"@ + host;
    let secure = "https://"@ + host;
    assert(plain.take(7) == "http://"@ && plain.skip(7) == host);
    assert(secure.take(7)[4] == 's' && "http://"@[4] == ':');
    assert(secure.take(8) == "https://"@ && secure.skip(8) == host);
}

} // verus!
