use nacs_backend::checksum::{crc32_hex, sha256_hex};
use nacs_backend::numbers::{decimal_text, hex_bytes_text, hex_text, parse_unsigned};
use nacs_backend::paths::{
    destination_path, fs_path_from_wire_path, hex_value, normalize_destination,
    normalize_request_path, normalize_wire_path, parent_path, percent_decode, percent_decode_lossy,
};
use nacs_backend::sorting::sort_order;
use nacs_backend::text::{
    contains_text, eq_ignore_ascii_case, is_white_space, split_at_first, split_words, starts_with,
    text_eq, text_less, trim_end_char, trim_start_char,
};

fn strings(items: &[&str]) -> Vec<String> {
    items.iter().map(|s| s.to_string()).collect()
}

#[test]
fn escapes_are_decoded() {
    assert_eq!(percent_decode_lossy("/a%20b%2fc%2Fd"), "/a b/c/d");
    assert_eq!(percent_decode_lossy("100%"), "100%");
    assert_eq!(percent_decode_lossy("%4"), "%4");
    assert_eq!(percent_decode_lossy("%zz%41"), "%zzA");
    assert_eq!(percent_decode_lossy("%C3%A9"), "\u{e9}");
    assert_eq!(percent_decode_lossy("%ff"), "\u{fffd}");
    assert_eq!(percent_decode(b"%00%FF"), vec![0, 255]);
}

#[test]
fn an_escape_at_the_very_end_is_decoded() {
    assert_eq!(percent_decode_lossy("a%41"), "aA");
}

#[test]
fn hexadecimal_digits_have_values() {
    assert_eq!(hex_value(b'0'), Some(0));
    assert_eq!(hex_value(b'9'), Some(9));
    assert_eq!(hex_value(b'a'), Some(10));
    assert_eq!(hex_value(b'F'), Some(15));
    assert_eq!(hex_value(b'g'), None);
    assert_eq!(hex_value(b'/'), None);
}

#[test]
fn request_paths_are_normalised() {
    assert_eq!(normalize_request_path("/a/b?x=1#y"), "/a/b");
    assert_eq!(normalize_request_path(""), "/");
    assert_eq!(normalize_request_path("?q"), "/");
    assert_eq!(normalize_request_path("a"), "/a");
    assert_eq!(normalize_request_path("/a%3Fb"), "/a?b");
}

#[test]
fn destinations_may_be_urls() {
    assert_eq!(destination_path("http://host:1/a"), "/a");
    assert_eq!(destination_path("https://host/a/b"), "/a/b");
    assert_eq!(destination_path("http://host"), "/");
    assert_eq!(destination_path("/plain"), "/plain");
    assert_eq!(destination_path("ftp://host/a"), "ftp://host/a");
    assert_eq!(normalize_destination("https://host/x%20y?z"), "/x y");
    assert_eq!(normalize_wire_path("http://host"), "/");
    assert_eq!(normalize_wire_path("docs/a"), "/docs/a");
}

#[test]
fn wire_paths_name_files_below_the_data_directory() {
    assert_eq!(fs_path_from_wire_path("/a/b"), "a/b");
    assert_eq!(fs_path_from_wire_path("//a%20b"), "a b");
    assert_eq!(fs_path_from_wire_path("/"), "");
}

#[test]
fn parents_of_paths() {
    assert_eq!(parent_path("/a/b/c"), "/a/b");
    assert_eq!(parent_path("/file.txt"), "/");
    assert_eq!(parent_path("/"), "/");
    assert_eq!(parent_path("file"), "/");
    assert_eq!(parent_path("/a/"), "/a");
}

#[test]
fn numbers_are_written_and_read() {
    assert_eq!(hex_text(0), "00000000");
    assert_eq!(hex_text(0xdead_beef), "deadbeef");
    assert_eq!(hex_bytes_text(&[0, 255, 16]), "00ff10");
    assert_eq!(decimal_text(0), "0");
    assert_eq!(decimal_text(u64::MAX), "18446744073709551615");
    assert_eq!(parse_unsigned("42", 100), Some(42));
    assert_eq!(parse_unsigned("101", 100), None);
    assert_eq!(parse_unsigned("100", 100), Some(100));
    assert_eq!(parse_unsigned("4 2", 100), None);
    assert_eq!(
        parse_unsigned("340282366920938463463374607431768211455", u128::MAX),
        Some(u128::MAX)
    );
    assert_eq!(parse_unsigned("340282366920938463463374607431768211456", u128::MAX), None);
}

#[test]
fn checksums_of_known_contents() {
    assert_eq!(crc32_hex(b"123456789"), "cbf43926");
    assert_eq!(crc32_hex(b""), "00000000");
    for len in [1, 3, 4, 8, 15, 16, 17, 63, 64, 65, 127, 128, 200, 1000, 4099] {
        let data: Vec<u8> = (0..len).map(|i: usize| (i * 151 + i / 7 + len) as u8).collect();
        let mut register: u32 = 0xffff_ffff;
        for byte in &data {
            register ^= *byte as u32;
            for _ in 0..8 {
                let carry: bool = register & 1 == 1;
                register >>= 1;
                if carry {
                    register ^= 0xedb8_8320;
                }
            }
        }
        assert_eq!(crc32_hex(&data), format!("{:08x}", !register));
    }
    assert_eq!(
        sha256_hex(b"abc"),
        "ba7816bf8f01cfea414140de5dae2223b00361a396177a9cb410ff61f20015ad"
    );
}

#[test]
fn words_are_split_at_white_space() {
    assert_eq!(split_words("  a\tbc\n d "), strings(&["a", "bc", "d"]));
    assert_eq!(split_words("\u{3000}x\u{2009}y"), strings(&["x", "y"]));
    assert_eq!(split_words(" "), strings(&[]));
    for code in 0..0x11_0000u32 {
        if let Some(c) = char::from_u32(code) {
            assert_eq!(is_white_space(c), c.is_whitespace(), "{code:x}");
        }
    }
}

#[test]
fn texts_are_searched_and_trimmed() {
    assert!(starts_with("abc", "ab"));
    assert!(starts_with("abc", ""));
    assert!(!starts_with("ab", "abc"));
    assert!(contains_text("x.p2p-tmp.y", ".p2p-tmp"));
    assert!(contains_text("abc", "c"));
    assert!(contains_text("", ""));
    assert!(!contains_text("x.p2p", ".p2p-tmp"));
    assert_eq!(trim_start_char("//a/", '/'), "a/");
    assert_eq!(trim_end_char("/a//", '/'), "/a");
    assert_eq!(split_at_first("a:b:c", ':'), Some(("a".to_string(), "b:c".to_string())));
    assert_eq!(split_at_first("abc", ':'), None);
}

#[test]
fn texts_are_ordered_by_their_bytes() {
    let samples = ["", "a", "ab", "b", "B", "\u{e9}", "\u{10000}", "\u{ffff}", "2024-01-02", "2024-01-01"];
    for x in samples {
        for y in samples {
            assert_eq!(text_less(x, y), x < y);
            assert_eq!(text_eq(x, y), x == y);
        }
    }
    assert!(eq_ignore_ascii_case("BaSiC", "basic"));
    assert!(!eq_ignore_ascii_case("basic", "basi"));
    assert!(!eq_ignore_ascii_case("\u{c9}", "\u{e9}"));
}

#[test]
fn sorting_is_stable() {
    assert_eq!(sort_order(&strings(&["b", "a", "c", "a", "b"])), vec![1, 3, 0, 4, 2]);
    assert_eq!(sort_order(&strings(&[])), Vec::<usize>::new());
    assert_eq!(sort_order(&strings(&["x"])), vec![0]);
    let keys: Vec<String> = (0..500).map(|i| ((i * 7919) % 101).to_string()).collect();
    let mut expected: Vec<usize> = (0..500).collect();
    expected.sort_by(|a, b| keys[*a].cmp(&keys[*b]));
    assert_eq!(sort_order(&keys), expected);
}
