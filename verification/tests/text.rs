use ifuse_rs::error::AfcError;
use ifuse_rs::le::{eight_bytes, get, put};
use ifuse_rs::options::AppInfo;
use ifuse_rs::sorting::{place, position};
use ifuse_rs::text::{
    blank, chars, number, ordered, parse_unsigned, replace, rfind, same, split, starts_with, text,
    trim,
};
use ifuse_rs::transport::AfcTransport;
use ifuse_rs::utf16::{decode, encode};

fn pieces(s: &str, separator: char) -> Vec<String> {
    split(&chars(s), separator).iter().map(|piece| text(piece)).collect()
}

#[test]
fn splitting_loses_nothing() {
    for s in ["", ",", "a", "a,b", ",a,,b,"] {
        let parts = pieces(s, ',');
        assert_eq!(parts.join(","), s);
        assert!(parts.iter().all(|part| !part.contains(',')));
    }
    let mut parts = pieces("a,b", ',');
    parts.extend(pieces("c,", ','));
    assert_eq!(pieces("a,b,c,", ','), parts);
}

#[test]
fn order_is_that_of_strings() {
    let texts = ["", "a", "aa", "ab", "b", "Z", "ä", "𝄞", "\u{ffff}"];
    for a in texts {
        for b in texts {
            assert_eq!(ordered(a, b), a <= b);
            assert_eq!(same(a, b), a == b);
        }
    }
}

#[test]
fn numbers_are_written_and_read_back() {
    for n in [0, 7, 10, 99, 100, u64::MAX] {
        assert_eq!(number(n), n.to_string());
        assert_eq!(parse_unsigned(&chars(&number(n)), u64::MAX), Some(n));
    }
    for s in ["", "+", "-1", "1 ", "0x1", "++1", "18446744073709551616"] {
        assert_eq!(parse_unsigned(&chars(s), u64::MAX), None, "{}", s);
        assert!(s.parse::<u64>().is_err());
    }
    assert_eq!(parse_unsigned(&chars("+007"), 7), Some(7));
    assert_eq!(parse_unsigned(&chars("8"), 7), None);
}

#[test]
fn white_space_is_that_of_strings() {
    for n in 0..0x3100 {
        if let Some(c) = char::from_u32(n) {
            let s = c.to_string();
            assert_eq!(blank(&s), c.is_whitespace());
            assert_eq!(text(trim(&chars(&s))), s.trim());
        }
    }
    assert!(blank(""));
    assert_eq!(text(trim(&chars(" \u{2003}a b\n"))), "a b");
    for s in ["", " \t", "a", " a ", "\u{a0}"] {
        assert_eq!(blank(s), trim(&chars(s)).is_empty());
        let padded = format!("\n{}\u{3000} ", s);
        assert_eq!(text(trim(&chars(&padded))), text(trim(&chars(s))));
    }
}

#[test]
fn small_pieces_of_text() {
    assert_eq!(replace("a/b/", '/', "\\"), "a\\b\\");
    assert_eq!(rfind(&chars("a%b%c"), '%'), Some(3));
    assert_eq!(rfind(&chars("abc"), '%'), None);
    assert!(starts_with(&chars("fsname=x"), &chars("fsname=")));
    assert!(!starts_with(&chars("fs"), &chars("fsname=")));
}

#[test]
fn numbers_survive_as_bytes() {
    for n in [0, 1, 255, 256, 0x0102_0304_0506_0708, u64::MAX] {
        assert_eq!(eight_bytes(n), n.to_le_bytes());
        assert_eq!(get(&eight_bytes(n), 0, 8), n);
    }
    let mut bytes = vec![9];
    put(&mut bytes, 0x1_0203, 2);
    assert_eq!(bytes, [9, 3, 2]);
    assert_eq!(get(&bytes, 1, 2), 0x203);
}

#[test]
fn texts_survive_as_wide_characters() {
    for s in ["", "abc", "ä€𝄞\u{10ffff}"] {
        let units = encode(&chars(s));
        assert_eq!(units, s.encode_utf16().collect::<Vec<u16>>());
        assert_eq!(text(&decode(&units)), s);
    }
    let broken = [0xd800, 0xd800, 0xdc00, 0x41, 0xdc00, 0xdbff];
    assert_eq!(text(&decode(&broken)), String::from_utf16_lossy(&broken));
}

#[test]
fn lists_stay_in_order() {
    let app = |id: &str, version: &str| AppInfo {
        bundle_id: id.to_string(),
        version: version.to_string(),
        display_name: String::new(),
    };
    let mut list = Vec::new();
    for (id, version) in [("b", "1"), ("a", "2"), ("c", "3"), ("b", "4")] {
        place(&mut list, app(id, version));
    }
    assert_eq!(list, [app("a", "2"), app("b", "1"), app("b", "4"), app("c", "3")]);
    assert_eq!(position(&list, ""), 0);
    assert_eq!(position(&list, "b"), 3);
    assert_eq!(position(&list, "z"), 4);
}

#[test]
fn statuses_have_numbers_of_their_own() {
    for code in (0..=23).chain(30..=36) {
        assert_eq!(AfcError::from_code(code).number(), code);
    }
}

#[test]
fn paths_of_a_mount_stay_apart() {
    for root in ["/", "/Documents"] {
        let transport = AfcTransport::new(root);
        let paths = ["/", "/a", "/a/b", "/Documents", "/Documents/a"];
        for a in paths {
            for b in paths {
                assert_eq!(transport.path(a) == transport.path(b), a == b);
            }
        }
    }
}
