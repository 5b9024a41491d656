use ifuse_rs::afc::{
    dictionary, nul, parse, read_device_info, read_file_info, strings, take, timestamp,
    RemoteFileType,
};
use ifuse_rs::error::Error;

fn complaint(error: Error) -> String {
    match error {
        Error::InvalidAfcResponse(words) => words,
        other => panic!("unexpected error {:?}", other),
    }
}

fn written(list: &[&str]) -> Vec<u8> {
    let mut bytes = Vec::new();
    for item in list {
        bytes.extend(nul(item.to_string()));
    }
    bytes
}

#[test]
fn parses_afc_dictionary() {
    let values = dictionary(b"st_size\x0012\x00st_ifmt\x00S_IFREG\x00").unwrap();
    assert_eq!(values.get("st_size").unwrap(), "12");
    assert_eq!(values.get("st_ifmt").unwrap(), "S_IFREG");
}

#[test]
fn rejects_malformed_afc_dictionary() {
    assert!(dictionary(b"st_size\x0012\x00dangling\x00").is_err());
}

#[test]
fn malformed_dictionary_is_named() {
    let error = match dictionary(b"dangling\x00") {
        Ok(_) => panic!("accepted"),
        Err(error) => error,
    };
    assert_eq!(complaint(error), "malformed key/value data");
}

#[test]
fn later_value_of_a_key_counts() {
    let values = dictionary(b"key\x00first\x00key\x00second\x00").unwrap();
    assert_eq!(values.get("key").unwrap(), "second");
    assert_eq!(values.len(), 1);
}

#[test]
fn lists_are_read_back() {
    let names = ["a", "Übung", "日本", "b c"];
    assert_eq!(strings(&written(&names)), names);
}

#[test]
fn empty_entries_do_not_count() {
    assert_eq!(strings(b"\x00a\x00\x00b"), ["a", "b"]);
    assert!(strings(b"").is_empty());
    assert!(strings(b"\x00\x00").is_empty());
}

#[test]
fn more_zero_bytes_do_not_matter() {
    let names = ["a", "日本", "b c"];
    let bytes = written(&names);
    assert_eq!(strings(&bytes), names);
    assert_eq!(strings(&bytes[..bytes.len() - 1]), names);
    for count in 1..4 {
        let zeros = vec![0; count];
        let padded: Vec<u8> = [
            zeros.as_slice(),
            names[0].as_bytes(),
            zeros.as_slice(),
            names[1].as_bytes(),
            &[0],
            names[2].as_bytes(),
            zeros.as_slice(),
        ]
        .concat();
        assert_eq!(strings(&padded), names);
    }
}

#[test]
fn no_text_is_empty_or_holds_a_zero() {
    for bytes in [
        b"\x00\xff\x00\xf0\x9f\x00\xc0\x80\x00".as_slice(),
        b"\xe2\x82\x00\x80\x80\x00a\xed\xa0\x80".as_slice(),
        b"\x01\x00\x7f".as_slice(),
    ] {
        let found = strings(bytes);
        assert!(!found.is_empty());
        for text in found {
            assert!(!text.is_empty());
            assert!(!text.contains('\0'));
        }
    }
}

#[test]
fn what_is_no_utf8_is_replaced() {
    assert_eq!(strings(b"a\xffb\x00"), ["a\u{fffd}b"]);
}

#[test]
fn texts_end_with_zero() {
    assert_eq!(nul("/é".to_string()), [0x2f, 0xc3, 0xa9, 0]);
    assert_eq!(nul(String::new()), [0]);
}

#[test]
fn values_are_taken_out() {
    let mut values = dictionary(b"a\x001\x00b\x00x\x00").unwrap();
    assert_eq!(take(&mut values, "a").unwrap(), "1");
    assert_eq!(complaint(take(&mut values, "a").unwrap_err()), "missing a");
    assert_eq!(values.len(), 1);
}

#[test]
fn numbers_are_read() {
    let mut values = dictionary(b"a\x00+7\x00b\x00x\x00c\x00256\x00d\x00255\x00").unwrap();
    assert_eq!(parse(&mut values, "a", u64::MAX).unwrap(), 7);
    assert_eq!(complaint(parse(&mut values, "b", 255).unwrap_err()), "invalid b");
    assert_eq!(complaint(parse(&mut values, "c", 255).unwrap_err()), "invalid c");
    assert_eq!(parse(&mut values, "d", 255).unwrap(), 255);
    assert_eq!(complaint(parse(&mut values, "e", 255).unwrap_err()), "missing e");
    assert_eq!(values.len(), 0);
}

#[test]
fn times_default_to_the_epoch() {
    assert_eq!(timestamp(Some("1500000000123456789".to_string())), 1_500_000_000_123_456_789);
    assert_eq!(timestamp(Some("later".to_string())), 0);
    assert_eq!(timestamp(Some("18446744073709551616".to_string())), 0);
    assert_eq!(timestamp(None), 0);
}

#[test]
fn file_info_is_read() {
    let payload = written(&[
        "st_size", "10", "st_blocks", "8", "st_nlink", "2", "st_ifmt", "S_IFLNK", "st_mtime", "5",
        "st_birthtime", "4", "LinkTarget", "there",
    ]);
    let info = read_file_info(&payload).unwrap();
    assert_eq!(info.size, 10);
    assert_eq!(info.blocks, 8);
    assert_eq!(info.nlink, 2);
    assert_eq!(info.kind, RemoteFileType::Symlink);
    assert_eq!(info.modified, 5);
    assert_eq!(info.created, 4);
    assert_eq!(info.link_target.as_deref(), Some("there"));
}

#[test]
fn second_name_of_a_link_target_is_read() {
    let payload = written(&[
        "st_size", "0", "st_blocks", "0", "st_nlink", "1", "st_ifmt", "S_IFLNK",
        "st_link_target", "old",
    ]);
    let info = read_file_info(&payload).unwrap();
    assert_eq!(info.link_target.as_deref(), Some("old"));
    assert_eq!(info.created, 0);
}

#[test]
fn kinds_are_told_apart() {
    let kinds = [
        ("S_IFREG", RemoteFileType::RegularFile),
        ("S_IFDIR", RemoteFileType::Directory),
        ("S_IFLNK", RemoteFileType::Symlink),
        ("S_IFBLK", RemoteFileType::BlockDevice),
        ("S_IFCHR", RemoteFileType::CharDevice),
        ("S_IFIFO", RemoteFileType::NamedPipe),
        ("S_IFSOCK", RemoteFileType::Socket),
    ];
    for (word, kind) in kinds {
        let payload =
            written(&["st_ifmt", word, "st_size", "0", "st_blocks", "0", "st_nlink", "1"]);
        assert_eq!(read_file_info(&payload).unwrap().kind, kind);
    }
}

#[test]
fn incomplete_file_info_is_refused() {
    let cases: [(&[&str], &str); 6] = [
        (&[], "missing st_ifmt"),
        (&["st_ifmt", "S_IFXXX"], "unknown file type S_IFXXX"),
        (&["st_ifmt", "S_IFREG"], "missing st_size"),
        (&["st_ifmt", "S_IFREG", "st_size", "1", "st_blocks", "-1"], "invalid st_blocks"),
        (
            &["st_ifmt", "S_IFREG", "st_size", "1", "st_blocks", "1", "st_nlink", "4294967296"],
            "invalid st_nlink",
        ),
        (&["st_ifmt"], "malformed key/value data"),
    ];
    for (list, words) in cases {
        assert_eq!(complaint(read_file_info(&written(list)).unwrap_err()), words);
    }
}

#[test]
fn device_info_is_read() {
    let payload = written(&[
        "Model", "iPhone9,3", "FSTotalBytes", "1000", "FSFreeBytes", "400", "FSBlockSize", "4096",
    ]);
    let info = read_device_info(&payload).unwrap();
    assert_eq!(info.total_bytes, 1000);
    assert_eq!(info.free_bytes, 400);
    assert_eq!(info.block_size, 4096);
    assert_eq!(info.model, "iPhone9,3");
    let nameless = written(&["FSTotalBytes", "1", "FSFreeBytes", "1", "FSBlockSize", "1"]);
    assert_eq!(read_device_info(&nameless).unwrap().model, "");
    let unfinished = written(&["FSTotalBytes", "1"]);
    assert_eq!(complaint(read_device_info(&unfinished).unwrap_err()), "missing FSFreeBytes");
}
