use ifuse_rs::address::{parse_network_address, IpAddress};
use ifuse_rs::error::Error;
use ifuse_rs::options::{
    DeviceTarget, IfuseBuilder, MountOption, MountSource, Platform, SessionAcl,
};
use std::path::PathBuf;

fn v6(head: &[u16], tail: &[u16]) -> IpAddress {
    let mut groups = [0; 8];
    groups[..head.len()].copy_from_slice(head);
    groups[8 - tail.len()..].copy_from_slice(tail);
    IpAddress::V6(groups)
}

fn refused(input: &str) -> String {
    match parse_network_address(input) {
        Err(Error::InvalidNetworkAddress(words)) => words,
        other => panic!("unexpected {:?}", other),
    }
}

#[test]
fn parses_ipv4_and_scoped_ipv6() {
    assert_eq!(
        parse_network_address("192.0.2.1").unwrap(),
        (IpAddress::V4([192, 0, 2, 1]), None)
    );
    assert_eq!(
        parse_network_address("fe80::1%3").unwrap(),
        (v6(&[0xfe80], &[1]), Some(3))
    );
    assert!(parse_network_address("fe80::1%ethernet").is_err());
}

#[test]
fn addresses_with_groups_are_read() {
    let cases = [
        ("::", v6(&[], &[])),
        ("::1", v6(&[], &[1])),
        ("1::", v6(&[1], &[])),
        ("1:2:3:4:5:6:7:8", v6(&[1, 2, 3, 4, 5, 6, 7, 8], &[])),
        ("1:2:3:4:5:6:7::", v6(&[1, 2, 3, 4, 5, 6, 7], &[])),
        ("::2:3:4:5:6:7:8", v6(&[], &[2, 3, 4, 5, 6, 7, 8])),
        ("ABCD:ef::0012", v6(&[0xabcd, 0xef], &[0x12])),
        ("::ffff:192.0.2.1", v6(&[], &[0xffff, 0xc000, 0x0201])),
        ("1:2:3:4:5:6:1.2.3.4", v6(&[1, 2, 3, 4, 5, 6, 0x102, 0x304], &[])),
        ("1:2:3:4:5::1.2.3.4", v6(&[1, 2, 3, 4, 5], &[0x102, 0x304])),
        ("  [fe80::1]  ", v6(&[0xfe80], &[1])),
    ];
    for (input, address) in cases {
        assert_eq!(parse_network_address(input).unwrap(), (address, None), "{}", input);
    }
}

#[test]
fn printed_addresses_are_read_back() {
    let cases = [
        ("0.0.0.0", IpAddress::V4([0, 0, 0, 0])),
        ("10.0.255.9", IpAddress::V4([10, 0, 255, 9])),
        ("::", v6(&[], &[])),
        ("::1", v6(&[], &[1])),
        ("2001:db8::", v6(&[0x2001, 0xdb8], &[])),
        ("fe80::aede:48ff:fe00:1122", v6(&[0xfe80], &[0xaede, 0x48ff, 0xfe00, 0x1122])),
        ("1:0:2:3:4:5:6:7", v6(&[1, 0, 2, 3, 4, 5, 6, 7], &[])),
        ("1::2:0:0:3:4", v6(&[1], &[2, 0, 0, 3, 4])),
        ("1:0:0:2::3", v6(&[1, 0, 0, 2], &[3])),
        ("1::2:3:0:0:4", v6(&[1, 0, 0, 2, 3, 0, 0, 4], &[])),
        ("::ffff:10.0.255.9", v6(&[], &[0xffff, 0x0a00, 0xff09])),
        ("::fffe:a00:ff09", v6(&[], &[0xfffe, 0x0a00, 0xff09])),
        ("ffff:ffff:ffff:ffff:ffff:ffff:ffff:ffff", v6(&[0xffff; 8], &[])),
    ];
    for (printed, address) in cases {
        for text in [
            printed.to_string(),
            format!("[{}]", printed),
            format!(" \t{}\n", printed),
            format!("\u{2003}[{}]  ", printed),
        ] {
            assert_eq!(parse_network_address(&text).unwrap(), (address, None), "{}", text);
        }
        if let IpAddress::V6(_) = address {
            for scope in [0, 3, 4294967295] {
                for text in [
                    format!("{}%{}", printed, scope),
                    format!("[{}%{}]", printed, scope),
                    format!("  [{}%{}] ", printed, scope),
                ] {
                    assert_eq!(
                        parse_network_address(&text).unwrap(),
                        (address, Some(scope)),
                        "{}",
                        text
                    );
                }
            }
        }
    }
}

#[test]
fn white_space_around_an_address_does_not_matter() {
    for input in ["192.0.2.1", "fe80::1%3", "[::1]", "host", "fe80::1%x", ""] {
        let bare = format!("{:?}", parse_network_address(input));
        for (before, after) in [(" ", ""), ("", "\n"), ("\t \u{a0}", "\r\n ")] {
            let padded = format!("{}{}{}", before, input, after);
            assert_eq!(format!("{:?}", parse_network_address(&padded)), bare);
        }
    }
}

#[test]
fn what_is_no_address_is_refused() {
    let cases = [
        "1.2.3", "1.2.3.4.5", "256.1.1.1", "01.2.3.4", "1.2.3.", "+1.2.3.4", "1.2.3.4 5", ":", ":::",
        "1:", ":1", "1:2:3:4:5:6:7", "1:2:3:4:5:6:7:8:9", "1:2:3:4:5:6:7:8::", "1::2::3",
        "12345::", "g::", "::1.2.3", "1.2.3.4::", "1:2:3:4:5:6:7:1.2.3.4", "1:2:3:4:5:6::1.2.3.4",
        "::1.2.3.4:5", "host", "1.2.3.4%1",
    ];
    for input in cases {
        assert_eq!(refused(input), input);
    }
    assert_eq!(refused("[]"), "");
    assert_eq!(refused("[x]"), "x");
    assert_eq!(refused("["), "[");
    assert_eq!(refused(" \t\u{a0}"), "network address cannot be empty");
    assert_eq!(refused("fe80::1%"), "IPv6 scope must be a numeric interface ID");
    assert_eq!(refused("fe80::1%4294967296"), "IPv6 scope must be a numeric interface ID");
    assert_eq!(refused("fe80::x%1"), "fe80::x%1");
}

#[test]
fn parses_comma_separated_mount_options() {
    let builder = IfuseBuilder::first_usb()
        .mount_point("/tmp")
        .mount_options(vec!["ro,noexec,allow_other".into()]);
    let parsed = builder.fuser_config().unwrap();
    assert_eq!(parsed.acl, SessionAcl::All);
    assert!(parsed.mount_options.contains(&MountOption::Ro));
}

#[test]
fn every_mount_option_is_known() {
    let options = "auto_unmount,default_permissions,dev,nodev,suid,nosuid,ro,rw,exec,noexec,\
                   atime,noatime,dirsync,sync,async,fsname=phone,subtype=afc,max_read=1";
    let builder = IfuseBuilder::first_usb().mount_options(vec![options.to_string()]);
    let parsed = builder.fuser_config().unwrap();
    assert_eq!(parsed.acl, SessionAcl::Owner);
    assert_eq!(
        parsed.mount_options,
        [
            MountOption::FsName("ifuse-rs".to_string()),
            MountOption::Subtype("ifuse-rs".to_string()),
            MountOption::AutoUnmount,
            MountOption::DefaultPermissions,
            MountOption::Dev,
            MountOption::NoDev,
            MountOption::Suid,
            MountOption::NoSuid,
            MountOption::Ro,
            MountOption::Rw,
            MountOption::Exec,
            MountOption::NoExec,
            MountOption::Atime,
            MountOption::NoAtime,
            MountOption::DirSync,
            MountOption::Sync,
            MountOption::Async,
            MountOption::FsName("phone".to_string()),
            MountOption::Subtype("afc".to_string()),
            MountOption::Custom("max_read=1".to_string()),
        ]
    );
}

#[test]
fn lists_of_options_may_be_split() {
    let one = IfuseBuilder::first_usb()
        .mount_options(vec!["ro,,allow_root,allow_other,sync".to_string()])
        .fuser_config()
        .unwrap();
    let many = IfuseBuilder::first_usb()
        .mount_options(vec![
            "ro".to_string(),
            "".to_string(),
            "allow_root,allow_other".to_string(),
            ",sync,".to_string(),
        ])
        .fuser_config()
        .unwrap();
    assert_eq!(one.mount_options, many.mount_options);
    assert_eq!(one.mount_options.len(), 4);
    assert_eq!(one.acl, SessionAcl::All);
    assert_eq!(many.acl, SessionAcl::All);
    let root = IfuseBuilder::first_usb()
        .mount_options(vec!["allow_other,allow_root".to_string()])
        .fuser_config()
        .unwrap();
    assert_eq!(root.acl, SessionAcl::RootAndOwner);
}

#[test]
fn targets_are_told_apart() {
    assert_eq!(DeviceTarget::default().identity(), "usb:first");
    assert_eq!(IfuseBuilder::usb("abc").target.identity(), "usb:abc");
    assert_eq!(IfuseBuilder::usb("abc".to_string()).target.identity(), "usb:abc");
    assert_eq!(
        IfuseBuilder::usbmuxd_network(None).target.identity(),
        "usbmuxd-network:first"
    );
    assert_eq!(
        IfuseBuilder::usbmuxd_network(Some("x".to_string())).target.identity(),
        "usbmuxd-network:x"
    );
    assert_eq!(
        IfuseBuilder::network("192.0.2.1", "/keys").target.identity(),
        "network:192.0.2.1"
    );
}

#[test]
fn builders_keep_what_they_are_given() {
    let builder = IfuseBuilder::default()
        .mount_point("/mnt")
        .source(MountSource::Root)
        .mount_options(vec!["ro".to_string()])
        .volume_label("Phone");
    assert_eq!(builder.target, DeviceTarget::Usb { udid: None });
    assert_eq!(builder.mount_point, Some(PathBuf::from("/mnt")));
    assert_eq!(builder.source, MountSource::Root);
    assert_eq!(builder.mount_options, ["ro"]);
    assert_eq!(builder.volume_label.as_deref(), Some("Phone"));
    assert_eq!(MountSource::default(), MountSource::Media);
    let plain = IfuseBuilder::with_target(DeviceTarget::default());
    assert_eq!(plain.mount_point, None);
    assert_eq!(plain.source, MountSource::Media);
    assert_eq!(plain.volume_label, None);
}

fn problem(builder: &IfuseBuilder, platform: Platform, exists: bool, is_dir: bool) -> Error {
    match builder.validate(platform, exists, is_dir) {
        Err(error) => error,
        Ok(path) => panic!("accepted {:?}", path),
    }
}

#[test]
fn sound_configurations_are_accepted() {
    let builder = IfuseBuilder::network("192.0.2.1", "/keys").mount_point("/mnt");
    let path = builder.validate(Platform::Linux, true, true).unwrap();
    assert_eq!(*path, PathBuf::from("/mnt"));
    let builder = IfuseBuilder::usb("abc").mount_point("X:");
    assert!(builder.validate(Platform::Windows, false, false).is_ok());
    let builder = builder.mount_options(vec!["ro".to_string()]);
    assert!(builder.validate(Platform::Linux, true, true).is_ok());
}

#[test]
fn problems_are_found_in_order() {
    let linux = Platform::Linux;
    let blank = IfuseBuilder::usb(" \n");
    assert!(matches!(problem(&blank, linux, false, false), Error::EmptyUdid));
    let blank = IfuseBuilder::usbmuxd_network(Some(String::new()));
    assert!(matches!(problem(&blank, linux, false, false), Error::EmptyUdid));
    let nowhere = IfuseBuilder::network("nowhere", "");
    match problem(&nowhere, linux, true, true) {
        Error::InvalidNetworkAddress(words) => assert_eq!(words, "nowhere"),
        other => panic!("unexpected {:?}", other),
    }
    let keyless = IfuseBuilder::network("192.0.2.1", "");
    assert!(matches!(problem(&keyless, linux, true, true), Error::EmptyPairingFile));
    let builder = IfuseBuilder::first_usb().volume_label(" ");
    let documents = builder
        .clone()
        .source(MountSource::Documents { bundle_id: "\t".to_string() });
    assert!(matches!(problem(&documents, linux, true, true), Error::EmptyBundleId));
    let container = builder
        .clone()
        .source(MountSource::Container { bundle_id: String::new() });
    assert!(matches!(problem(&container, linux, true, true), Error::EmptyBundleId));
    assert!(matches!(problem(&builder, linux, true, true), Error::EmptyVolumeLabel));
    let builder = IfuseBuilder::first_usb();
    assert!(matches!(problem(&builder, linux, true, true), Error::MountpointRequired));
    let builder = builder.mount_point("");
    assert!(matches!(problem(&builder, linux, true, true), Error::MountpointRequired));
    let builder = builder.mount_point("/mnt");
    match problem(&builder, linux, false, false) {
        Error::MountpointMissing(path) => assert_eq!(path, PathBuf::from("/mnt")),
        other => panic!("unexpected {:?}", other),
    }
    match problem(&builder, linux, true, false) {
        Error::MountpointNotDirectory(path) => assert_eq!(path, PathBuf::from("/mnt")),
        other => panic!("unexpected {:?}", other),
    }
    match problem(&builder, Platform::Windows, true, true) {
        Error::MountpointExists(path) => assert_eq!(path, PathBuf::from("/mnt")),
        other => panic!("unexpected {:?}", other),
    }
}

#[test]
fn windows_refuses_fuse_options() {
    let builder = IfuseBuilder::first_usb()
        .mount_point("X:")
        .mount_options(vec!["ro".to_string()]);
    assert!(matches!(
        problem(&builder, Platform::Windows, false, false),
        Error::WindowsMountOptions
    ));
}
