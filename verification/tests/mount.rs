use ifuse_rs::address::IpAddress;
use ifuse_rs::apps::{csv, csv_header, csv_line, list_shared};
use ifuse_rs::backend::{route, select_device, service, Connection, Device, Route};
use ifuse_rs::error::Error;
use ifuse_rs::mount::{
    log_filter, plan, volume_label, watch, Cli, Event, MountHandle, Plan, UnmountStep, Watch,
};
use ifuse_rs::options::{AppInfo, DeviceTarget, MountSource};
use std::path::PathBuf;

#[test]
fn escapes_csv_quotes() {
    assert_eq!(csv("a\"b"), "a\"\"b");
}

#[test]
fn lines_quote_every_field() {
    let app = AppInfo {
        bundle_id: "org.example".to_string(),
        version: "1,2".to_string(),
        display_name: "\"Ex\"".to_string(),
    };
    assert_eq!(csv_line(&app), "\"org.example\",\"1,2\",\"\"\"Ex\"\"\"");
    assert_eq!(
        csv_header(),
        "\"CFBundleIdentifier\",\"CFBundleVersion\",\"CFBundleDisplayName\""
    );
}

fn properties(entries: &[(&str, plist::Value)]) -> plist::Value {
    let mut dictionary = plist::Dictionary::new();
    for (key, value) in entries {
        dictionary.insert(key.to_string(), value.clone());
    }
    plist::Value::Dictionary(dictionary)
}

#[test]
fn sharing_apps_are_listed_in_order() {
    let yes = plist::Value::Boolean(true);
    let no = plist::Value::Boolean(false);
    let text = |s: &str| plist::Value::String(s.to_string());
    let apps = vec![
        (
            "b".to_string(),
            properties(&[
                ("UIFileSharingEnabled", yes.clone()),
                ("CFBundleVersion", text("2")),
                ("CFBundleDisplayName", text("Bee")),
            ]),
        ),
        ("n".to_string(), properties(&[("UIFileSharingEnabled", no)])),
        ("t".to_string(), properties(&[("UIFileSharingEnabled", text("true"))])),
        ("x".to_string(), yes.clone()),
        ("e".to_string(), properties(&[])),
        (
            "a".to_string(),
            properties(&[("UIFileSharingEnabled", yes.clone()), ("CFBundleVersion", yes)]),
        ),
    ];
    let listed = list_shared(&apps);
    let expected = [
        AppInfo { bundle_id: "a".to_string(), version: String::new(), display_name: String::new() },
        AppInfo {
            bundle_id: "b".to_string(),
            version: "2".to_string(),
            display_name: "Bee".to_string(),
        },
    ];
    assert_eq!(listed, expected);
}

fn cli() -> Cli {
    Cli {
        positional: Vec::new(),
        mount_options: Vec::new(),
        udid: None,
        network: false,
        root: false,
        documents: None,
        container: None,
        list_apps: false,
        debug: false,
    }
}

#[test]
fn command_lines_are_planned() {
    assert_eq!(plan(cli()).unwrap_err(), "no mountpoint specified");
    let listing = Cli { list_apps: true, network: true, udid: Some("u".to_string()), ..cli() };
    match plan(listing.clone()).unwrap() {
        Plan::ListApps(target) => {
            assert_eq!(target, DeviceTarget::UsbmuxdNetwork { udid: Some("u".to_string()) })
        }
        other => panic!("unexpected {:?}", other),
    }
    let both = Cli { positional: vec![PathBuf::from("/mnt")], ..listing };
    assert_eq!(plan(both).unwrap_err(), "--list-apps does not accept a mountpoint");
    let mount = Cli {
        positional: vec![PathBuf::from("ignored"), PathBuf::from("/mnt")],
        mount_options: vec!["ro".to_string()],
        documents: Some("app".to_string()),
        ..cli()
    };
    match plan(mount).unwrap() {
        Plan::Mount(builder) => {
            assert_eq!(builder.mount_point, Some(PathBuf::from("/mnt")));
            assert_eq!(builder.target, DeviceTarget::Usb { udid: None });
            assert_eq!(builder.source, MountSource::Documents { bundle_id: "app".to_string() });
            assert_eq!(builder.mount_options, ["ro"]);
            assert_eq!(builder.volume_label, None);
        }
        other => panic!("unexpected {:?}", other),
    }
}

fn planned_source(cli: Cli) -> MountSource {
    match plan(Cli { positional: vec![PathBuf::from("/mnt")], ..cli }).unwrap() {
        Plan::Mount(builder) => builder.source,
        other => panic!("unexpected {:?}", other),
    }
}

#[test]
fn sources_are_chosen() {
    assert_eq!(planned_source(cli()), MountSource::Media);
    assert_eq!(planned_source(Cli { root: true, ..cli() }), MountSource::Root);
    assert_eq!(
        planned_source(Cli { container: Some("c".to_string()), ..cli() }),
        MountSource::Container { bundle_id: "c".to_string() }
    );
}

#[test]
fn small_choices() {
    assert_eq!(log_filter(true), "debug");
    assert_eq!(log_filter(false), "warn");
    assert_eq!(volume_label(Some("L".to_string()), "M".to_string()), "L");
    assert_eq!(volume_label(None, "M".to_string()), "M");
    assert_eq!(volume_label(None, String::new()), "iPhone");
    assert_eq!(watch(Event::Signal), Watch::Unmount);
    assert_eq!(watch(Event::Tick { mounted: true }), Watch::Wait);
    assert_eq!(watch(Event::Tick { mounted: false }), Watch::End);
}

#[test]
fn unmounting_is_idempotent() {
    let mut handle = MountHandle::new(PathBuf::from("/mnt"), DeviceTarget::default());
    assert!(handle.is_mounted());
    assert_eq!(*handle.mount_point(), PathBuf::from("/mnt"));
    assert_eq!(*handle.target(), DeviceTarget::default());
    assert_eq!(handle.unmount(), UnmountStep::EndSession);
    assert!(!handle.is_mounted());
    assert_eq!(handle.unmount(), UnmountStep::StopBackend);
    assert_eq!(handle.unmount(), UnmountStep::Done);
    assert_eq!(handle.unmount(), UnmountStep::Done);
}

#[test]
fn finished_sessions_are_not_mounted() {
    let mut handle = MountHandle::new(PathBuf::from("/mnt"), DeviceTarget::default());
    handle.observe(false);
    assert!(handle.is_mounted());
    handle.observe(true);
    assert!(!handle.is_mounted());
    assert_eq!(handle.unmount(), UnmountStep::EndSession);
    handle.observe(true);
    assert_eq!(handle.unmount(), UnmountStep::StopBackend);
}

#[test]
fn first_wanted_device_is_selected() {
    let device = |connection, udid: &str| Device { connection, udid: udid.to_string() };
    let devices = vec![
        device(Connection::Unknown, "a"),
        device(Connection::Network, "a"),
        device(Connection::Usb, "b"),
        device(Connection::Usb, "a"),
    ];
    assert_eq!(select_device(&devices, Connection::Usb, &None).unwrap(), 2);
    let wanted = Some("a".to_string());
    assert_eq!(select_device(&devices, Connection::Usb, &wanted).unwrap(), 3);
    assert_eq!(select_device(&devices, Connection::Network, &wanted).unwrap(), 1);
    let other = Some("c".to_string());
    assert!(matches!(
        select_device(&devices, Connection::Usb, &other),
        Err(Error::DeviceNotFound)
    ));
    assert!(matches!(
        select_device(&devices, Connection::Unknown, &None),
        Err(Error::DeviceNotFound)
    ));
}

#[test]
fn targets_have_routes() {
    assert!(matches!(
        route(DeviceTarget::Usb { udid: None }).unwrap(),
        Route::Usbmuxd { connection: Connection::Usb, udid: None }
    ));
    assert!(matches!(
        route(DeviceTarget::UsbmuxdNetwork { udid: None }).unwrap(),
        Route::Usbmuxd { connection: Connection::Network, udid: None }
    ));
    let network = DeviceTarget::Network {
        address: "::1%2".to_string(),
        pairing_file: PathBuf::from("/keys"),
    };
    match route(network).unwrap() {
        Route::Tcp { address, scope_id, pairing_file } => {
            assert_eq!(address, IpAddress::V6([0, 0, 0, 0, 0, 0, 0, 1]));
            assert_eq!(scope_id, Some(2));
            assert_eq!(pairing_file, PathBuf::from("/keys"));
        }
        other => panic!("unexpected {:?}", other),
    }
    let nowhere =
        DeviceTarget::Network { address: "x".to_string(), pairing_file: PathBuf::new() };
    assert!(matches!(route(nowhere), Err(Error::InvalidNetworkAddress(words)) if words == "x"));
}

#[test]
fn sources_have_services() {
    let root = |source| service(source).transport().root;
    assert_eq!(root(MountSource::Media), "/");
    assert_eq!(root(MountSource::Root), "/");
    assert_eq!(root(MountSource::Documents { bundle_id: "a".to_string() }), "/Documents");
    assert_eq!(root(MountSource::Container { bundle_id: "a".to_string() }), "/");
}
