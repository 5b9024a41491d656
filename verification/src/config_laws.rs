//! What is mounted, where and how: laws from what is asked for to what is done.

use std::path::PathBuf;
use vstd::prelude::*;
use vstd::string::*;

use crate::address;
use crate::apps;
use crate::backend;
use crate::backend::{Command, Connection, Device, Mtime, Route, Service};
use crate::error::{Error, Result};
use crate::mount;
use crate::mount::{Cli, Event, MountHandle, Plan, SessionState, UnmountStep, Watch};
use crate::options;
use crate::options::{
    AppInfo, DeviceTarget, FuseConfig, IfuseBuilder, MountSource, Platform, SessionAcl,
};
use crate::text;
use crate::transport::AfcTransport;

verus! {

/// A target is reached as it is named: by usbmuxd over USB or the network, with the name that was
/// given, or at the address and with the pairing file that were given.
pub proof fn law_targets_are_reached_as_they_are_named(target: DeviceTarget, r: Result<Route>)
    requires
        call_ensures(backend::route, (target,), r),
    ensures
        match target {
            DeviceTarget::Usb { udid } => r matches Ok(Route::Usbmuxd { connection, udid: found })
                && connection is Usb && found == udid,
            DeviceTarget::UsbmuxdNetwork { udid } => r matches Ok(
                Route::Usbmuxd { connection, udid: found },
            ) && connection is Network && found == udid,
            DeviceTarget::Network { address: words, pairing_file } => match r {
                Ok(Route::Tcp { address: found, scope_id, pairing_file: file }) => file
                    == pairing_file && address::network_address(words@) == Ok::<
                    (address::Ip, Option<u32>),
                    Seq<char>,
                >((found@, scope_id)),
                Ok(_) => false,
                Err(e) => e is InvalidNetworkAddress && address::network_address(words@) is Err,
            },
        },
{
}

/// Whether a device is reached over the asked connection and has the asked name, where one is asked.
pub open spec fn is_asked_for(device: Device, connection: Connection, udid: Option<String>) -> bool {
    &&& match connection {
        Connection::Usb => device.connection is Usb,
        Connection::Network => device.connection is Network,
        Connection::Unknown => false,
    }
    &&& udid matches Some(name) ==> name@ == device.udid@
}

/// The first device that is asked for is taken, in the order in which usbmuxd lists them; where none
/// is, there is no device.
pub proof fn law_first_asked_device_is_taken(
    devices: &Vec<Device>,
    connection: Connection,
    udid: &Option<String>,
    r: Result<usize>,
    j: int,
)
    requires
        call_ensures(backend::select_device, (devices, connection, udid), r),
    ensures
        match r {
            Ok(k) => {
                &&& k < devices@.len() && is_asked_for(devices@[k as int], connection, *udid)
                &&& 0 <= j < k ==> !is_asked_for(devices@[j], connection, *udid)
            },
            Err(e) => {
                &&& e is DeviceNotFound
                &&& 0 <= j < devices@.len() ==> !is_asked_for(devices@[j], connection, *udid)
            },
        },
{
    assert forall|i: int| 0 <= i < devices@.len() implies is_asked_for(
        #[trigger] devices@[i],
        connection,
        *udid,
    ) == backend::is_wanted(devices@[i], connection, *udid) by {
    }
    if 0 <= j < devices@.len() && r is Err {
        assert(!backend::is_wanted(devices@[j], connection, *udid));
    }
}

/// What a mount shows decides the service: the media files, the whole device, or the documents or
/// the container of the named application. Only documents are shown from a directory of their own.
pub proof fn law_sources_have_their_service(
    source: MountSource,
    service: Service,
    end: AfcTransport,
)
    requires
        call_ensures(backend::service, (source,), service),
        call_ensures(Service::transport, (&service,), end),
    ensures
        match source {
            MountSource::Media => service is Afc,
            MountSource::Root => service is Afc2,
            MountSource::Documents { bundle_id } => service matches Service::Documents(id) && id@
                == bundle_id@,
            MountSource::Container { bundle_id } => service matches Service::Container(id) && id@
                == bundle_id@,
        },
        end.packet_number == 0,
        end.root@ == (if source is Documents {
            "/Documents"@
        } else {
            "/"@
        }),
{
}

/// A clock reading is kept in full as far as sixty-four bits hold it, and a time before 1970 is its
/// start; a time to be set is the one that is given, or that of the clock where now is asked for.
pub proof fn law_clock_readings_are_kept(
    time: Option<u128>,
    nanos: u64,
    wanted: Mtime,
    now: Option<u128>,
    meant: Option<u128>,
    command: Command,
    made: Command,
)
    requires
        call_ensures(backend::nanos, (time,), nanos),
        call_ensures(Mtime::resolve, (wanted, now), meant),
        call_ensures(Command::at, (command, now), made),
    ensures
        match time {
            Some(n) => if n <= 0xffff_ffff_ffff_ffff {
                nanos == n
            } else {
                nanos == 0xffff_ffff_ffff_ffff
            },
            None => nanos == 0,
        },
        meant == (match wanted {
            Mtime::At(given) => given,
            Mtime::Now => now,
        }),
        match command {
            Command::SetMtime(path, Mtime::Now) => made matches Command::SetMtime(
                there,
                Mtime::At(read),
            ) && there@ == path@ && read == now,
            Command::SetMtime(path, Mtime::At(given)) => made matches Command::SetMtime(
                there,
                Mtime::At(kept),
            ) && there@ == path@ && kept == given,
            _ => made@ == command@,
        },
{
}

/// Whether a text is there, but nothing is written in it.
pub open spec fn is_left_blank(words: Option<String>) -> bool {
    words matches Some(s) && text::trimmed(s@).len() == 0
}

/// A mount is accepted exactly where nothing is wrong with it: a name, an application or a label
/// that is given is not blank, an address is one and has a pairing file, and the place is there to
/// be mounted on: on Linux a directory that exists, on Windows a path that does not, without options
/// of FUSE. It is mounted at the place that was given.
pub proof fn law_mounts_are_accepted_exactly_where_sound(
    builder: IfuseBuilder,
    platform: Platform,
    exists: bool,
    is_dir: bool,
    r: Result<&PathBuf>,
)
    requires
        call_ensures(IfuseBuilder::validate, (&builder, platform, exists, is_dir), r),
    ensures
        r matches Ok(place) ==> builder.mount_point matches Some(path) && *place == path,
        r is Ok <==> {
            &&& match builder.target {
                DeviceTarget::Usb { udid } => !is_left_blank(udid),
                DeviceTarget::UsbmuxdNetwork { udid } => !is_left_blank(udid),
                DeviceTarget::Network { address: words, pairing_file } => address::network_address(
                    words@,
                ) is Ok && options::path_bytes(pairing_file).len() > 0,
            }
            &&& match builder.source {
                MountSource::Documents { bundle_id } => text::trimmed(bundle_id@).len() > 0,
                MountSource::Container { bundle_id } => text::trimmed(bundle_id@).len() > 0,
                _ => true,
            }
            &&& !is_left_blank(builder.volume_label)
            &&& builder.mount_point matches Some(path)
            &&& options::path_bytes(path).len() > 0
            &&& match platform {
                Platform::Linux => exists && is_dir,
                Platform::Windows => !exists && builder.mount_options@.len() == 0,
            }
        },
{
    match builder.target {
        DeviceTarget::Usb { udid: Some(name) } => {
            text::law_blank_is_trimmed_away(name@);
        },
        DeviceTarget::UsbmuxdNetwork { udid: Some(name) } => {
            text::law_blank_is_trimmed_away(name@);
        },
        _ => {},
    }
    match builder.source {
        MountSource::Documents { bundle_id } => {
            text::law_blank_is_trimmed_away(bundle_id@);
        },
        MountSource::Container { bundle_id } => {
            text::law_blank_is_trimmed_away(bundle_id@);
        },
        _ => {},
    }
    if let Some(label) = builder.volume_label {
        text::law_blank_is_trimmed_away(label@);
    }
}

/// What is wrong with a mount is told: each error comes where its own fault is the first of all, in
/// the order target, application, label, place.
pub proof fn law_faults_are_told(
    builder: IfuseBuilder,
    platform: Platform,
    exists: bool,
    is_dir: bool,
    e: Error,
)
    requires
        call_ensures(IfuseBuilder::validate, (&builder, platform, exists, is_dir), Err(e)),
    ensures
        match e {
            Error::EmptyUdid => (builder.target matches DeviceTarget::Usb { udid } && is_left_blank(
                udid,
            )) || (builder.target matches DeviceTarget::UsbmuxdNetwork { udid } && is_left_blank(
                udid,
            )),
            Error::InvalidNetworkAddress(said) => builder.target matches DeviceTarget::Network {
                address: words,
                ..
            } && address::network_address(words@) == Err::<
                (address::Ip, Option<u32>),
                Seq<char>,
            >(said@),
            Error::EmptyPairingFile => builder.target matches DeviceTarget::Network {
                pairing_file,
                ..
            } && options::path_bytes(pairing_file).len() == 0,
            Error::EmptyBundleId => match builder.source {
                MountSource::Documents { bundle_id } => text::trimmed(bundle_id@).len() == 0,
                MountSource::Container { bundle_id } => text::trimmed(bundle_id@).len() == 0,
                _ => false,
            },
            Error::EmptyVolumeLabel => is_left_blank(builder.volume_label),
            Error::MountpointRequired => builder.mount_point matches Some(path)
                ==> options::path_bytes(path).len() == 0,
            Error::MountpointMissing(named) => platform is Linux && !exists && (
            builder.mount_point matches Some(path) && options::path_bytes(named)
                == options::path_bytes(path)),
            Error::MountpointNotDirectory(named) => platform is Linux && exists && !is_dir && (
            builder.mount_point matches Some(path) && options::path_bytes(named)
                == options::path_bytes(path)),
            Error::MountpointExists(named) => platform is Windows && exists && (
            builder.mount_point matches Some(path) && options::path_bytes(named)
                == options::path_bytes(path)),
            Error::WindowsMountOptions => platform is Windows && !exists
                && builder.mount_options@.len() > 0,
            _ => false,
        },
{
    match builder.target {
        DeviceTarget::Usb { udid: Some(name) } => {
            text::law_blank_is_trimmed_away(name@);
        },
        DeviceTarget::UsbmuxdNetwork { udid: Some(name) } => {
            text::law_blank_is_trimmed_away(name@);
        },
        _ => {},
    }
    match builder.source {
        MountSource::Documents { bundle_id } => {
            text::law_blank_is_trimmed_away(bundle_id@);
        },
        MountSource::Container { bundle_id } => {
            text::law_blank_is_trimmed_away(bundle_id@);
        },
        _ => {},
    }
    if let Some(label) = builder.volume_label {
        text::law_blank_is_trimmed_away(label@);
    }
}

/// A configuration starts with its target and nothing else, the media files as what is shown, and
/// each thing that is set changes only itself.
pub proof fn law_builders_set_one_thing(
    target: DeviceTarget,
    udid: Option<String>,
    plain: IfuseBuilder,
    usb: IfuseBuilder,
    network: IfuseBuilder,
    builder: IfuseBuilder,
    source: MountSource,
    shown: IfuseBuilder,
    list: Vec<String>,
    mounted: IfuseBuilder,
)
    requires
        call_ensures(IfuseBuilder::with_target, (target,), plain),
        call_ensures(IfuseBuilder::first_usb, (), usb),
        call_ensures(IfuseBuilder::usbmuxd_network, (udid,), network),
        call_ensures(IfuseBuilder::source, (builder, source), shown),
        call_ensures(IfuseBuilder::mount_options, (builder, list), mounted),
    ensures
        plain.target == target && plain.source is Media && plain.mount_point is None
            && plain.mount_options@.len() == 0 && plain.volume_label is None,
        usb.target matches DeviceTarget::Usb { udid: None },
        network.target matches DeviceTarget::UsbmuxdNetwork { udid: kept } && kept == udid,
        shown.source == source && shown.target == builder.target && shown.mount_point
            == builder.mount_point && shown.mount_options == builder.mount_options
            && shown.volume_label == builder.volume_label,
        mounted.mount_options == list && mounted.target == builder.target && mounted.mount_point
            == builder.mount_point && mounted.source == builder.source && mounted.volume_label
            == builder.volume_label,
{
}

/// A configuration that is given a place, a label, a device or an address keeps it as it was given,
/// and everything else as it was.
pub proof fn law_builders_keep_what_they_are_given(
    builder: IfuseBuilder,
    path: PathBuf,
    placed: IfuseBuilder,
    label: String,
    labelled: IfuseBuilder,
    udid: String,
    usb: IfuseBuilder,
    words: String,
    file: PathBuf,
    network: IfuseBuilder,
)
    requires
        call_ensures(IfuseBuilder::mount_point::<PathBuf>, (builder, path), placed),
        call_ensures(IfuseBuilder::volume_label::<String>, (builder, label), labelled),
        call_ensures(IfuseBuilder::usb::<String>, (udid,), usb),
        call_ensures(IfuseBuilder::network::<String, PathBuf>, (words, file), network),
    ensures
        placed.mount_point == Some(path) && placed.target == builder.target && placed.source
            == builder.source && placed.mount_options == builder.mount_options
            && placed.volume_label == builder.volume_label,
        labelled.volume_label == Some(label) && labelled.target == builder.target && labelled.source
            == builder.source && labelled.mount_options == builder.mount_options
            && labelled.mount_point == builder.mount_point,
        usb.target == (DeviceTarget::Usb { udid: Some(udid) }) && usb.source is Media
            && usb.mount_point is None,
        network.target == (DeviceTarget::Network { address: words, pairing_file: file })
            && network.source is Media && network.mount_point is None,
{
}

/// Targets are told apart by how they are reached and by their names: with the same name, a device
/// on USB, one on the network of usbmuxd and one at an address are three.
pub proof fn law_targets_have_identities(
    name: String,
    file: PathBuf,
    usb: String,
    first: String,
    network: String,
    first_network: String,
    at_address: String,
)
    requires
        call_ensures(DeviceTarget::identity, (&DeviceTarget::Usb { udid: Some(name) },), usb),
        call_ensures(DeviceTarget::identity, (&DeviceTarget::Usb { udid: None },), first),
        call_ensures(
            DeviceTarget::identity,
            (&DeviceTarget::UsbmuxdNetwork { udid: Some(name) },),
            network,
        ),
        call_ensures(
            DeviceTarget::identity,
            (&DeviceTarget::UsbmuxdNetwork { udid: None },),
            first_network,
        ),
        call_ensures(
            DeviceTarget::identity,
            (&DeviceTarget::Network { address: name, pairing_file: file },),
            at_address,
        ),
    ensures
        usb@ == "usb:"@ + name@,
        first@ == "usb:"@ + "first"@,
        network@ == "usbmuxd-network:"@ + name@,
        first_network@ == "usbmuxd-network:"@ + "first"@,
        at_address@ == "network:"@ + name@,
{
}

/// A command line asks for a list of the applications or for a mount. It names the device, and it
/// names where to mount last. Of what could be shown, the whole device goes before documents, and
/// those before a container; without any of them the media files are shown.
pub proof fn law_command_lines_are_followed(cli: Cli, r: std::result::Result<Plan, String>)
    requires
        call_ensures(mount::plan, (cli,), r),
    ensures
        match r {
            Ok(Plan::ListApps(target)) => cli.list_apps && cli.positional@.len() == 0 && is_target(
                target,
                cli,
            ),
            Ok(Plan::Mount(builder)) => {
                &&& !cli.list_apps
                &&& cli.positional@.len() > 0
                &&& is_target(builder.target, cli)
                &&& builder.mount_point == Some(cli.positional@[cli.positional@.len() - 1])
                &&& builder.mount_options == cli.mount_options
                &&& builder.volume_label is None
                &&& builder.source is Root <==> cli.root
                &&& builder.source matches MountSource::Documents { bundle_id } ==> cli.documents
                    == Some(bundle_id)
                &&& builder.source is Documents <==> !cli.root && cli.documents is Some
                &&& builder.source matches MountSource::Container { bundle_id } ==> cli.container
                    == Some(bundle_id)
                &&& builder.source is Container <==> !cli.root && cli.documents is None
                    && cli.container is Some
            },
            Err(words) => {
                &&& cli.list_apps <==> cli.positional@.len() > 0
                &&& words@ == (if cli.list_apps {
                    "--list-apps does not accept a mountpoint"@
                } else {
                    "no mountpoint specified"@
                })
            },
        },
{
}

/// Whether a target is the device that a command line names.
pub open spec fn is_target(target: DeviceTarget, cli: Cli) -> bool {
    match target {
        DeviceTarget::Usb { udid } => !cli.network && udid == cli.udid,
        DeviceTarget::UsbmuxdNetwork { udid } => cli.network && udid == cli.udid,
        DeviceTarget::Network { .. } => false,
    }
}

/// A volume is called as it was asked for, else after the model of the device, and where that has no
/// name an iPhone; more is logged where debugging is asked for; a mount is watched until it is down
/// or asked to be.
pub proof fn law_small_choices(
    asked: Option<String>,
    model: String,
    label: String,
    debug: bool,
    filter: &'static str,
    event: Event,
    watch: Watch,
)
    requires
        call_ensures(mount::volume_label, (asked, model), label),
        call_ensures(mount::log_filter, (debug,), filter),
        call_ensures(mount::watch, (event,), watch),
    ensures
        asked matches Some(words) ==> label@ == words@,
        asked is None && model@.len() > 0 ==> label@ == model@,
        asked is None && model@.len() == 0 ==> label@ == "iPhone"@,
        filter@ == (if debug {
            "debug"@
        } else {
            "warn"@
        }),
        watch is Unmount <==> event is Signal,
        watch is Wait <==> event matches Event::Tick { mounted: true },
        watch is End <==> event matches Event::Tick { mounted: false },
{
}

/// A mount is up until its session has finished or is being ended; it is taken down once, its
/// session before its connection, and it keeps its place and its device all along.
pub proof fn law_mounts_are_taken_down_once(
    place: PathBuf,
    target: DeviceTarget,
    fresh: MountHandle,
    is_up: bool,
    at: &PathBuf,
    of: &DeviceTarget,
    seen: &mut MountHandle,
    finished: bool,
    first: &mut MountHandle,
    a: UnmountStep,
    second: &mut MountHandle,
    b: UnmountStep,
    third: &mut MountHandle,
    c: UnmountStep,
)
    requires
        call_ensures(MountHandle::new, (place, target), fresh),
        call_ensures(MountHandle::is_mounted, (&fresh,), is_up),
        call_ensures(MountHandle::mount_point, (&fresh,), at),
        call_ensures(MountHandle::target, (&fresh,), of),
        call_ensures(MountHandle::observe, (seen, finished), ()),
        call_ensures(MountHandle::unmount, (first, ), a),
        *old(second) == *final(first),
        call_ensures(MountHandle::unmount, (second, ), b),
        *old(third) == *final(second),
        call_ensures(MountHandle::unmount, (third, ), c),
    ensures
        is_up && fresh.mount_point == place && fresh.target == target,
        *at == place && *of == target,
        final(seen).session is Running <==> old(seen).session is Running && !finished,
        old(seen).session is Taken ==> final(seen).session is Taken,
        final(seen).backend == old(seen).backend,
        !(final(first).session is Running),
        a is EndSession <==> !(old(first).session is Taken),
        !(b is EndSession),
        old(first).backend <==> a is StopBackend || b is StopBackend,
        c is Done,
        !final(third).backend && final(third).session is Taken,
        final(third).mount_point == old(first).mount_point && final(third).target
            == old(first).target,
{
}

/// Whether an application says that it shares files.
pub open spec fn shares(properties: plist::Value) -> bool {
    apps::flags_in(properties).contains_key("UIFileSharingEnabled"@) && apps::flags_in(
        properties,
    )["UIFileSharingEnabled"@]
}

/// Whether an application is listed as it says: by its identifier, with its version and its name, or
/// with nothing where it says nothing.
pub open spec fn is_listed_as(app: AppInfo, id: Seq<char>, properties: plist::Value) -> bool {
    let texts = apps::texts_in(properties);
    &&& app.bundle_id@ == id
    &&& texts.contains_key("CFBundleVersion"@) ==> app.version@ == texts["CFBundleVersion"@]
    &&& !texts.contains_key("CFBundleVersion"@) ==> app.version@.len() == 0
    &&& texts.contains_key("CFBundleDisplayName"@) ==> app.display_name@
        == texts["CFBundleDisplayName"@]
    &&& !texts.contains_key("CFBundleDisplayName"@) ==> app.display_name@.len() == 0
}

/// The applications that are listed are exactly those that say that they share files, each as it
/// says, and in the order of their identifiers.
pub proof fn law_sharing_applications_are_listed(
    all: Vec<(String, plist::Value)>,
    r: Vec<AppInfo>,
    k: int,
    j: int,
)
    requires
        call_ensures(apps::list_shared, (&all,), r),
    ensures
        0 <= k < all@.len() && shares(all@[k].1) ==> exists|i: int|
            0 <= i < r@.len() && is_listed_as(#[trigger] r@[i], all@[k].0@, all@[k].1),
        0 <= k < r@.len() ==> exists|i: int|
            0 <= i < all@.len() && shares((#[trigger] all@[i]).1) && is_listed_as(
                r@[k],
                all@[i].0@,
                all@[i].1,
            ),
        0 <= k <= j < r@.len() ==> text::not_after(r@[k].bundle_id@, r@[j].bundle_id@),
{
    let shown = apps::app_facts(r@);
    let given = apps::shared_apps(all@);
    shown.to_multiset_ensures();
    given.to_multiset_ensures();
    if 0 <= k < all@.len() && shares(all@[k].1) {
        lemma_sharing_is_shown(all@, k);
        let facts = apps::shared_app(all@[k].0@, all@[k].1)->0;
        assert(given.to_multiset().count(facts) > 0);
        assert(shown.contains(facts));
        let i = choose|i: int| 0 <= i < shown.len() && shown[i] == facts;
        assert(shown[i] == r@[i]@);
        assert(is_listed_as(r@[i], all@[k].0@, all@[k].1));
    }
    if 0 <= k < r@.len() {
        let facts = r@[k]@;
        assert(shown[k] == facts);
        assert(shown.to_multiset().count(facts) > 0);
        assert(given.contains(facts));
        let i = lemma_shown_is_sharing(all@, facts);
        assert(is_listed_as(r@[k], all@[i].0@, all@[i].1));
    }
    if 0 <= k <= j < r@.len() {
        let names = crate::sorting::names_of(r@);
        assert(names[k] == r@[k].bundle_id@);
        assert(names[j] == r@[j].bundle_id@);
    }
}

proof fn lemma_sharing_is_shown(all: Seq<(String, plist::Value)>, k: int)
    requires
        0 <= k < all.len(),
        shares(all[k].1),
    ensures
        apps::shared_app(all[k].0@, all[k].1) matches Some(facts) && apps::shared_apps(
            all,
        ).contains(facts),
    decreases all.len(),
{
    let before = apps::shared_apps(all.drop_last());
    let facts = apps::shared_app(all[k].0@, all[k].1)->0;
    if k < all.len() - 1 {
        assert(all.drop_last()[k] == all[k]);
        lemma_sharing_is_shown(all.drop_last(), k);
        let i = choose|i: int| 0 <= i < before.len() && before[i] == facts;
        assert(apps::shared_apps(all)[i] == facts);
    } else {
        assert(apps::shared_apps(all)[before.len() as int] == facts);
    }
}

proof fn lemma_shown_is_sharing(all: Seq<(String, plist::Value)>, facts: apps::AppFacts) -> (i: int)
    requires
        apps::shared_apps(all).contains(facts),
    ensures
        0 <= i < all.len(),
        shares(all[i].1),
        apps::shared_app(all[i].0@, all[i].1) == Some(facts),
    decreases all.len(),
{
    let list = apps::shared_apps(all);
    let at = choose|at: int| 0 <= at < list.len() && list[at] == facts;
    let before = apps::shared_apps(all.drop_last());
    if at < before.len() {
        assert(before[at] == facts);
        let i = lemma_shown_is_sharing(all.drop_last(), facts);
        assert(all.drop_last()[i] == all[i]);
        i
    } else {
        all.len() - 1
    }
}

/// An application is one line of three fields between quotation marks, with commas between them; a
/// quotation mark inside a field stands twice, so that every field is read back from the line.
pub proof fn law_lines_hold_three_fields(app: AppInfo, r: String, header: String)
    requires
        call_ensures(apps::csv_line, (&app,), r),
        call_ensures(apps::csv_header, (), header),
    ensures
        ({
            let quote = seq!['"'];
            let between = seq!['"', ',', '"'];
            &&& r@ == quote + apps::escaped(app.bundle_id@) + between + apps::escaped(app.version@)
                + between + apps::escaped(app.display_name@) + quote
            &&& header@ == quote + "CFBundleIdentifier"@ + between + "CFBundleVersion"@ + between
                + "CFBundleDisplayName"@ + quote
        }),
        apps::unescaped(apps::escaped(app.bundle_id@)) == app.bundle_id@,
        apps::unescaped(apps::escaped(app.version@)) == app.version@,
        apps::unescaped(apps::escaped(app.display_name@)) == app.display_name@,
{
    apps::law_fields_read_back(app.bundle_id@);
    apps::law_fields_read_back(app.version@);
    apps::law_fields_read_back(app.display_name@);
    reveal_strlit("\"");
    reveal_strlit("\",\"");
    reveal_strlit("\"CFBundleIdentifier\",\"CFBundleVersion\",\"CFBundleDisplayName\"");
    reveal_strlit("CFBundleIdentifier");
    reveal_strlit("CFBundleVersion");
    reveal_strlit("CFBundleDisplayName");
    assert("\""@ =~= seq!['"']);
    assert("\",\""@ =~= seq!['"', ',', '"']);
    let quote = seq!['"'];
    let between = seq!['"', ',', '"'];
    assert(header@ =~= quote + "CFBundleIdentifier"@ + between + "CFBundleVersion"@ + between
        + "CFBundleDisplayName"@ + quote);
}

proof fn lemma_option_words()
    ensures
        "auto_unmount"@.len() == 12 && "default_permissions"@.len() == 19 && "dev"@.len() == 3
            && "nodev"@.len() == 5 && "suid"@.len() == 4 && "nosuid"@.len() == 6 && "ro"@.len() == 2
            && "rw"@.len() == 2 && "exec"@.len() == 4 && "noexec"@.len() == 6 && "atime"@.len() == 5
            && "noatime"@.len() == 7 && "dirsync"@.len() == 7 && "sync"@.len() == 4
            && "async"@.len() == 5 && "allow_other"@.len() == 11 && "allow_root"@.len() == 10
            && "fsname="@.len() == 7 && "subtype="@.len() == 8,
        "ro"@[1] != "rw"@[1],
        "suid"@[0] != "exec"@[0] && "suid"@[1] != "sync"@[1] && "exec"@[0] != "sync"@[0],
        "nodev"@[0] != "atime"@[0] && "nodev"@[0] != "async"@[0] && "atime"@[1] != "async"@[1],
        "nosuid"@[2] != "noexec"@[2],
        "noatime"@[0] != "dirsync"@[0],
        "fsname="@[6] == '=' && "subtype="@[7] == '=',
        "auto_unmount"@[6] != '=' && "auto_unmount"@[7] != '=',
        "default_permissions"@[6] != '=' && "default_permissions"@[7] != '=',
        "noatime"@[6] != '=' && "dirsync"@[6] != '=',
        "allow_other"@[6] != '=' && "allow_other"@[7] != '=',
        "allow_root"@[6] != '=' && "allow_root"@[7] != '=',
        "fsname="@[0] != "subtype="@[0],
{
    reveal_strlit("auto_unmount");
    reveal_strlit("default_permissions");
    reveal_strlit("dev");
    reveal_strlit("nodev");
    reveal_strlit("suid");
    reveal_strlit("nosuid");
    reveal_strlit("ro");
    reveal_strlit("rw");
    reveal_strlit("exec");
    reveal_strlit("noexec");
    reveal_strlit("atime");
    reveal_strlit("noatime");
    reveal_strlit("dirsync");
    reveal_strlit("sync");
    reveal_strlit("async");
    reveal_strlit("allow_other");
    reveal_strlit("allow_root");
    reveal_strlit("fsname=");
    reveal_strlit("subtype=");
}

/// Every word among the options of a mount says what mount(8) says of it: each known word has its
/// own meaning, a name of the filesystem or its kind is what stands behind the sign of equality, and
/// a word that is not known is handed on as it is.
pub proof fn law_option_words_say_what_they_mean(word: Seq<char>, name: Seq<char>)
    ensures
        options::word_setting("auto_unmount"@) is AutoUnmount,
        options::word_setting("default_permissions"@) is DefaultPermissions,
        options::word_setting("dev"@) is Dev,
        options::word_setting("nodev"@) is NoDev,
        options::word_setting("suid"@) is Suid,
        options::word_setting("nosuid"@) is NoSuid,
        options::word_setting("ro"@) is Ro,
        options::word_setting("rw"@) is Rw,
        options::word_setting("exec"@) is Exec,
        options::word_setting("noexec"@) is NoExec,
        options::word_setting("atime"@) is Atime,
        options::word_setting("noatime"@) is NoAtime,
        options::word_setting("dirsync"@) is DirSync,
        options::word_setting("sync"@) is Sync,
        options::word_setting("async"@) is Async,
        options::word_setting("fsname="@ + name) == options::Setting::FsName(name),
        options::word_setting("subtype="@ + name) == options::Setting::Subtype(name),
        options::word_setting(word) matches options::Setting::Custom(kept) ==> kept == word,
        options::word_setting(word) matches options::Setting::FsName(kept) ==> word == "fsname="@
            + kept,
        options::word_setting(word) matches options::Setting::Subtype(kept) ==> word == "subtype="@
            + kept,
        options::word_acl("allow_other"@) == Some(SessionAcl::All),
        options::word_acl("allow_root"@) == Some(SessionAcl::RootAndOwner),
        word != "allow_other"@ && word != "allow_root"@ ==> options::word_acl(word) is None,
{
    lemma_option_words();
    let a = "fsname="@ + name;
    let b = "subtype="@ + name;
    assert(a[6] == '=' && a.len() >= 7);
    assert(b[7] == '=' && b.len() >= 8);
    assert(b[0] == "subtype="@[0]);
    text::law_prefixes_are_followed_by_the_rest(word, "fsname="@, name);
    text::law_prefixes_are_followed_by_the_rest(word, "subtype="@, name);
    text::law_prefixes_are_followed_by_the_rest(b, "fsname="@, name);
    assert(a.skip(7) =~= name);
    assert(b.skip(8) =~= name);
    assert(!text::has_prefix(b, "fsname="@)) by {
        assert(b.take(7)[0] == b[0]);
    }
}

/// Whether a mount is known to its owner by the settings so far and one more word: an empty word
/// says nothing, two words say who else may use the mount, and every other word is one setting more,
/// behind those before.
pub open spec fn is_one_word_more(
    before: FuseConfig,
    word: Seq<char>,
    after: FuseConfig,
) -> bool {
    let a = options::settings(before.mount_options@);
    let b = options::settings(after.mount_options@);
    if word.len() == 0 {
        a == b && before.acl == after.acl
    } else if word == "allow_other"@ {
        a == b && after.acl is All
    } else if word == "allow_root"@ {
        a == b && after.acl is RootAndOwner
    } else {
        b == a.push(options::word_setting(word)) && before.acl == after.acl
    }
}

/// FUSE is told the name of the filesystem and that its owner alone may use it, and then what the
/// options say: one option that is given more is one word more, where it holds no comma.
pub proof fn law_options_are_read_one_by_one(
    plain: IfuseBuilder,
    nothing: Result<FuseConfig>,
    builder: IfuseBuilder,
    before: Result<FuseConfig>,
    longer: IfuseBuilder,
    option: String,
    after: Result<FuseConfig>,
)
    requires
        plain.mount_options@.len() == 0,
        call_ensures(IfuseBuilder::fuser_config, (&plain,), nothing),
        call_ensures(IfuseBuilder::fuser_config, (&builder,), before),
        longer.mount_options@ == builder.mount_options@.push(option),
        !option@.contains(','),
        call_ensures(IfuseBuilder::fuser_config, (&longer,), after),
    ensures
        nothing matches Ok(config) && config.acl is Owner && options::settings(
            config.mount_options@,
        ) == seq![
            options::Setting::FsName("ifuse-rs"@),
            options::Setting::Subtype("ifuse-rs"@),
        ],
        before matches Ok(a) && (after matches Ok(b) && is_one_word_more(a, option@, b)),
{
    lemma_option_words();
    let lists = longer.mount_options@;
    assert(lists.drop_last() =~= builder.mount_options@);
    assert(lists.last() == option);
    text::law_join_is_split(seq![option@], ',');
    assert(text::pieces(option@, ',') == seq![option@]);
    assert(seq![option@].drop_last() =~= Seq::<Seq<char>>::empty());
    let base = options::with_lists(options::plain_settings(), builder.mount_options@);
    assert(options::with_words(base, seq![option@]) == options::with_word(base, option@)) by {
        assert(options::with_words(base, Seq::empty()) == base);
    }
}

/// Options with commas between them say what they say one by one.
pub proof fn law_commas_part_options(
    one: IfuseBuilder,
    together: Result<FuseConfig>,
    two: IfuseBuilder,
    apart: Result<FuseConfig>,
    before: Seq<String>,
    both: String,
    first: String,
    second: String,
)
    requires
        both@ == first@ + seq![','] + second@,
        one.mount_options@ == before.push(both),
        two.mount_options@ == before.push(first).push(second),
        call_ensures(IfuseBuilder::fuser_config, (&one,), together),
        call_ensures(IfuseBuilder::fuser_config, (&two,), apart),
    ensures
        together matches Ok(a) && (apart matches Ok(b) && a.acl == b.acl && options::settings(
            a.mount_options@,
        ) == options::settings(b.mount_options@)),
{
    assert(one.mount_options@.drop_last() =~= before);
    assert(two.mount_options@.drop_last() =~= before.push(first));
    assert(before.push(first).drop_last() =~= before);
    let base = options::with_lists(options::plain_settings(), before);
    let halfway = options::with_lists(options::plain_settings(), before.push(first));
    assert(halfway == options::with_words(base, text::pieces(first@, ',')));
    assert(options::with_lists(options::plain_settings(), two.mount_options@)
        == options::with_words(halfway, text::pieces(second@, ',')));
    assert(options::with_lists(options::plain_settings(), one.mount_options@)
        == options::with_words(base, text::pieces(both@, ',')));
    options::law_lists_may_be_split(
        options::with_lists(options::plain_settings(), before),
        first@,
        second@,
    );
}

/// Whatever is asked for is answered: no configuration, command line, target or list is left out.
pub proof fn law_every_wish_is_heard(
    builder: IfuseBuilder,
    platform: Platform,
    a: bool,
    b: bool,
    cli: Cli,
    target: DeviceTarget,
    devices: Vec<Device>,
    connection: Connection,
    udid: Option<String>,
    source: MountSource,
    words: &str,
    list: Vec<(String, plist::Value)>,
)
    ensures
        call_requires(IfuseBuilder::validate, (&builder, platform, a, b)),
        call_requires(IfuseBuilder::fuser_config, (&builder,)),
        call_requires(mount::plan, (cli,)),
        call_requires(backend::route, (target,)),
        call_requires(backend::select_device, (&devices, connection, &udid)),
        call_requires(backend::service, (source,)),
        call_requires(address::parse_network_address, (words,)),
        call_requires(apps::list_shared, (&list,)),
{
}

} // verus!
