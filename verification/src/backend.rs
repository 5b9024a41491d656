//! What a filesystem asks of the device, and how the device is reached.

use std::path::PathBuf;
use vstd::prelude::*;

use crate::address;
use crate::address::IpAddress;
use crate::afc;
use crate::afc::{RemoteDeviceInfo, RemoteFileInfo};
use crate::error;
use crate::error::{Error, Result};
use crate::options::{DeviceTarget, MountSource};
use crate::text;
use crate::transport::{AfcFopenMode, AfcTransport, LinkType};

verus! {

/// The time that a file is to be given.
#[derive(Clone, Copy, Debug)]
pub enum Mtime {
    /// So many nanoseconds since 1970; `None` for a time before that.
    At(Option<u128>),
    /// The time at which the request is made.
    Now,
}

/// What a clock reading is written as: nanoseconds since 1970, as far as the field reaches. What
/// lies before 1970 is written as its start.
pub open spec fn clamped_nanos(time: Option<u128>) -> u64 {
    match time {
        Some(nanos) if nanos <= u64::MAX => nanos as u64,
        Some(_) => u64::MAX,
        None => 0,
    }
}

/// What a clock reading is written as.
pub fn nanos(time: Option<u128>) -> (r: u64)
    ensures
        r == clamped_nanos(time),
{
    match time {
        Some(nanos) => if nanos <= u64::MAX as u128 {
            nanos as u64
        } else {
            u64::MAX
        },
        None => 0,
    }
}

impl Mtime {
    /// The time itself, where the clock reads `now`.
    pub open spec fn read(self, now: Option<u128>) -> Option<u128> {
        match self {
            Mtime::At(time) => time,
            Mtime::Now => now,
        }
    }

    /// The time itself, where the clock reads `now`.
    pub fn resolve(self, now: Option<u128>) -> (r: Option<u128>)
        ensures
            r == self.read(now),
    {
        match self {
            Mtime::At(time) => time,
            Mtime::Now => now,
        }
    }
}

/// A request to the device.
#[derive(Debug)]
pub enum Command {
    DeviceInfo,
    FileInfo(String),
    ListDir(String),
    Mkdir(String),
    Remove(String),
    Rename(String, String),
    Link(String, String, LinkType),
    Open(String, AfcFopenMode),
    Read(u64, u64, u32),
    Write(u64, u64, Vec<u8>),
    Close(u64),
    Truncate(String, u64),
    TruncateHandle(u64, u64),
    SetMtime(String, Mtime),
    Shutdown,
}

impl Wish {
    /// The same request, made when the clock reads `now`.
    pub open spec fn at(self, now: Option<u128>) -> Wish {
        match self {
            Wish::SetMtime(path, time) => Wish::SetMtime(path, Mtime::At(time.read(now))),
            other => other,
        }
    }
}

impl Command {
    /// The same request, made when the clock reads `now`.
    pub fn at(self, now: Option<u128>) -> (r: Command)
        ensures
            r@ == self@.at(now),
    {
        match self {
            Command::SetMtime(path, time) => Command::SetMtime(path, Mtime::At(time.resolve(now))),
            other => other,
        }
    }
}

/// What the device answers a request with, where it does what was asked.
#[derive(Debug)]
pub enum Answer {
    DeviceInfo(RemoteDeviceInfo),
    FileInfo(RemoteFileInfo),
    Names(Vec<String>),
    Done,
    Handle(u64),
    Data(Vec<u8>),
    Count(u32),
}

/// What a request asks for.
pub ghost enum Wish {
    DeviceInfo,
    FileInfo(Seq<char>),
    ListDir(Seq<char>),
    Mkdir(Seq<char>),
    Remove(Seq<char>),
    Rename(Seq<char>, Seq<char>),
    Link(Seq<char>, Seq<char>, LinkType),
    Open(Seq<char>, AfcFopenMode),
    Read(u64, u64, u32),
    Write(u64, u64, Seq<u8>),
    Close(u64),
    Truncate(Seq<char>, u64),
    TruncateHandle(u64, u64),
    SetMtime(Seq<char>, Mtime),
    Shutdown,
}

/// What an answer says.
pub ghost enum Said {
    DeviceInfo(afc::DeviceFacts),
    FileInfo(afc::FileFacts),
    Names(Seq<Seq<char>>),
    Done,
    Handle(u64),
    Data(Seq<u8>),
    Count(u32),
    Failed(error::Failure),
}

impl View for Command {
    type V = Wish;

    open spec fn view(&self) -> Wish {
        match *self {
            Command::DeviceInfo => Wish::DeviceInfo,
            Command::FileInfo(path) => Wish::FileInfo(path@),
            Command::ListDir(path) => Wish::ListDir(path@),
            Command::Mkdir(path) => Wish::Mkdir(path@),
            Command::Remove(path) => Wish::Remove(path@),
            Command::Rename(from, to) => Wish::Rename(from@, to@),
            Command::Link(target, link, kind) => Wish::Link(target@, link@, kind),
            Command::Open(path, mode) => Wish::Open(path@, mode),
            Command::Read(handle, offset, size) => Wish::Read(handle, offset, size),
            Command::Write(handle, offset, bytes) => Wish::Write(handle, offset, bytes@),
            Command::Close(handle) => Wish::Close(handle),
            Command::Truncate(path, size) => Wish::Truncate(path@, size),
            Command::TruncateHandle(handle, size) => Wish::TruncateHandle(handle, size),
            Command::SetMtime(path, time) => Wish::SetMtime(path@, time),
            Command::Shutdown => Wish::Shutdown,
        }
    }
}

impl View for Answer {
    type V = Said;

    open spec fn view(&self) -> Said {
        match *self {
            Answer::DeviceInfo(info) => Said::DeviceInfo(info@),
            Answer::FileInfo(info) => Said::FileInfo(info@),
            Answer::Names(names) => Said::Names(afc::texts(names@)),
            Answer::Done => Said::Done,
            Answer::Handle(handle) => Said::Handle(handle),
            Answer::Data(bytes) => Said::Data(bytes@),
            Answer::Count(count) => Said::Count(count),
        }
    }
}

/// What the outcome of a request says.
pub open spec fn said(outcome: Result<Answer>) -> Said {
    match outcome {
        Ok(answer) => answer@,
        Err(e) => Said::Failed(error::failure_of(e)),
    }
}

/// Whether an outcome is of the kind that a request asks for; a failure always is.
pub open spec fn fits(wish: Wish, outcome: Said) -> bool {
    ||| outcome is Failed
    ||| match wish {
        Wish::DeviceInfo => outcome is DeviceInfo,
        Wish::FileInfo(_) => outcome is FileInfo,
        Wish::ListDir(_) => outcome is Names,
        Wish::Open(_, _) => outcome is Handle,
        Wish::Read(_, _, _) => outcome is Data,
        Wish::Write(_, _, _) => outcome is Count,
        Wish::Shutdown => false,
        _ => outcome is Done,
    }
}

/// How usbmuxd reaches a device.
#[derive(Clone, Copy, Debug, PartialEq, Eq, Structural)]
pub enum Connection {
    Usb,
    Network,
    Unknown,
}

/// A device that usbmuxd knows.
#[derive(Clone, Debug)]
pub struct Device {
    pub connection: Connection,
    pub udid: String,
}

/// Whether a device is reached as it is asked for, and is the one that is asked for.
pub open spec fn is_wanted(device: Device, connection: Connection, udid: Option<String>) -> bool {
    &&& connection == Connection::Usb || connection == Connection::Network
    &&& device.connection == connection
    &&& match udid {
        Some(udid) => udid@ == device.udid@,
        None => true,
    }
}

/// Whether no device is the one that is asked for.
pub open spec fn none_is_wanted(
    devices: Seq<Device>,
    connection: Connection,
    udid: Option<String>,
) -> bool {
    forall|j: int| 0 <= j < devices.len() ==> !is_wanted(#[trigger] devices[j], connection, udid)
}

/// The first device that is asked for, by its position.
pub fn select_device(
    devices: &Vec<Device>,
    connection: Connection,
    udid: &Option<String>,
) -> (r: Result<usize>)
    ensures
        match r {
            Ok(k) => {
                &&& k < devices@.len()
                &&& is_wanted(devices@[k as int], connection, *udid)
                &&& forall|j: int|
                    0 <= j < k ==> !is_wanted(#[trigger] devices@[j], connection, *udid)
            },
            Err(e) => {
                &&& e == Error::DeviceNotFound
                &&& none_is_wanted(devices@, connection, *udid)
            },
        },
{
    let mut i: usize = 0;
    while i < devices.len()
        invariant
            i <= devices@.len(),
            forall|j: int| 0 <= j < i ==> !is_wanted(#[trigger] devices@[j], connection, *udid),
        decreases devices.len() - i,
    {
        let candidate: &Device = &devices[i];
        let transport_matches: bool = match (connection, candidate.connection) {
            (Connection::Usb, Connection::Usb) => true,
            (Connection::Network, Connection::Network) => true,
            _ => false,
        };
        let udid_matches: bool = match udid {
            Some(udid) => text::same(udid.as_str(), candidate.udid.as_str()),
            None => true,
        };
        if transport_matches && udid_matches {
            return Ok(i);
        }
        i += 1;
    }
    Err(Error::DeviceNotFound)
}

/// How a device is reached.
#[derive(Debug)]
pub enum Route {
    /// By usbmuxd, as the first device that is asked for.
    Usbmuxd { connection: Connection, udid: Option<String> },
    /// At an address, with the keys of a pairing file.
    Tcp { address: IpAddress, scope_id: Option<u32>, pairing_file: PathBuf },
}

/// How a target is reached.
pub fn route(target: DeviceTarget) -> (r: Result<Route>)
    ensures
        match target {
            DeviceTarget::Usb { udid } => r == Ok::<Route, Error>(
                Route::Usbmuxd { connection: Connection::Usb, udid },
            ),
            DeviceTarget::UsbmuxdNetwork { udid } => r == Ok::<Route, Error>(
                Route::Usbmuxd { connection: Connection::Network, udid },
            ),
            DeviceTarget::Network { address, pairing_file } => match address::network_address(
                address@,
            ) {
                Ok((ip, scope)) => r matches Ok(
                    Route::Tcp { address: found, scope_id, pairing_file: file },
                ) && found@ == ip && scope_id == scope && file == pairing_file,
                Err(words) => r matches Err(Error::InvalidNetworkAddress(said)) && said@ == words,
            },
        },
{
    match target {
        DeviceTarget::Usb { udid } => Ok(Route::Usbmuxd { connection: Connection::Usb, udid }),
        DeviceTarget::UsbmuxdNetwork { udid } => Ok(
            Route::Usbmuxd { connection: Connection::Network, udid },
        ),
        DeviceTarget::Network { address, pairing_file } => match address::parse_network_address(
            address.as_str(),
        ) {
            Ok((address, scope_id)) => Ok(Route::Tcp { address, scope_id, pairing_file }),
            Err(e) => Err(e),
        },
    }
}

/// The service of the device that gives access to files.
#[derive(Debug)]
pub enum Service {
    /// The files of the user's media.
    Afc,
    /// All files of a device that lets everyone in.
    Afc2,
    /// The documents of an application.
    Documents(String),
    /// All files of an application.
    Container(String),
}

/// The service that gives access to what a mount shows.
pub fn service(source: MountSource) -> (r: Service)
    ensures
        r == (match source {
            MountSource::Media => Service::Afc,
            MountSource::Root => Service::Afc2,
            MountSource::Documents { bundle_id } => Service::Documents(bundle_id),
            MountSource::Container { bundle_id } => Service::Container(bundle_id),
        }),
{
    match source {
        MountSource::Media => Service::Afc,
        MountSource::Root => Service::Afc2,
        MountSource::Documents { bundle_id } => Service::Documents(bundle_id),
        MountSource::Container { bundle_id } => Service::Container(bundle_id),
    }
}

impl Service {
    /// The directory of the service that a mount shows.
    pub open spec fn root(self) -> Seq<char> {
        match self {
            Service::Documents(_) => "/Documents"@,
            _ => "/"@,
        }
    }

    /// The device's end of a new mount.
    pub fn transport(&self) -> (r: AfcTransport)
        ensures
            r.packet_number == 0,
            r.root@ == self.root(),
    {
        match self {
            Service::Documents(_) => AfcTransport::new("/Documents"),
            _ => AfcTransport::new("/"),
        }
    }
}

} // verus!
