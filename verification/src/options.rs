//! What a mount is made of: the device, what of it is shown, where, and how.

use std::path::PathBuf;
use vstd::prelude::*;
use vstd::string::*;

use crate::address;
use crate::error::{Error, Result};
use crate::text;

verus! {

/// `String::from` of a string slice is a string with the same characters.
pub assume_specification<'a>[ <String as From<&'a str>>::from ](s: &str) -> (r: String)
    ensures
        r@ == s@,
;

/// `From` of a value of the same type is that value.
pub assume_specification<Value>[ <Value as From<Value>>::from ](value: Value) -> (r: Value)
    ensures
        r == value,
;

/// The bytes that a path of the host holds.
pub uninterp spec fn path_bytes(path: PathBuf) -> Seq<u8>;

/// `PathBuf::as_os_str`, then `OsStr::is_empty`, tell whether a path holds no bytes.
#[verifier::external_body]
fn is_empty(path: &PathBuf) -> (r: bool)
    ensures
        r == (path_bytes(*path).len() == 0),
{
    path.as_os_str().is_empty()
}

/// `PathBuf::clone` gives a path that holds the same bytes.
pub assume_specification[ <PathBuf as Clone>::clone ](path: &PathBuf) -> (r: PathBuf)
    ensures
        path_bytes(r) == path_bytes(*path),
;

/// The device connection used by a mount.
#[derive(Clone, Debug, Eq, PartialEq)]
pub enum DeviceTarget {
    Usb { udid: Option<String> },
    UsbmuxdNetwork { udid: Option<String> },
    Network { address: String, pairing_file: PathBuf },
}

impl Default for DeviceTarget {
    fn default() -> (r: Self)
        ensures
            r == (DeviceTarget::Usb { udid: None }),
    {
        DeviceTarget::Usb { udid: None }
    }
}

/// The characters of a device's name, or the word for whichever device is found first.
pub open spec fn device_name(udid: Option<String>) -> Seq<char> {
    match udid {
        Some(udid) => udid@,
        None => "first"@,
    }
}

/// The characters of a device's name, or the word for whichever device is found first.
fn name_of(udid: &Option<String>) -> (r: &str)
    ensures
        r@ == device_name(*udid),
{
    match udid {
        Some(udid) => udid.as_str(),
        None => "first",
    }
}

impl DeviceTarget {
    /// What tells this target from others.
    pub fn identity(&self) -> (r: String)
        ensures
            r@ == (match *self {
                DeviceTarget::Usb { udid } => "usb:"@ + device_name(udid),
                DeviceTarget::UsbmuxdNetwork { udid } => "usbmuxd-network:"@ + device_name(udid),
                DeviceTarget::Network { address, .. } => "network:"@ + address@,
            }),
    {
        match self {
            DeviceTarget::Usb { udid } => text::joined("usb:", name_of(udid)),
            DeviceTarget::UsbmuxdNetwork { udid } => text::joined(
                "usbmuxd-network:",
                name_of(udid),
            ),
            DeviceTarget::Network { address, .. } => text::joined("network:", address.as_str()),
        }
    }
}

/// The AFC service exposed through the mount.
#[derive(Clone, Debug, Eq, PartialEq)]
pub enum MountSource {
    Media,
    Root,
    Documents { bundle_id: String },
    Container { bundle_id: String },
}

impl Default for MountSource {
    fn default() -> (r: Self)
        ensures
            r == MountSource::Media,
    {
        MountSource::Media
    }
}

/// An application of the device that shares files.
#[derive(Clone, Debug, Eq, PartialEq)]
pub struct AppInfo {
    pub bundle_id: String,
    pub version: String,
    pub display_name: String,
}

/// Configures and starts an iOS filesystem mount.
#[derive(Clone, Debug)]
pub struct IfuseBuilder {
    pub target: DeviceTarget,
    pub mount_point: Option<PathBuf>,
    pub source: MountSource,
    pub mount_options: Vec<String>,
    pub volume_label: Option<String>,
}

impl Default for IfuseBuilder {
    fn default() -> (r: Self)
        ensures
            r.is_plain(DeviceTarget::Usb { udid: None }),
    {
        Self::first_usb()
    }
}

impl IfuseBuilder {
    /// Whether nothing but the target has been configured.
    pub open spec fn is_plain(self, target: DeviceTarget) -> bool {
        &&& self.target == target
        &&& self.mount_point is None
        &&& self.source == MountSource::Media
        &&& self.mount_options@.len() == 0
        &&& self.volume_label is None
    }

    /// A mount of whichever device is found first on USB.
    pub fn first_usb() -> (r: Self)
        ensures
            r.is_plain(DeviceTarget::Usb { udid: None }),
    {
        Self::with_target(DeviceTarget::default())
    }

    /// A mount of a device on USB.
    pub fn usb<S: Into<String>>(udid: S) -> (r: Self)
        ensures
            r.is_plain(r.target),
            r.target matches DeviceTarget::Usb { udid: Some(name) } && call_ensures(
                <S as Into<String>>::into,
                (udid,),
                name,
            ),
    {
        Self::with_target(DeviceTarget::Usb { udid: Some(udid.into()) })
    }

    /// A mount of a device that is known to usbmuxd by its network.
    pub fn usbmuxd_network(udid: Option<String>) -> (r: Self)
        ensures
            r.is_plain(DeviceTarget::UsbmuxdNetwork { udid }),
    {
        Self::with_target(DeviceTarget::UsbmuxdNetwork { udid })
    }

    /// A mount of a device at a network address.
    pub fn network<S: Into<String>, P: Into<PathBuf>>(address: S, pairing_file: P) -> (r: Self)
        ensures
            r.is_plain(r.target),
            r.target matches DeviceTarget::Network { address: a, pairing_file: p }
                && call_ensures(<S as Into<String>>::into, (address,), a) && call_ensures(
                <P as Into<PathBuf>>::into,
                (pairing_file,),
                p,
            ),
    {
        Self::with_target(
            DeviceTarget::Network { address: address.into(), pairing_file: pairing_file.into() },
        )
    }

    /// A mount of a device.
    pub fn with_target(target: DeviceTarget) -> (r: Self)
        ensures
            r.is_plain(target),
    {
        IfuseBuilder {
            target,
            mount_point: None,
            source: MountSource::default(),
            mount_options: Vec::new(),
            volume_label: None,
        }
    }

    /// Where to mount.
    pub fn mount_point<P: Into<PathBuf>>(self, path: P) -> (r: Self)
        ensures
            r.mount_point matches Some(p) && call_ensures(<P as Into<PathBuf>>::into, (path,), p),
            r == (IfuseBuilder { mount_point: r.mount_point, ..self }),
    {
        IfuseBuilder { mount_point: Some(path.into()), ..self }
    }

    /// What to show.
    pub fn source(self, source: MountSource) -> (r: Self)
        ensures
            r == (IfuseBuilder { source, ..self }),
    {
        IfuseBuilder { source, ..self }
    }

    /// How to mount.
    pub fn mount_options(self, options: Vec<String>) -> (r: Self)
        ensures
            r == (IfuseBuilder { mount_options: options, ..self }),
    {
        IfuseBuilder { mount_options: options, ..self }
    }

    /// What to call the volume.
    pub fn volume_label<S: Into<String>>(self, label: S) -> (r: Self)
        ensures
            r.volume_label matches Some(l) && call_ensures(<S as Into<String>>::into, (label,), l),
            r == (IfuseBuilder { volume_label: r.volume_label, ..self }),
    {
        IfuseBuilder { volume_label: Some(label.into()), ..self }
    }
}

/// The systems that a mount can live on.
#[derive(Clone, Copy, Debug, PartialEq, Eq, Structural)]
pub enum Platform {
    Linux,
    Windows,
}

/// What is wrong with the configuration of a mount.
pub ghost enum Problem {
    EmptyUdid,
    Address(Seq<char>),
    EmptyPairingFile,
    EmptyBundleId,
    EmptyVolumeLabel,
    MountpointRequired,
    MountpointMissing(Seq<u8>),
    MountpointNotDirectory(Seq<u8>),
    MountpointExists(Seq<u8>),
    MountOptions,
}

/// The problem that an error tells of.
pub open spec fn problem_of(error: Error) -> Option<Problem> {
    match error {
        Error::EmptyUdid => Some(Problem::EmptyUdid),
        Error::InvalidNetworkAddress(words) => Some(Problem::Address(words@)),
        Error::EmptyPairingFile => Some(Problem::EmptyPairingFile),
        Error::EmptyBundleId => Some(Problem::EmptyBundleId),
        Error::EmptyVolumeLabel => Some(Problem::EmptyVolumeLabel),
        Error::MountpointRequired => Some(Problem::MountpointRequired),
        Error::MountpointMissing(path) => Some(Problem::MountpointMissing(path_bytes(path))),
        Error::MountpointNotDirectory(path) => Some(
            Problem::MountpointNotDirectory(path_bytes(path)),
        ),
        Error::MountpointExists(path) => Some(Problem::MountpointExists(path_bytes(path))),
        Error::WindowsMountOptions => Some(Problem::MountOptions),
        _ => None,
    }
}

/// Whether a text that may be missing is there and blank.
pub open spec fn given_blank(value: Option<String>) -> bool {
    value matches Some(s) && text::is_blank(s@)
}

/// Whether a text that may be missing is there and blank.
fn is_given_blank(value: &Option<String>) -> (r: bool)
    ensures
        r == given_blank(*value),
{
    match value {
        Some(s) => text::blank(s.as_str()),
        None => false,
    }
}

/// What is wrong with a target.
pub open spec fn target_problem(target: DeviceTarget) -> Option<Problem> {
    match target {
        DeviceTarget::Usb { udid } => if given_blank(udid) {
            Some(Problem::EmptyUdid)
        } else {
            None
        },
        DeviceTarget::UsbmuxdNetwork { udid } => if given_blank(udid) {
            Some(Problem::EmptyUdid)
        } else {
            None
        },
        DeviceTarget::Network { address, pairing_file } => match address::network_address(
            address@,
        ) {
            Err(words) => Some(Problem::Address(words)),
            Ok(_) => if path_bytes(pairing_file).len() == 0 {
                Some(Problem::EmptyPairingFile)
            } else {
                None
            },
        },
    }
}

/// Whether an application is to be shown, but which one is left blank.
pub open spec fn source_is_blank(source: MountSource) -> bool {
    match source {
        MountSource::Documents { bundle_id } => text::is_blank(bundle_id@),
        MountSource::Container { bundle_id } => text::is_blank(bundle_id@),
        _ => false,
    }
}

/// What is wrong with where a mount is to be, on a system where the path exists or not and leads to
/// a directory or not.
pub open spec fn place_problem(
    mount_point: Option<PathBuf>,
    mount_options: Seq<String>,
    platform: Platform,
    exists: bool,
    is_dir: bool,
) -> Option<Problem> {
    match mount_point {
        None => Some(Problem::MountpointRequired),
        Some(path) => {
            let bytes = path_bytes(path);
            if bytes.len() == 0 {
                Some(Problem::MountpointRequired)
            } else if platform == Platform::Linux && !exists {
                Some(Problem::MountpointMissing(bytes))
            } else if platform == Platform::Linux && !is_dir {
                Some(Problem::MountpointNotDirectory(bytes))
            } else if platform == Platform::Windows && exists {
                Some(Problem::MountpointExists(bytes))
            } else if platform == Platform::Windows && mount_options.len() != 0 {
                Some(Problem::MountOptions)
            } else {
                None
            }
        },
    }
}

/// The first thing that is wrong with the configuration of a mount.
pub open spec fn problem(
    builder: IfuseBuilder,
    platform: Platform,
    exists: bool,
    is_dir: bool,
) -> Option<Problem> {
    if target_problem(builder.target) is Some {
        target_problem(builder.target)
    } else if source_is_blank(builder.source) {
        Some(Problem::EmptyBundleId)
    } else if given_blank(builder.volume_label) {
        Some(Problem::EmptyVolumeLabel)
    } else {
        place_problem(builder.mount_point, builder.mount_options@, platform, exists, is_dir)
    }
}

/// On Windows every configuration with FUSE options is refused; none is mounted without them.
pub proof fn law_windows_refuses_fuse_options(builder: IfuseBuilder, exists: bool, is_dir: bool)
    requires
        builder.mount_options@.len() > 0,
    ensures
        problem(builder, Platform::Windows, exists, is_dir) is Some,
{
}

/// A configuration that nothing is wrong with names a place to mount, which on Linux is a directory
/// that is there and on Windows one that is not.
pub proof fn law_accepted_mounts_have_a_place(
    builder: IfuseBuilder,
    platform: Platform,
    exists: bool,
    is_dir: bool,
)
    requires
        problem(builder, platform, exists, is_dir) is None,
    ensures
        builder.mount_point matches Some(path) && path_bytes(path).len() > 0,
        platform == Platform::Linux ==> exists && is_dir,
        platform == Platform::Windows ==> !exists && builder.mount_options@.len() == 0,
{
}

impl IfuseBuilder {
    /// Where to mount, once nothing is wrong with the configuration. Whether the path exists on
    /// this system, and whether it leads to a directory, is for the caller to find out.
    pub fn validate(&self, platform: Platform, exists: bool, is_dir: bool) -> (r: Result<&PathBuf>)
        ensures
            match r {
                Ok(path) => problem(*self, platform, exists, is_dir) is None && self.mount_point
                    == Some(*path),
                Err(e) => problem(*self, platform, exists, is_dir) is Some && problem_of(e)
                    == problem(*self, platform, exists, is_dir),
            },
    {
        match &self.target {
            DeviceTarget::Usb { udid } => {
                if is_given_blank(udid) {
                    return Err(Error::EmptyUdid);
                }
            },
            DeviceTarget::UsbmuxdNetwork { udid } => {
                if is_given_blank(udid) {
                    return Err(Error::EmptyUdid);
                }
            },
            DeviceTarget::Network { address, pairing_file } => {
                match address::parse_network_address(address.as_str()) {
                    Err(e) => {
                        return Err(e);
                    },
                    Ok(_) => {},
                }
                if is_empty(pairing_file) {
                    return Err(Error::EmptyPairingFile);
                }
            },
        }
        let blank_source: bool = match &self.source {
            MountSource::Documents { bundle_id } => text::blank(bundle_id.as_str()),
            MountSource::Container { bundle_id } => text::blank(bundle_id.as_str()),
            _ => false,
        };
        if blank_source {
            return Err(Error::EmptyBundleId);
        }
        if is_given_blank(&self.volume_label) {
            return Err(Error::EmptyVolumeLabel);
        }
        match &self.mount_point {
            None => Err(Error::MountpointRequired),
            Some(path) => {
                if is_empty(path) {
                    return Err(Error::MountpointRequired);
                }
                match platform {
                    Platform::Linux => {
                        if !exists {
                            return Err(Error::MountpointMissing(path.clone()));
                        }
                        if !is_dir {
                            return Err(Error::MountpointNotDirectory(path.clone()));
                        }
                    },
                    Platform::Windows => {
                        if exists {
                            return Err(Error::MountpointExists(path.clone()));
                        }
                        if self.mount_options.len() != 0 {
                            return Err(Error::WindowsMountOptions);
                        }
                    },
                }
                Ok(path)
            },
        }
    }
}

/// Who may use a mount.
#[derive(Clone, Copy, Debug, PartialEq, Eq, Structural)]
pub enum SessionAcl {
    All,
    RootAndOwner,
    Owner,
}

/// An option of a FUSE mount.
#[derive(Clone, Debug, PartialEq, Eq)]
pub enum MountOption {
    FsName(String),
    Subtype(String),
    Custom(String),
    AutoUnmount,
    DefaultPermissions,
    Dev,
    NoDev,
    Suid,
    NoSuid,
    Ro,
    Rw,
    Exec,
    NoExec,
    Atime,
    NoAtime,
    DirSync,
    Sync,
    Async,
}

/// What a mount option says.
pub ghost enum Setting {
    FsName(Seq<char>),
    Subtype(Seq<char>),
    Custom(Seq<char>),
    AutoUnmount,
    DefaultPermissions,
    Dev,
    NoDev,
    Suid,
    NoSuid,
    Ro,
    Rw,
    Exec,
    NoExec,
    Atime,
    NoAtime,
    DirSync,
    Sync,
    Async,
}

impl View for MountOption {
    type V = Setting;

    open spec fn view(&self) -> Setting {
        match *self {
            MountOption::FsName(name) => Setting::FsName(name@),
            MountOption::Subtype(name) => Setting::Subtype(name@),
            MountOption::Custom(word) => Setting::Custom(word@),
            MountOption::AutoUnmount => Setting::AutoUnmount,
            MountOption::DefaultPermissions => Setting::DefaultPermissions,
            MountOption::Dev => Setting::Dev,
            MountOption::NoDev => Setting::NoDev,
            MountOption::Suid => Setting::Suid,
            MountOption::NoSuid => Setting::NoSuid,
            MountOption::Ro => Setting::Ro,
            MountOption::Rw => Setting::Rw,
            MountOption::Exec => Setting::Exec,
            MountOption::NoExec => Setting::NoExec,
            MountOption::Atime => Setting::Atime,
            MountOption::NoAtime => Setting::NoAtime,
            MountOption::DirSync => Setting::DirSync,
            MountOption::Sync => Setting::Sync,
            MountOption::Async => Setting::Async,
        }
    }
}

/// How FUSE is to mount.
#[derive(Clone, Debug)]
pub struct FuseConfig {
    pub mount_options: Vec<MountOption>,
    pub acl: SessionAcl,
}

/// What several mount options say.
pub open spec fn settings(list: Seq<MountOption>) -> Seq<Setting> {
    list.map_values(|option: MountOption| option@)
}

/// What a word among the mount options says of who may use the mount.
pub open spec fn word_acl(word: Seq<char>) -> Option<SessionAcl> {
    if word == "allow_other"@ {
        Some(SessionAcl::All)
    } else if word == "allow_root"@ {
        Some(SessionAcl::RootAndOwner)
    } else {
        None
    }
}

/// What a word among the mount options says of how to mount. A word that means nothing here is
/// handed on as it is.
pub open spec fn word_setting(word: Seq<char>) -> Setting {
    if word == "auto_unmount"@ {
        Setting::AutoUnmount
    } else if word == "default_permissions"@ {
        Setting::DefaultPermissions
    } else if word == "dev"@ {
        Setting::Dev
    } else if word == "nodev"@ {
        Setting::NoDev
    } else if word == "suid"@ {
        Setting::Suid
    } else if word == "nosuid"@ {
        Setting::NoSuid
    } else if word == "ro"@ {
        Setting::Ro
    } else if word == "rw"@ {
        Setting::Rw
    } else if word == "exec"@ {
        Setting::Exec
    } else if word == "noexec"@ {
        Setting::NoExec
    } else if word == "atime"@ {
        Setting::Atime
    } else if word == "noatime"@ {
        Setting::NoAtime
    } else if word == "dirsync"@ {
        Setting::DirSync
    } else if word == "sync"@ {
        Setting::Sync
    } else if word == "async"@ {
        Setting::Async
    } else if text::has_prefix(word, "fsname="@) {
        Setting::FsName(word.skip(7))
    } else if text::has_prefix(word, "subtype="@) {
        Setting::Subtype(word.skip(8))
    } else {
        Setting::Custom(word)
    }
}

/// Who may use a mount, and how it is mounted.
pub ghost struct Settings {
    pub options: Seq<Setting>,
    pub acl: SessionAcl,
}

/// The settings once one more word has been read; an empty word says nothing.
pub open spec fn with_word(before: Settings, word: Seq<char>) -> Settings {
    if word.len() == 0 {
        before
    } else {
        match word_acl(word) {
            Some(acl) => Settings { acl, ..before },
            None => Settings { options: before.options.push(word_setting(word)), ..before },
        }
    }
}

/// The settings once several words have been read.
pub open spec fn with_words(before: Settings, words: Seq<Seq<char>>) -> Settings
    decreases words.len(),
{
    if words.len() == 0 {
        before
    } else {
        with_word(with_words(before, words.drop_last()), words.last())
    }
}

/// The settings once several lists of words have been read, each with commas between its words.
pub open spec fn with_lists(before: Settings, lists: Seq<String>) -> Settings
    decreases lists.len(),
{
    if lists.len() == 0 {
        before
    } else {
        with_words(with_lists(before, lists.drop_last()), text::pieces(lists.last()@, ','))
    }
}

/// The settings of a mount without options: FUSE is told the name of the filesystem, and only its
/// owner may use it.
pub open spec fn plain_settings() -> Settings {
    Settings {
        options: seq![Setting::FsName("ifuse-rs"@), Setting::Subtype("ifuse-rs"@)],
        acl: SessionAcl::Owner,
    }
}

proof fn lemma_words_joined(before: Settings, first: Seq<Seq<char>>, second: Seq<Seq<char>>)
    ensures
        with_words(before, first + second) == with_words(with_words(before, first), second),
    decreases second.len(),
{
    let all = first + second;
    if second.len() == 0 {
        assert(all =~= first);
    } else {
        lemma_words_joined(before, first, second.drop_last());
        assert(all.drop_last() =~= first + second.drop_last());
    }
}

/// It does not matter whether options are given one by one or in one list with commas between them:
/// a list says what its two halves say one after the other.
pub proof fn law_lists_may_be_split(before: Settings, first: Seq<char>, second: Seq<char>)
    ensures
        with_words(before, text::pieces(first + seq![','] + second, ',')) == with_words(
            with_words(before, text::pieces(first, ',')),
            text::pieces(second, ','),
        ),
{
    text::law_pieces_of_joined(first, second, ',');
    lemma_words_joined(before, text::pieces(first, ','), text::pieces(second, ','));
}

/// What follows the first `count` characters.
fn rest_of(word: &[char], count: usize) -> (r: String)
    requires
        count <= word@.len(),
    ensures
        r@ == word@.skip(count as int),
{
    let rest: &[char] = vstd::slice::slice_subrange(word, count, word.len());
    assert(rest@ =~= word@.skip(count as int));
    text::text(rest)
}

/// What a word among the mount options says of how to mount.
fn mount_option(word: &[char]) -> (r: MountOption)
    ensures
        r@ == word_setting(word@),
{
    let whole: String = text::text(word);
    let s: &str = whole.as_str();
    if text::same(s, "auto_unmount") {
        MountOption::AutoUnmount
    } else if text::same(s, "default_permissions") {
        MountOption::DefaultPermissions
    } else if text::same(s, "dev") {
        MountOption::Dev
    } else if text::same(s, "nodev") {
        MountOption::NoDev
    } else if text::same(s, "suid") {
        MountOption::Suid
    } else if text::same(s, "nosuid") {
        MountOption::NoSuid
    } else if text::same(s, "ro") {
        MountOption::Ro
    } else if text::same(s, "rw") {
        MountOption::Rw
    } else if text::same(s, "exec") {
        MountOption::Exec
    } else if text::same(s, "noexec") {
        MountOption::NoExec
    } else if text::same(s, "atime") {
        MountOption::Atime
    } else if text::same(s, "noatime") {
        MountOption::NoAtime
    } else if text::same(s, "dirsync") {
        MountOption::DirSync
    } else if text::same(s, "sync") {
        MountOption::Sync
    } else if text::same(s, "async") {
        MountOption::Async
    } else {
        proof {
            reveal_strlit("fsname=");
            reveal_strlit("subtype=");
            assert("fsname="@.len() == 7);
            assert("subtype="@.len() == 8);
        }
        let fs_name: Vec<char> = text::chars("fsname=");
        let subtype: Vec<char> = text::chars("subtype=");
        if text::starts_with(word, fs_name.as_slice()) {
            MountOption::FsName(rest_of(word, 7))
        } else if text::starts_with(word, subtype.as_slice()) {
            MountOption::Subtype(rest_of(word, 8))
        } else {
            MountOption::Custom(whole)
        }
    }
}

impl FuseConfig {
    /// Who may use the mount, and how it is mounted.
    pub open spec fn settings(self) -> Settings {
        Settings { options: settings(self.mount_options@), acl: self.acl }
    }

    /// Reads one more word.
    fn read_word(&mut self, word: &[char])
        ensures
            final(self).settings() == with_word(old(self).settings(), word@),
    {
        if word.len() == 0 {
            return;
        }
        let whole: String = text::text(word);
        if text::same(whole.as_str(), "allow_other") {
            self.acl = SessionAcl::All;
        } else if text::same(whole.as_str(), "allow_root") {
            self.acl = SessionAcl::RootAndOwner;
        } else {
            let option: MountOption = mount_option(word);
            let ghost said = option@;
            self.mount_options.push(option);
            assert(settings(self.mount_options@) =~= settings(old(self).mount_options@).push(said));
        }
    }

    /// Reads several words with commas between them.
    fn read_list(&mut self, list: &str)
        ensures
            final(self).settings() == with_words(old(self).settings(), text::pieces(list@, ',')),
    {
        let letters: Vec<char> = text::chars(list);
        let words: Vec<Vec<char>> = text::split(letters.as_slice(), ',');
        let ghost parts = text::pieces(list@, ',');
        let mut i: usize = 0;
        assert(parts.take(0) =~= Seq::<Seq<char>>::empty());
        while i < words.len()
            invariant
                i <= words@.len(),
                words@.len() == parts.len(),
                forall|j: int| 0 <= j < words@.len() ==> (#[trigger] words@[j])@ == parts[j],
                self.settings() == with_words(old(self).settings(), parts.take(i as int)),
            decreases words.len() - i,
        {
            assert(parts.take(i + 1).drop_last() =~= parts.take(i as int));
            self.read_word(words[i].as_slice());
            i += 1;
        }
        assert(parts.take(i as int) =~= parts);
    }
}

impl IfuseBuilder {
    /// How FUSE is to mount.
    pub fn fuser_config(&self) -> (r: Result<FuseConfig>)
        ensures
            r matches Ok(config) && config.settings() == with_lists(
                plain_settings(),
                self.mount_options@,
            ),
    {
        let mut options: Vec<MountOption> = Vec::new();
        options.push(MountOption::FsName(String::from("ifuse-rs")));
        options.push(MountOption::Subtype(String::from("ifuse-rs")));
        let mut config = FuseConfig { mount_options: options, acl: SessionAcl::Owner };
        assert(settings(config.mount_options@) =~= plain_settings().options);
        let ghost lists = self.mount_options@;
        let mut i: usize = 0;
        assert(lists.take(0) =~= Seq::<String>::empty());
        while i < self.mount_options.len()
            invariant
                i <= self.mount_options@.len(),
                lists == self.mount_options@,
                config.settings() == with_lists(plain_settings(), lists.take(i as int)),
            decreases self.mount_options.len() - i,
        {
            assert(lists.take(i + 1).drop_last() =~= lists.take(i as int));
            config.read_list(self.mount_options[i].as_str());
            i += 1;
        }
        assert(lists.take(i as int) =~= lists);
        Ok(config)
    }
}

} // verus!
