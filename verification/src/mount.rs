//! A mount from its start to its end: what a command line asks for, and how a mount is taken down.

use std::path::PathBuf;
use vstd::prelude::*;
use vstd::string::*;

use crate::options::{DeviceTarget, IfuseBuilder, MountSource};

verus! {

/// What was given on the command line.
#[derive(Clone, Debug)]
pub struct Cli {
    /// The mount point, after a device that is ignored where two are given.
    pub positional: Vec<PathBuf>,
    pub mount_options: Vec<String>,
    pub udid: Option<String>,
    pub network: bool,
    pub root: bool,
    pub documents: Option<String>,
    pub container: Option<String>,
    pub list_apps: bool,
    pub debug: bool,
}

/// What a command line asks for.
#[derive(Debug)]
pub enum Plan {
    ListApps(DeviceTarget),
    Mount(IfuseBuilder),
}

impl Cli {
    /// The device that is asked for.
    pub open spec fn target(self) -> DeviceTarget {
        if self.network {
            DeviceTarget::UsbmuxdNetwork { udid: self.udid }
        } else {
            DeviceTarget::Usb { udid: self.udid }
        }
    }

    /// What of the device is asked for.
    pub open spec fn source(self) -> MountSource {
        match (self.root, self.documents, self.container) {
            (true, _, _) => MountSource::Root,
            (false, Some(bundle_id), _) => MountSource::Documents { bundle_id },
            (false, None, Some(bundle_id)) => MountSource::Container { bundle_id },
            (false, None, None) => MountSource::Media,
        }
    }
}

/// What a command line asks for, or what is wrong with it.
pub fn plan(cli: Cli) -> (r: std::result::Result<Plan, String>)
    ensures
        if cli.list_apps {
            if cli.positional@.len() > 0 {
                r matches Err(words) && words@ == "--list-apps does not accept a mountpoint"@
            } else {
                r == Ok::<Plan, String>(Plan::ListApps(cli.target()))
            }
        } else if cli.positional@.len() == 0 {
            r matches Err(words) && words@ == "no mountpoint specified"@
        } else {
            r matches Ok(Plan::Mount(builder)) && {
                &&& builder.target == cli.target()
                &&& builder.mount_point == Some(cli.positional@.last())
                &&& builder.source == cli.source()
                &&& builder.mount_options == cli.mount_options
                &&& builder.volume_label is None
            }
        },
{
    let target = if cli.network {
        DeviceTarget::UsbmuxdNetwork { udid: cli.udid }
    } else {
        DeviceTarget::Usb { udid: cli.udid }
    };
    let mut positional: Vec<PathBuf> = cli.positional;
    let last: Option<PathBuf> = positional.pop();
    if cli.list_apps {
        return match last {
            Some(_) => Err("--list-apps does not accept a mountpoint".to_owned()),
            None => Ok(Plan::ListApps(target)),
        };
    }
    let mount_point: PathBuf = match last {
        Some(path) => path,
        None => {
            return Err("no mountpoint specified".to_owned());
        },
    };
    let source = if cli.root {
        MountSource::Root
    } else {
        match (cli.documents, cli.container) {
            (Some(bundle_id), _) => MountSource::Documents { bundle_id },
            (None, Some(bundle_id)) => MountSource::Container { bundle_id },
            (None, None) => MountSource::Media,
        }
    };
    Ok(
        Plan::Mount(
            IfuseBuilder::with_target(target).mount_point(mount_point).source(
                source,
            ).mount_options(cli.mount_options),
        ),
    )
}

/// How much is logged, where the environment does not say.
pub fn log_filter(debug: bool) -> (r: &'static str)
    ensures
        r@ == (if debug {
            "debug"@
        } else {
            "warn"@
        }),
{
    if debug {
        "debug"
    } else {
        "warn"
    }
}

/// What a volume of Windows is called: as it was asked for, or after the model of the device.
pub fn volume_label(asked: Option<String>, model: String) -> (r: String)
    ensures
        r@ == (match asked {
            Some(label) => label@,
            None => if model@.len() == 0 {
                "iPhone"@
            } else {
                model@
            },
        }),
{
    match asked {
        Some(label) => label,
        None => if model.as_str().unicode_len() == 0 {
            "iPhone".to_owned()
        } else {
            model
        },
    }
}

/// What happens while a mount is up.
#[derive(Clone, Copy, Debug, PartialEq, Eq, Structural)]
pub enum Event {
    /// The process is asked to end.
    Signal,
    /// Some time has passed, and the mount is still up or not.
    Tick { mounted: bool },
}

/// What to do about it.
#[derive(Clone, Copy, Debug, PartialEq, Eq, Structural)]
pub enum Watch {
    /// Unmount, and end.
    Unmount,
    Wait,
    End,
}

/// What to do about something that happens while a mount is up.
pub fn watch(event: Event) -> (r: Watch)
    ensures
        r == (match event {
            Event::Signal => Watch::Unmount,
            Event::Tick { mounted: true } => Watch::Wait,
            Event::Tick { mounted: false } => Watch::End,
        }),
{
    match event {
        Event::Signal => Watch::Unmount,
        Event::Tick { mounted } => if mounted {
            Watch::Wait
        } else {
            Watch::End
        },
    }
}

/// Whether a filesystem is served.
#[derive(Clone, Copy, Debug, PartialEq, Eq, Structural)]
pub enum SessionState {
    /// It is.
    Running,
    /// Nobody is served any more, but the session has not been ended.
    Finished,
    /// The session was ended, or is being ended.
    Taken,
}

/// What to do next to take a mount down.
#[derive(Clone, Copy, Debug, PartialEq, Eq, Structural)]
pub enum UnmountStep {
    /// End the session; where that fails, the mount is not taken down further.
    EndSession,
    /// Stop talking to the device.
    StopBackend,
    /// Nothing: the mount is down.
    Done,
}

/// A mount: where it is, of which device, and what of it is still up.
#[derive(Debug)]
pub struct MountHandle {
    pub mount_point: PathBuf,
    pub target: DeviceTarget,
    pub session: SessionState,
    pub backend: bool,
}

/// What of a mount is still up.
pub ghost struct Parts {
    pub session: SessionState,
    pub backend: bool,
}

/// What to do next to take a mount down, and what is up then.
pub open spec fn taken_down(parts: Parts) -> (Parts, UnmountStep) {
    if parts.session != SessionState::Taken {
        (Parts { session: SessionState::Taken, ..parts }, UnmountStep::EndSession)
    } else if parts.backend {
        (Parts { backend: false, ..parts }, UnmountStep::StopBackend)
    } else {
        (parts, UnmountStep::Done)
    }
}

/// A mount is down after two steps, each part is ended once and the session before the connection
/// to the device, and unmounting again does nothing.
pub proof fn law_unmounting_is_idempotent(parts: Parts)
    ensures
        ({
            let (first, a) = taken_down(parts);
            let (second, b) = taken_down(first);
            let (third, c) = taken_down(second);
            &&& c == UnmountStep::Done
            &&& third == second
            &&& second == (Parts { session: SessionState::Taken, backend: false })
            &&& a == UnmountStep::EndSession <==> parts.session != SessionState::Taken
            &&& b != UnmountStep::EndSession
            &&& parts.backend <==> a == UnmountStep::StopBackend || b == UnmountStep::StopBackend
        }),
{
}

impl MountHandle {
    /// What of the mount is still up.
    pub open spec fn parts(self) -> Parts {
        Parts { session: self.session, backend: self.backend }
    }

    /// A mount that was just made.
    pub fn new(mount_point: PathBuf, target: DeviceTarget) -> (r: Self)
        ensures
            r.mount_point == mount_point,
            r.target == target,
            r.parts() == (Parts { session: SessionState::Running, backend: true }),
    {
        MountHandle { mount_point, target, session: SessionState::Running, backend: true }
    }

    /// Where the mount is.
    pub fn mount_point(&self) -> (r: &PathBuf)
        ensures
            *r == self.mount_point,
    {
        &self.mount_point
    }

    /// Which device is mounted.
    pub fn target(&self) -> (r: &DeviceTarget)
        ensures
            *r == self.target,
    {
        &self.target
    }

    /// Whether the mount is up.
    pub fn is_mounted(&self) -> (r: bool)
        ensures
            r == (self.session == SessionState::Running),
    {
        self.session == SessionState::Running
    }

    /// Takes note of whether the filesystem is still served.
    pub fn observe(&mut self, finished: bool)
        ensures
            final(self).session == (if finished && old(self).session == SessionState::Running {
                SessionState::Finished
            } else {
                old(self).session
            }),
            final(self).backend == old(self).backend,
            final(self).mount_point == old(self).mount_point,
            final(self).target == old(self).target,
    {
        if finished && self.session == SessionState::Running {
            self.session = SessionState::Finished;
        }
    }

    /// What to do next to take the mount down. A mount whose session could not be ended counts as
    /// unmounted, and its connection to the device is ended when it is unmounted again.
    pub fn unmount(&mut self) -> (r: UnmountStep)
        ensures
            (final(self).parts(), r) == taken_down(old(self).parts()),
            final(self).mount_point == old(self).mount_point,
            final(self).target == old(self).target,
    {
        if self.session != SessionState::Taken {
            self.session = SessionState::Taken;
            UnmountStep::EndSession
        } else if self.backend {
            self.backend = false;
            UnmountStep::StopBackend
        } else {
            UnmountStep::Done
        }
    }
}

} // verus!
