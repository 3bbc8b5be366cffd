//! The identity stores: which ones a platform family has, in what order they
//! are tried, where each one is found, and when its answer counts.

use crate::error::AccessError;
use vstd::prelude::*;

verus! {

/// A family of operating systems that keep the identifier in the same way.
#[derive(Clone, Copy, Debug, PartialEq, Eq, Structural)]
pub enum Platform {
    Windows,
    Linux,
    /// The other Unix systems: the BSD and Solaris families.
    Unix,
    MacOs,
}

/// One identity store.
#[derive(Clone, Copy, Debug, PartialEq, Eq, Structural)]
pub enum Source {
    /// The registry value that holds the cryptographic machine GUID of a
    /// Windows installation.
    MachineGuid,
    /// The machine-id file of Linux.
    MachineIdFile,
    /// The machine-id file that D-Bus keeps.
    DbusMachineIdFile,
    /// The host UUID that the kernel control interface gives.
    KernelHostUuid,
    /// The host-id file.
    HostIdFile,
    /// The platform UUID in the I/O registry of macOS.
    PlatformUuid,
}

/// Where a store is found.
#[derive(Clone, Copy, Debug)]
pub enum Location {
    /// A named value under a key of `HKEY_LOCAL_MACHINE`.
    RegistryValue { key: &'static str, name: &'static str },
    /// A file.
    File { path: &'static str },
    /// A setting of the kernel control interface, by its two-level selector.
    KernelControl { selector: [i32; 2] },
    /// A named property of an entry of the I/O registry.
    RegistryProperty { entry: &'static str, name: &'static str },
}

/// The first level of the selector: the kernel's own settings.
pub const CTL_KERN: i32 = 1;

/// The second level of the selector: the host UUID.
pub const KERN_HOSTUUID: i32 = 0x24;

/// What came of reading a store: the raw text, or why there is none.
pub type Outcome = Result<String, AccessError>;

/// An outcome as plain values.
pub type OutcomeModel = Result<Seq<char>, AccessError>;

/// The plain values of an outcome.
pub open spec fn outcome_model(outcome: Outcome) -> OutcomeModel {
    match outcome {
        Ok(text) => Ok(text@),
        Err(e) => Err(e),
    }
}

impl Platform {
    /// The stores of the platform, in the order in which they are tried.
    pub open spec fn sources(self) -> Seq<Source> {
        match self {
            Platform::Windows => seq![Source::MachineGuid],
            Platform::Linux => seq![Source::MachineIdFile, Source::DbusMachineIdFile],
            Platform::Unix => seq![Source::KernelHostUuid, Source::HostIdFile],
            Platform::MacOs => seq![Source::PlatformUuid],
        }
    }

    /// The store that is tried first.
    pub fn first_source(self) -> (source: Source)
        ensures
            source == self.sources()[0],
    {
        match self {
            Platform::Windows => Source::MachineGuid,
            Platform::Linux => Source::MachineIdFile,
            Platform::Unix => Source::KernelHostUuid,
            Platform::MacOs => Source::PlatformUuid,
        }
    }

    /// The store that is tried after `position` stores have failed, if one
    /// is left.
    pub fn source_at(self, position: usize) -> (source: Option<Source>)
        ensures
            source == (if position < self.sources().len() {
                Some(self.sources()[position as int])
            } else {
                None
            }),
    {
        match (self, position) {
            (Platform::Windows, 0) => Some(Source::MachineGuid),
            (Platform::Linux, 0) => Some(Source::MachineIdFile),
            (Platform::Linux, 1) => Some(Source::DbusMachineIdFile),
            (Platform::Unix, 0) => Some(Source::KernelHostUuid),
            (Platform::Unix, 1) => Some(Source::HostIdFile),
            (Platform::MacOs, 0) => Some(Source::PlatformUuid),
            _ => None,
        }
    }

    /// Every platform has a store.
    pub proof fn lemma_has_source(self)
        ensures
            1 <= self.sources().len() <= 2,
    {
    }
}

impl Source {
    /// Whether an empty answer of this store counts as a failed read. Only
    /// the machine-id file of Linux is held to this.
    pub open spec fn rejects_empty(self) -> bool {
        self == Source::MachineIdFile
    }

    /// What the chain makes of an outcome of this store: an empty text from a
    /// store that rejects it is a failure of its own kind, invalid data, and
    /// every other outcome stands as it is.
    pub open spec fn checked(self, outcome: OutcomeModel) -> OutcomeModel {
        match outcome {
            Ok(text) => if self.rejects_empty() && text.len() == 0 {
                Err(AccessError::InvalidData)
            } else {
                Ok(text)
            },
            Err(e) => Err(e),
        }
    }

    /// Where this store is found.
    pub open spec fn location_of(self) -> Location {
        match self {
            Source::MachineGuid => Location::RegistryValue {
                key: "SOFTWARE\\Microsoft\\Cryptography",
                name: "MachineGuid",
            },
            Source::MachineIdFile => Location::File { path: "/etc/machine-id" },
            Source::DbusMachineIdFile => Location::File { path: "/var/lib/dbus/machine-id" },
            Source::KernelHostUuid => Location::KernelControl {
                selector: [CTL_KERN, KERN_HOSTUUID],
            },
            Source::HostIdFile => Location::File { path: "/etc/hostid" },
            Source::PlatformUuid => Location::RegistryProperty {
                entry: "IOService:/",
                name: "IOPlatformUUID",
            },
        }
    }

    /// Where this store is found.
    pub fn location(self) -> (location: Location)
        ensures
            location == self.location_of(),
    {
        match self {
            Source::MachineGuid => Location::RegistryValue {
                key: "SOFTWARE\\Microsoft\\Cryptography",
                name: "MachineGuid",
            },
            Source::MachineIdFile => Location::File { path: "/etc/machine-id" },
            Source::DbusMachineIdFile => Location::File { path: "/var/lib/dbus/machine-id" },
            Source::KernelHostUuid => Location::KernelControl {
                selector: [CTL_KERN, KERN_HOSTUUID],
            },
            Source::HostIdFile => Location::File { path: "/etc/hostid" },
            Source::PlatformUuid => Location::RegistryProperty {
                entry: "IOService:/",
                name: "IOPlatformUUID",
            },
        }
    }

    /// Applies the rule on empty answers to the outcome of a read.
    pub fn check(self, outcome: Outcome) -> (checked: Outcome)
        ensures
            outcome_model(checked) == self.checked(outcome_model(outcome)),
    {
        match outcome {
            Ok(text) => {
                if self == Source::MachineIdFile && text.as_str().is_empty() {
                    Err(AccessError::InvalidData)
                } else {
                    Ok(text)
                }
            },
            Err(e) => Err(e),
        }
    }
}

} // verus!
