//! The platform a page is looked up for: a closed set of known operating
//! system names plus an open variant for anything unrecognized.
use vstd::prelude::*;

use crate::text::{trim_spaces, trimmed, str_eq};

verus! {

/// One of the known platform folders, or an arbitrary name.
#[derive(Debug, PartialEq, Eq)]
pub enum Platform {
    Common,
    Linux,
    Osx,
    Windows,
    Android,
    Sunos,
    Other(String),
}

/// The mathematical value of a `Platform`: the open variant carries the
/// characters of its name.
pub enum PlatformV {
    Common,
    Linux,
    Osx,
    Windows,
    Android,
    Sunos,
    Other(Seq<char>),
}

impl View for Platform {
    type V = PlatformV;

    open spec fn view(&self) -> PlatformV {
        match self {
            Platform::Common => PlatformV::Common,
            Platform::Linux => PlatformV::Linux,
            Platform::Osx => PlatformV::Osx,
            Platform::Windows => PlatformV::Windows,
            Platform::Android => PlatformV::Android,
            Platform::Sunos => PlatformV::Sunos,
            Platform::Other(s) => PlatformV::Other(s@),
        }
    }
}

impl Clone for Platform {
    fn clone(&self) -> (r: Self)
        ensures
            r@ == self@,
    {
        match self {
            Platform::Common => Platform::Common,
            Platform::Linux => Platform::Linux,
            Platform::Osx => Platform::Osx,
            Platform::Windows => Platform::Windows,
            Platform::Android => Platform::Android,
            Platform::Sunos => Platform::Sunos,
            Platform::Other(s) => Platform::Other(s.clone()),
        }
    }
}

/// The folder name a platform selects; the open variant prints verbatim.
pub open spec fn platform_name(p: PlatformV) -> Seq<char> {
    match p {
        PlatformV::Common => "common"@,
        PlatformV::Linux => "linux"@,
        PlatformV::Osx => "osx"@,
        PlatformV::Windows => "windows"@,
        PlatformV::Android => "android"@,
        PlatformV::Sunos => "sunos"@,
        PlatformV::Other(s) => s,
    }
}

/// What parsing a platform request yields: known lowercase names map to
/// their variant, the empty (trimmed) string to the host default, and
/// anything else is kept verbatim as an open platform name.
pub open spec fn parse_platform_spec(s: Seq<char>, host: PlatformV) -> PlatformV {
    let t = trim_spaces(s);
    if t == "linux"@ {
        PlatformV::Linux
    } else if t == "osx"@ || t == "macos"@ {
        PlatformV::Osx
    } else if t == "windows"@ {
        PlatformV::Windows
    } else if t == "android"@ {
        PlatformV::Android
    } else if t == "sunos"@ {
        PlatformV::Sunos
    } else if t.len() == 0 {
        host
    } else {
        PlatformV::Other(t)
    }
}

/// The platform the host operating system name maps to. An unrecognized
/// host falls back to the open variant holding the text `common`, not to
/// the `Common` variant itself; that asymmetry is deliberate, since the
/// displayed folder name is the same either way.
pub open spec fn host_default_spec(os: Seq<char>) -> PlatformV {
    if os == "linux"@ {
        PlatformV::Linux
    } else if os == "macos"@ || os == "ios"@ {
        PlatformV::Osx
    } else if os == "windows"@ {
        PlatformV::Windows
    } else if os == "android"@ {
        PlatformV::Android
    } else {
        PlatformV::Other("common"@)
    }
}

impl Platform {
    /// The folder name this platform selects under a language folder.
    pub fn name(&self) -> (r: String)
        ensures
            r@ == platform_name(self@),
    {
        match self {
            Platform::Common => "common".to_owned(),
            Platform::Linux => "linux".to_owned(),
            Platform::Osx => "osx".to_owned(),
            Platform::Windows => "windows".to_owned(),
            Platform::Android => "android".to_owned(),
            Platform::Sunos => "sunos".to_owned(),
            Platform::Other(s) => s.clone(),
        }
    }

    /// Whether this is the platform-agnostic `common` tier.
    pub fn is_common(&self) -> (r: bool)
        ensures
            r == (self@ is Common),
    {
        match self {
            Platform::Common => true,
            _ => false,
        }
    }

    /// Parses a requested platform name. Never fails: the trimmed text
    /// either names a known platform, is empty (the host default is taken),
    /// or is kept verbatim.
    pub fn parse(s: &str, host: Platform) -> (r: Platform)
        ensures
            r@ == parse_platform_spec(s@, host@),
    {
        let t = trimmed(s);
        if str_eq(t.as_str(), "linux") {
            Platform::Linux
        } else if str_eq(t.as_str(), "osx") || str_eq(t.as_str(), "macos") {
            Platform::Osx
        } else if str_eq(t.as_str(), "windows") {
            Platform::Windows
        } else if str_eq(t.as_str(), "android") {
            Platform::Android
        } else if str_eq(t.as_str(), "sunos") {
            Platform::Sunos
        } else if t.as_str().unicode_len() == 0 {
            host
        } else {
            Platform::Other(t)
        }
    }

    /// The platform the host operating system name maps to; the caller
    /// passes the host's name (as `std::env::consts::OS` spells it).
    pub fn host_default(os: &str) -> (r: Platform)
        ensures
            r@ == host_default_spec(os@),
    {
        if str_eq(os, "linux") {
            Platform::Linux
        } else if str_eq(os, "macos") || str_eq(os, "ios") {
            Platform::Osx
        } else if str_eq(os, "windows") {
            Platform::Windows
        } else if str_eq(os, "android") {
            Platform::Android
        } else {
            Platform::Other("common".to_owned())
        }
    }
}

} // verus!
