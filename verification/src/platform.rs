//! The target platform of a translation: a closed set of operating-system
//! families. Several Linux-like variants are kept distinct for display but
//! resolve to the Linux knowledge-base field when a command is translated.

use vstd::prelude::*;

verus! {

/// An operating-system/environment family that a command can be translated to.
#[derive(Debug, PartialEq, Eq, Clone, Copy, Structural)]
pub enum Platform {
    Linux,
    MacOS,
    Windows,
    WSL,
    Docker,
    GitBash,
    Unknown,
}

/// The display name of a platform, as embedded in oracle prompts.
pub open spec fn spec_platform_name(p: Platform) -> Seq<char> {
    match p {
        Platform::Linux => "linux"@,
        Platform::MacOS => "macos"@,
        Platform::Windows => "windows"@,
        Platform::WSL => "wsl"@,
        Platform::Docker => "docker"@,
        Platform::GitBash => "gitbash"@,
        Platform::Unknown => "unknown"@,
    }
}

/// True of every platform whose knowledge-base lookups and path conventions
/// follow Linux: Linux itself and the Linux-like variants.
pub open spec fn is_linux_family(p: Platform) -> bool {
    p == Platform::Linux || p == Platform::WSL || p == Platform::Docker || p == Platform::GitBash
}

impl Platform {
    /// The lower-case display name of the platform.
    pub fn display_name(&self) -> (r: String)
        ensures
            r@ == spec_platform_name(*self),
    {
        match self {
            Platform::Linux => "linux".to_owned(),
            Platform::MacOS => "macos".to_owned(),
            Platform::Windows => "windows".to_owned(),
            Platform::WSL => "wsl".to_owned(),
            Platform::Docker => "docker".to_owned(),
            Platform::GitBash => "gitbash".to_owned(),
            Platform::Unknown => "unknown".to_owned(),
        }
    }

    /// True of Linux and the Linux-like variants (WSL, Docker, Git Bash),
    /// which all resolve to the Linux knowledge-base field.
    pub fn linux_family(&self) -> (r: bool)
        ensures
            r == is_linux_family(*self),
    {
        match self {
            Platform::Linux | Platform::WSL | Platform::Docker | Platform::GitBash => true,
            _ => false,
        }
    }
}

} // verus!
