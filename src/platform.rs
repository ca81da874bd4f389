use vstd::prelude::*;

use crate::text::text_eq;

verus! {

/// The platforms for which releases are published.
#[derive(Clone, Copy, Debug, PartialEq, Eq, Structural)]
pub enum Platform {
    LinuxAmd64,
    LinuxAarch64,
    MacOsAmd64,
    MacOsAarch64,
    WindowsAmd64,
    Unsupported,
}

/// The name of a platform.
pub open spec fn platform_name(p: Platform) -> Seq<char> {
    match p {
        Platform::LinuxAmd64 => "linux-amd64"@,
        Platform::LinuxAarch64 => "linux-aarch64"@,
        Platform::MacOsAmd64 => "macosx-amd64"@,
        Platform::MacOsAarch64 => "macosx-aarch64"@,
        Platform::WindowsAmd64 => "windows-amd64"@,
        Platform::Unsupported => "Unsupported-platform"@,
    }
}

/// The platform of a host with operating system `os` and CPU architecture `arch`, named
/// as Rust names them (`linux`, `x86_64`, ...).
pub open spec fn host_platform(os: Seq<char>, arch: Seq<char>) -> Platform {
    if os == "linux"@ && arch == "x86_64"@ {
        Platform::LinuxAmd64
    } else if os == "linux"@ && arch == "aarch64"@ {
        Platform::LinuxAarch64
    } else if os == "macos"@ && arch == "x86_64"@ {
        Platform::MacOsAmd64
    } else if os == "macos"@ && arch == "aarch64"@ {
        Platform::MacOsAarch64
    } else if os == "windows"@ && arch == "x86_64"@ {
        Platform::WindowsAmd64
    } else {
        Platform::Unsupported
    }
}

impl Platform {
    /// The platform's name.
    pub fn name(&self) -> (r: &'static str)
        ensures
            r@ == platform_name(*self),
    {
        match self {
            Platform::LinuxAmd64 => "linux-amd64",
            Platform::LinuxAarch64 => "linux-aarch64",
            Platform::MacOsAmd64 => "macosx-amd64",
            Platform::MacOsAarch64 => "macosx-aarch64",
            Platform::WindowsAmd64 => "windows-amd64",
            Platform::Unsupported => "Unsupported-platform",
        }
    }
}

/// The platform of a host with operating system `os` and CPU architecture `arch`.
pub fn platform_of(os: &str, arch: &str) -> (r: Platform)
    ensures
        r == host_platform(os@, arch@),
{
    let linux = text_eq(os, "linux");
    let macos = text_eq(os, "macos");
    let windows = text_eq(os, "windows");
    let x86_64 = text_eq(arch, "x86_64");
    let aarch64 = text_eq(arch, "aarch64");
    if linux && x86_64 {
        Platform::LinuxAmd64
    } else if linux && aarch64 {
        Platform::LinuxAarch64
    } else if macos && x86_64 {
        Platform::MacOsAmd64
    } else if macos && aarch64 {
        Platform::MacOsAarch64
    } else if windows && x86_64 {
        Platform::WindowsAmd64
    } else {
        Platform::Unsupported
    }
}

} // verus!
