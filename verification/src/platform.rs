//! Platform description: operating system, pointer width, host branch
//! detection, the compile-time calling-convention selection, and the
//! per-platform mangled names of the host console functions.

use vstd::prelude::*;

use crate::text::str_eq;

verus! {

/// Operating systems the host ships on.
#[derive(Clone, Copy, PartialEq, Eq, Structural, Debug)]
pub enum Os {
    Windows,
    Linux,
    MacOs,
}

/// Width of the process's pointers, which decides which module layout the
/// host installation uses.
#[derive(Clone, Copy, PartialEq, Eq, Structural, Debug)]
pub enum PointerWidth {
    W32,
    W64,
}

/// The closed set of native calling conventions a resolved entry point can
/// use. The interpreter's own entry points always use the C convention with
/// unwinding; host-engine functions use a platform-idiomatic convention.
#[derive(Clone, Copy, PartialEq, Eq, Structural, Debug)]
pub enum CallConv {
    /// The interpreter's uniform cross-platform C convention.
    CUnwind,
    /// The 64-bit register convention used by host-engine functions on
    /// 64-bit builds.
    Reg64,
    /// The this-pointer-first convention used by host-engine member
    /// functions on 32-bit Windows.
    ThisCall,
    /// The standard flat convention on other 32-bit platforms.
    Cdecl,
}

/// Convention used for the interpreter's own entry points: uniform on all
/// platforms.
pub fn interpreter_call_conv() -> (r: CallConv)
    ensures
        r == CallConv::CUnwind,
{
    CallConv::CUnwind
}

/// What `host_call_conv` returns, so callers can reason about the selection
/// without running it.
pub open spec fn spec_host_call_conv(os: Os, width: PointerWidth) -> CallConv {
    match width {
        PointerWidth::W64 => CallConv::Reg64,
        PointerWidth::W32 => match os {
            Os::Windows => CallConv::ThisCall,
            _ => CallConv::Cdecl,
        },
    }
}

/// Convention used for host-engine functions that are hooked or located by
/// pattern scanning. The selection depends only on the platform, never on a
/// run-time value, so a build sees exactly one convention.
pub fn host_call_conv(os: Os, width: PointerWidth) -> (r: CallConv)
    ensures
        r == spec_host_call_conv(os, width),
{
    match width {
        PointerWidth::W64 => CallConv::Reg64,
        PointerWidth::W32 => match os {
            Os::Windows => CallConv::ThisCall,
            _ => CallConv::Cdecl,
        },
    }
}

/// Decision behind `is_x86_64`: whether the probes taken by the caller show
/// the sixty-four-bit host branch.
///
/// On 64-bit builds the answer is always yes. On 32-bit builds the caller
/// probes the installation: on Windows and macOS, whether a marker file of
/// the sixty-four-bit branch exists (`probe_file`); on Linux, the name of
/// the running executable decides, and only when it is not a known server
/// binary does a probe of the `bin/linux64` directory (`probe_dir`) decide.
pub open spec fn spec_is_x86_64(
    os: Os,
    width: PointerWidth,
    exe_name: Seq<char>,
    probe_file: bool,
    probe_dir: bool,
) -> bool {
    match width {
        PointerWidth::W64 => true,
        PointerWidth::W32 => match os {
            Os::Windows => probe_file,
            Os::MacOs => probe_file,
            Os::Linux => {
                if exe_name == "srcds_linux"@ {
                    false
                } else if exe_name == "srcds"@ {
                    true
                } else {
                    probe_dir
                }
            },
        },
    }
}

/// Exec form of `spec_is_x86_64`: decides the host branch from the probe
/// results the caller gathered.
pub fn is_x86_64_from_probes(
    os: Os,
    width: PointerWidth,
    exe_name: &str,
    probe_file: bool,
    probe_dir: bool,
) -> (r: bool)
    ensures
        r == spec_is_x86_64(os, width, exe_name@, probe_file, probe_dir),
{
    match width {
        PointerWidth::W64 => true,
        PointerWidth::W32 => match os {
            Os::Windows => probe_file,
            Os::MacOs => probe_file,
            Os::Linux => {
                if str_eq(exe_name, "srcds_linux") {
                    false
                } else if str_eq(exe_name, "srcds") {
                    true
                } else {
                    probe_dir
                }
            },
        },
    }
}

/// File to probe when deciding the branch on a 32-bit build: the marker of
/// the sixty-four-bit variant on Windows, the interpreter module of the
/// sixty-four-bit branch on macOS, and the 64-bit binary directory on Linux.
pub fn x86_64_probe_path(os: Os) -> (r: &'static str)
    ensures
        os == Os::Windows ==> r@ == "srcds_win64.exe"@,
        os == Os::MacOs ==> r@ == "garrysmod/bin/lua_shared.dylib"@,
        os == Os::Linux ==> r@ == "bin/linux64"@,
{
    match os {
        Os::Windows => "srcds_win64.exe",
        Os::MacOs => "garrysmod/bin/lua_shared.dylib",
        Os::Linux => "bin/linux64",
    }
}

/// Exported names of the host console-print function, in the order they
/// should be tried. The mangled string differs per operating system,
/// compiler and width, and the right one is picked from the build's
/// platform, never at run time.
pub fn conmsg_symbol_names(os: Os, width: PointerWidth) -> (r: Vec<&'static str>)
    ensures
        os == Os::Windows && width == PointerWidth::W64 ==> r@.map_values(|s: &str| s@)
            =~= seq!["?ConMsg@@YAXPEBDZZ"@],
        os == Os::Windows && width == PointerWidth::W32 ==> r@.map_values(|s: &str| s@)
            =~= seq!["?ConMsg@@YAXPBDZZ"@],
        os != Os::Windows ==> r@.map_values(|s: &str| s@) =~= seq![
            "ConMsg"@,
            "_Z6ConMsgPKcz"@,
        ],
        r@.len() >= 1,
{
    let mut names: Vec<&'static str> = Vec::new();
    match os {
        Os::Windows => {
            match width {
                PointerWidth::W64 => names.push("?ConMsg@@YAXPEBDZZ"),
                PointerWidth::W32 => names.push("?ConMsg@@YAXPBDZZ"),
            }
        },
        _ => {
            names.push("ConMsg");
            names.push("_Z6ConMsgPKcz");
        },
    }
    names
}

/// Exported name of the host colour console-print function for the build's
/// platform.
pub fn concolormsg_symbol_name(os: Os, width: PointerWidth) -> (r: &'static str)
    ensures
        os == Os::Windows && width == PointerWidth::W64 ==> r@ == "?ConColorMsg@@YAXAEBVColor@@PEBDZZ"@,
        os == Os::Windows && width == PointerWidth::W32 ==> r@ == "?ConColorMsg@@YAXABVColor@@PBDZZ"@,
        os != Os::Windows ==> r@ == "_Z11ConColorMsgRK5ColorPKcz"@,
{
    match os {
        Os::Windows => match width {
            PointerWidth::W64 => "?ConColorMsg@@YAXAEBVColor@@PEBDZZ",
            PointerWidth::W32 => "?ConColorMsg@@YAXABVColor@@PBDZZ",
        },
        _ => "_Z11ConColorMsgRK5ColorPKcz",
    }
}

} // verus!
