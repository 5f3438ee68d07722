//! Module Locator: the ordered candidate paths under which a host module can
//! be found for each operating system, pointer width and load mode, and the
//! bookkeeping for trying them in order while aggregating every failure.
//!
//! Opening a shared library is left to the caller (it is an operating-system
//! call); this module decides *what* to try, in *which* order, and what the
//! composite error holds when everything failed.

use vstd::prelude::*;

verus! {

/// How the locator orders candidates: `Server` prefers the dedicated-server
/// module names where the platform distinguishes them.
#[derive(Clone, Copy, PartialEq, Eq, Structural, Debug)]
pub enum Mode {
    Generic,
    Server,
}

use crate::platform::Os;
use crate::platform::PointerWidth;

/// The character sequences of a list of string pairs.
pub open spec fn pair_views(v: Seq<(String, String)>) -> Seq<(Seq<char>, Seq<char>)> {
    v.map_values(|p: (String, String)| (p.0@, p.1@))
}

/// The character sequences of a list of strings.
pub open spec fn str_views(v: Seq<String>) -> Seq<Seq<char>> {
    v.map_values(|s: String| s@)
}

/// A candidate path assembled from a fixed prefix, the logical library name,
/// and a fixed suffix.
pub open spec fn spec_path3(prefix: Seq<char>, name: Seq<char>, suffix: Seq<char>) -> Seq<char> {
    prefix + name + suffix
}

fn path3(prefix: &str, name: &str, suffix: &str) -> (r: String)
    ensures
        r@ == spec_path3(prefix@, name@, suffix@),
{
    let mut s = String::from_str(prefix);
    s.append(name);
    s.append(suffix);
    s
}

/// Candidate paths for a logical library name on 64-bit Windows.
pub open spec fn spec_candidates_win64(name: Seq<char>) -> Seq<Seq<char>> {
    seq![spec_path3("bin/win64/"@, name, ".dll"@), name]
}

/// Candidate paths on 32-bit Windows.
pub open spec fn spec_candidates_win32(name: Seq<char>) -> Seq<Seq<char>> {
    seq![
        spec_path3("bin/"@, name, ".dll"@),
        spec_path3("garrysmod/bin/"@, name, ".dll"@),
        name,
    ]
}

/// Candidate paths on 64-bit Linux.
pub open spec fn spec_candidates_linux64(name: Seq<char>) -> Seq<Seq<char>> {
    seq![
        spec_path3("bin/linux64/"@, name, ".so"@),
        spec_path3("bin/linux64/lib"@, name, ".so"@),
        name,
    ]
}

/// The eight 32-bit Linux candidates that differ only in whether the
/// server-suffixed names come first.
pub open spec fn spec_candidates_linux32_block(name: Seq<char>, suffix: Seq<char>) -> Seq<
    Seq<char>,
> {
    seq![
        spec_path3("bin/"@, name, suffix),
        spec_path3("bin/lib"@, name, suffix),
        spec_path3("garrysmod/bin/"@, name, suffix),
        spec_path3("garrysmod/bin/lib"@, name, suffix),
    ]
}

/// Candidate paths on 32-bit Linux: the per-architecture directory first,
/// then plain and server-suffixed names in mode order, then the bare name.
pub open spec fn spec_candidates_linux32(name: Seq<char>, mode: Mode) -> Seq<Seq<char>> {
    let head = seq![
        spec_path3("bin/linux32/"@, name, ".so"@),
        spec_path3("bin/linux32/lib"@, name, ".so"@),
    ];
    let srv = spec_candidates_linux32_block(name, "_srv.so"@);
    let plain = spec_candidates_linux32_block(name, ".so"@);
    match mode {
        Mode::Server => head + srv + plain + seq![name],
        Mode::Generic => head + plain + srv + seq![name],
    }
}

/// Candidate paths on macOS: the signed application bundle first, then
/// plain and server-suffixed names in mode order, then the bare name.
pub open spec fn spec_candidates_macos(name: Seq<char>, mode: Mode) -> Seq<Seq<char>> {
    let head = seq![
        spec_path3("GarrysMod_Signed.app/Contents/MacOS/"@, name, ".dylib"@),
        spec_path3("GarrysMod_Signed.app/Contents/MacOS/lib"@, name, ".dylib"@),
    ];
    let srv = spec_candidates_linux32_block(name, "_srv.dylib"@);
    let plain = spec_candidates_linux32_block(name, ".dylib"@);
    match mode {
        Mode::Server => head + srv + plain + seq![name],
        Mode::Generic => head + plain + srv + seq![name],
    }
}

/// The ordered candidate paths for a logical library name on one platform in
/// one mode. The order is a function of the arguments alone, so two calls
/// with the same platform and name always try the same paths in the same
/// order.
pub open spec fn spec_candidate_paths(
    os: Os,
    width: PointerWidth,
    mode: Mode,
    name: Seq<char>,
) -> Seq<Seq<char>> {
    match os {
        Os::Windows => match width {
            PointerWidth::W64 => spec_candidates_win64(name),
            PointerWidth::W32 => spec_candidates_win32(name),
        },
        Os::Linux => match width {
            PointerWidth::W64 => spec_candidates_linux64(name),
            PointerWidth::W32 => spec_candidates_linux32(name, mode),
        },
        Os::MacOs => spec_candidates_macos(name, mode),
    }
}

/// Every supported platform and mode has at least one candidate to try.
pub proof fn lemma_candidate_paths_nonempty(
    os: Os,
    width: PointerWidth,
    mode: Mode,
    name: Seq<char>,
)
    ensures
        spec_candidate_paths(os, width, mode, name).len() >= 1,
{
}

/// Builds the ordered candidate paths for a logical library name.
pub fn candidate_paths(os: Os, width: PointerWidth, mode: Mode, name: &str) -> (r: Vec<String>)
    ensures
        str_views(r@) =~= spec_candidate_paths(os, width, mode, name@),
        r@.len() >= 1,
{
    let mut out: Vec<String> = Vec::new();
    match os {
        Os::Windows => match width {
            PointerWidth::W64 => {
                out.push(path3("bin/win64/", name, ".dll"));
                out.push(String::from_str(name));
                proof {
                    assert(str_views(out@) =~= spec_candidates_win64(name@));
                }
            },
            PointerWidth::W32 => {
                out.push(path3("bin/", name, ".dll"));
                out.push(path3("garrysmod/bin/", name, ".dll"));
                out.push(String::from_str(name));
                proof {
                    assert(str_views(out@) =~= spec_candidates_win32(name@));
                }
            },
        },
        Os::Linux => match width {
            PointerWidth::W64 => {
                out.push(path3("bin/linux64/", name, ".so"));
                out.push(path3("bin/linux64/lib", name, ".so"));
                out.push(String::from_str(name));
                proof {
                    assert(str_views(out@) =~= spec_candidates_linux64(name@));
                }
            },
            PointerWidth::W32 => {
                out.push(path3("bin/linux32/", name, ".so"));
                out.push(path3("bin/linux32/lib", name, ".so"));
                let suffixes: [&str; 2] = match mode {
                    Mode::Server => ["_srv.so", ".so"],
                    Mode::Generic => [".so", "_srv.so"],
                };
                out.push(path3("bin/", name, suffixes[0]));
                out.push(path3("bin/lib", name, suffixes[0]));
                out.push(path3("garrysmod/bin/", name, suffixes[0]));
                out.push(path3("garrysmod/bin/lib", name, suffixes[0]));
                out.push(path3("bin/", name, suffixes[1]));
                out.push(path3("bin/lib", name, suffixes[1]));
                out.push(path3("garrysmod/bin/", name, suffixes[1]));
                out.push(path3("garrysmod/bin/lib", name, suffixes[1]));
                out.push(String::from_str(name));
                proof {
                    assert(str_views(out@) =~~= spec_candidates_linux32(name@, mode));
                }
            },
        },
        Os::MacOs => {
            out.push(path3("GarrysMod_Signed.app/Contents/MacOS/", name, ".dylib"));
            out.push(path3("GarrysMod_Signed.app/Contents/MacOS/lib", name, ".dylib"));
            let suffixes: [&str; 2] = match mode {
                Mode::Server => ["_srv.dylib", ".dylib"],
                Mode::Generic => [".dylib", "_srv.dylib"],
            };
            out.push(path3("bin/", name, suffixes[0]));
            out.push(path3("bin/lib", name, suffixes[0]));
            out.push(path3("garrysmod/bin/", name, suffixes[0]));
            out.push(path3("garrysmod/bin/lib", name, suffixes[0]));
            out.push(path3("bin/", name, suffixes[1]));
            out.push(path3("bin/lib", name, suffixes[1]));
            out.push(path3("garrysmod/bin/", name, suffixes[1]));
            out.push(path3("garrysmod/bin/lib", name, suffixes[1]));
            out.push(String::from_str(name));
            proof {
                assert(str_views(out@) =~~= spec_candidates_macos(name@, mode));
            }
        },
    }
    out
}

/// The ordered candidate paths of the interpreter module itself, which is
/// looked up under fixed paths rather than by logical name.
pub open spec fn spec_lua_shared_candidates(os: Os, width: PointerWidth) -> Seq<Seq<char>> {
    match os {
        Os::Windows => match width {
            PointerWidth::W64 => seq!["bin/win64/lua_shared.dll"@],
            PointerWidth::W32 => seq!["garrysmod/bin/lua_shared.dll"@, "bin/lua_shared.dll"@],
        },
        Os::Linux => match width {
            PointerWidth::W64 => seq!["bin/linux64/lua_shared.so"@],
            PointerWidth::W32 => seq![
                "garrysmod/bin/lua_shared_srv.so"@,
                "bin/linux32/lua_shared.so"@,
                "garrysmod/bin/lua_shared.so"@,
            ],
        },
        Os::MacOs => seq!["garrysmod/bin/lua_shared.dylib"@],
    }
}

/// Candidate paths of the interpreter module for one platform.
pub fn lua_shared_candidates(os: Os, width: PointerWidth) -> (r: Vec<String>)
    ensures
        str_views(r@) =~= spec_lua_shared_candidates(os, width),
        r@.len() >= 1,
{
    let mut out: Vec<String> = Vec::new();
    match os {
        Os::Windows => match width {
            PointerWidth::W64 => {
                out.push(String::from_str("bin/win64/lua_shared.dll"));
            },
            PointerWidth::W32 => {
                out.push(String::from_str("garrysmod/bin/lua_shared.dll"));
                out.push(String::from_str("bin/lua_shared.dll"));
            },
        },
        Os::Linux => match width {
            PointerWidth::W64 => {
                out.push(String::from_str("bin/linux64/lua_shared.so"));
            },
            PointerWidth::W32 => {
                out.push(String::from_str("garrysmod/bin/lua_shared_srv.so"));
                out.push(String::from_str("bin/linux32/lua_shared.so"));
                out.push(String::from_str("garrysmod/bin/lua_shared.so"));
            },
        },
        Os::MacOs => {
            out.push(String::from_str("garrysmod/bin/lua_shared.dylib"));
        },
    }
    out
}

/// The composite error of a failed search: one entry per attempted path, in
/// attempt order, each with the message the attempt produced.
pub struct OpenGmodLibraryErrs(pub Vec<(String, String)>);

/// One line of the composite error's rendering.
pub open spec fn spec_err_line(path: Seq<char>, msg: Seq<char>) -> Seq<char> {
    path + " = "@ + msg + "\n"@
}

/// The rendering of the first `n` entries.
pub open spec fn spec_err_lines(errs: Seq<(Seq<char>, Seq<char>)>, n: int) -> Seq<char>
    decreases n,
{
    if n <= 0 {
        Seq::empty()
    } else {
        spec_err_lines(errs, n - 1) + spec_err_line(errs[n - 1].0, errs[n - 1].1)
    }
}

impl OpenGmodLibraryErrs {
    /// The entries as (path, message) character sequences.
    pub open spec fn view_pairs(&self) -> Seq<(Seq<char>, Seq<char>)> {
        pair_views(self.0@)
    }

    /// A readable rendering: one `path = message` line per attempted path,
    /// framed by blank lines.
    pub fn message(&self) -> (r: String)
        ensures
            r@ == "\n"@ + spec_err_lines(self.view_pairs(), self.view_pairs().len() as int)
                + "\n"@,
    {
        let mut out = String::from_str("\n");
        let mut i: usize = 0;
        while i < self.0.len()
            invariant
                i <= self.0.len(),
                out@ == "\n"@ + spec_err_lines(self.view_pairs(), i as int),
            decreases self.0.len() - i,
        {
            let pair = &self.0[i];
            out.append(pair.0.as_str());
            out.append(" = ");
            out.append(pair.1.as_str());
            out.append("\n");
            proof {
                assert(out@ =~= "\n"@ + spec_err_lines(self.view_pairs(), i + 1));
            }
            i = i + 1;
        }
        out.append("\n");
        out
    }
}

/// Walks an ordered candidate list while the caller performs the actual
/// open attempts, and aggregates every failure keyed by path. The caller
/// asks for the next path with `current`, reports a failure with `fail`,
/// and stops at the first success; if every candidate fails, `into_errors`
/// yields one error entry per candidate, in attempt order.
pub struct OpenSequence {
    candidates: Vec<String>,
    next: usize,
    failures: Vec<(String, String)>,
}

impl OpenSequence {
    /// The paths still to be tried, in order.
    pub closed spec fn remaining(&self) -> Seq<Seq<char>> {
        str_views(self.candidates@).skip(self.next as int)
    }

    /// The failures recorded so far, in attempt order.
    pub closed spec fn recorded(&self) -> Seq<(Seq<char>, Seq<char>)> {
        pair_views(self.failures@)
    }

    /// Internal consistency: exactly the already-attempted candidates have a
    /// recorded failure, in order.
    pub closed spec fn wf(&self) -> bool {
        &&& self.next <= self.candidates@.len()
        &&& self.failures@.len() == self.next
        &&& forall|i: int|
            0 <= i < self.next ==> (#[trigger] self.recorded()[i]).0 == self.candidates@[i]@
    }

    /// Starts a search over the given candidates.
    pub fn new(candidates: Vec<String>) -> (r: OpenSequence)
        ensures
            r.wf(),
            r.remaining() =~= str_views(candidates@),
            r.recorded() =~= Seq::<(Seq<char>, Seq<char>)>::empty(),
    {
        OpenSequence { candidates, next: 0, failures: Vec::new() }
    }

    /// The next path to try, or `None` when every candidate has failed.
    pub fn current(&self) -> (r: Option<&String>)
        requires
            self.wf(),
        ensures
            match r {
                Some(p) => self.remaining().len() > 0 && p@ == self.remaining()[0],
                None => self.remaining().len() == 0,
            },
    {
        if self.next < self.candidates.len() {
            Some(&self.candidates[self.next])
        } else {
            None
        }
    }

    /// Records that opening the current path failed with the given message
    /// and moves on to the next candidate.
    pub fn fail(&mut self, message: String)
        requires
            old(self).wf(),
            old(self).remaining().len() > 0,
        ensures
            final(self).wf(),
            final(self).remaining() =~= old(self).remaining().skip(1),
            final(self).recorded() =~= old(self).recorded().push(
                (old(self).remaining()[0], message@),
            ),
    {
        proof {
            assert(old(self).remaining().len() == old(self).candidates@.len() - old(
                self,
            ).next);
        }
        let path = self.candidates[self.next].clone();
        self.failures.push((path, message));
        let cap = self.candidates.len();
        proof {
            assert(self.next < cap);
        }
        self.next = self.next + 1;
        proof {
            let prev = old(self).next as int;
            assert(old(self).remaining()[0] == old(self).candidates@[prev]@);
            assert(self.recorded() =~= old(self).recorded().push(
                (old(self).candidates@[prev]@, message@),
            ));
            assert(self.remaining() =~= old(self).remaining().skip(1));
            assert forall|i: int| 0 <= i < self.next implies (#[trigger] self.recorded()[i]).0
                == self.candidates@[i]@ by {
                if i < prev {
                    assert(old(self).recorded()[i].0 == old(self).candidates@[i]@);
                }
            }
        }
    }

    /// The composite error after every candidate failed: one entry per
    /// candidate, keyed by path, in attempt order.
    pub fn into_errors(self) -> (r: OpenGmodLibraryErrs)
        requires
            self.wf(),
            self.remaining().len() == 0,
        ensures
            r.view_pairs() =~= self.recorded(),
    {
        OpenGmodLibraryErrs(self.failures)
    }
}


/// The fixed candidate paths of the host's base system module, which holds
/// the console-print functions.
pub open spec fn spec_tier0_candidates(os: Os, width: PointerWidth) -> Seq<Seq<char>> {
    match os {
        Os::Windows => match width {
            PointerWidth::W64 => seq!["bin/win64/tier0.dll"@],
            PointerWidth::W32 => seq!["bin/tier0.dll"@, "bin/win32/tier0.dll"@],
        },
        Os::Linux => match width {
            PointerWidth::W64 => seq!["bin/linux64/libtier0.so"@],
            PointerWidth::W32 => seq!["bin/libtier0_srv.so"@, "bin/linux32/libtier0.so"@],
        },
        Os::MacOs => seq![
            "bin/libtier0.dylib"@,
            "GarrysMod_Signed.app/Contents/MacOS/libtier0.dylib"@,
        ],
    }
}

/// Candidate paths of the host's base system module for one platform.
pub fn tier0_candidates(os: Os, width: PointerWidth) -> (r: Vec<String>)
    ensures
        str_views(r@) =~= spec_tier0_candidates(os, width),
        r@.len() >= 1,
{
    let mut out: Vec<String> = Vec::new();
    match os {
        Os::Windows => match width {
            PointerWidth::W64 => {
                out.push(String::from_str("bin/win64/tier0.dll"));
            },
            PointerWidth::W32 => {
                out.push(String::from_str("bin/tier0.dll"));
                out.push(String::from_str("bin/win32/tier0.dll"));
            },
        },
        Os::Linux => match width {
            PointerWidth::W64 => {
                out.push(String::from_str("bin/linux64/libtier0.so"));
            },
            PointerWidth::W32 => {
                out.push(String::from_str("bin/libtier0_srv.so"));
                out.push(String::from_str("bin/linux32/libtier0.so"));
            },
        },
        Os::MacOs => {
            out.push(String::from_str("bin/libtier0.dylib"));
            out.push(String::from_str("GarrysMod_Signed.app/Contents/MacOS/libtier0.dylib"));
        },
    }
    out
}
} // verus!
