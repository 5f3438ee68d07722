//! The ABI Table: the fixed set of interpreter entry points, resolved once
//! at attach time from addresses the caller looked up (by export name, or
//! by pattern scan where no stable export exists), and never re-resolved.
//! Population is all-or-nothing: one missing entry point fails the whole
//! attach, and the report names the symbol that failed.

use vstd::prelude::*;

use crate::platform::Os;
use crate::platform::PointerWidth;
use crate::sigscan::Signature;

verus! {

/// The exported names of the interpreter entry points the binding needs, in
/// the fixed order the ABI table stores them.
pub open spec fn spec_required_symbols() -> Seq<Seq<char>> {
    seq![
        "luaL_newstate"@,
        "luaL_openlibs"@,
        "lua_pushlightuserdata"@,
        "luaL_checktype"@,
        "luaL_loadfile"@,
        "luaL_loadstring"@,
        "luaL_loadbuffer"@,
        "lua_getfield"@,
        "lua_pushvalue"@,
        "lua_pushboolean"@,
        "lua_tolstring"@,
        "lua_pcall"@,
        "lua_remove"@,
        "lua_gettop"@,
        "lua_type"@,
        "lua_typename"@,
        "lua_setfield"@,
        "lua_call"@,
        "lua_createtable"@,
        "lua_settop"@,
        "lua_replace"@,
        "lua_pushlstring"@,
        "lua_pushcclosure"@,
        "lua_settable"@,
        "lua_gettable"@,
        "lua_error"@,
        "lua_insert"@,
        "luaL_checkinteger"@,
        "luaL_checklstring"@,
        "lua_toboolean"@,
        "lua_pushnumber"@,
        "lua_pushinteger"@,
        "lua_pushnil"@,
        "luaL_checknumber"@,
        "lua_tointeger"@,
        "lua_tonumber"@,
        "luaL_checkudata"@,
        "luaL_ref"@,
        "luaL_unref"@,
        "lua_setmetatable"@,
        "lua_objlen"@,
        "lua_rawgeti"@,
        "lua_rawseti"@,
        "lua_getmetatable"@,
        "lua_rawequal"@,
        "lua_touserdata"@,
        "lua_getinfo"@,
        "lua_getstack"@,
        "lua_next"@,
        "lua_topointer"@,
        "lua_newuserdata"@,
        "luaL_newmetatable"@,
        "lua_resume_real"@,
        "lua_newthread"@,
        "lua_yield"@,
        "lua_pushthread"@,
        "lua_tothread"@,
        "lua_status"@,
        "lua_xmove"@,
    ]
}

/// The character sequences of a list of static names.
pub open spec fn name_views(v: Seq<&str>) -> Seq<Seq<char>> {
    v.map_values(|s: &str| s@)
}

/// The required entry-point names, in table order, for the caller to
/// resolve against the opened interpreter module.
pub fn required_symbols() -> (r: Vec<&'static str>)
    ensures
        name_views(r@) =~= spec_required_symbols(),
        r@.len() == spec_required_symbols().len(),
{
    let mut out: Vec<&'static str> = Vec::new();
    out.push("luaL_newstate");
    out.push("luaL_openlibs");
    out.push("lua_pushlightuserdata");
    out.push("luaL_checktype");
    out.push("luaL_loadfile");
    out.push("luaL_loadstring");
    out.push("luaL_loadbuffer");
    out.push("lua_getfield");
    out.push("lua_pushvalue");
    out.push("lua_pushboolean");
    out.push("lua_tolstring");
    out.push("lua_pcall");
    out.push("lua_remove");
    out.push("lua_gettop");
    out.push("lua_type");
    out.push("lua_typename");
    out.push("lua_setfield");
    out.push("lua_call");
    out.push("lua_createtable");
    out.push("lua_settop");
    out.push("lua_replace");
    out.push("lua_pushlstring");
    out.push("lua_pushcclosure");
    out.push("lua_settable");
    out.push("lua_gettable");
    out.push("lua_error");
    out.push("lua_insert");
    out.push("luaL_checkinteger");
    out.push("luaL_checklstring");
    out.push("lua_toboolean");
    out.push("lua_pushnumber");
    out.push("lua_pushinteger");
    out.push("lua_pushnil");
    out.push("luaL_checknumber");
    out.push("lua_tointeger");
    out.push("lua_tonumber");
    out.push("luaL_checkudata");
    out.push("luaL_ref");
    out.push("luaL_unref");
    out.push("lua_setmetatable");
    out.push("lua_objlen");
    out.push("lua_rawgeti");
    out.push("lua_rawseti");
    out.push("lua_getmetatable");
    out.push("lua_rawequal");
    out.push("lua_touserdata");
    out.push("lua_getinfo");
    out.push("lua_getstack");
    out.push("lua_next");
    out.push("lua_topointer");
    out.push("lua_newuserdata");
    out.push("luaL_newmetatable");
    out.push("lua_resume_real");
    out.push("lua_newthread");
    out.push("lua_yield");
    out.push("lua_pushthread");
    out.push("lua_tothread");
    out.push("lua_status");
    out.push("lua_xmove");
    out
}

/// A raw address bound to a name: never built from a null address, and once
/// built, taken to be stable for the process lifetime.
pub struct ResolvedSymbol {
    name: String,
    addr: usize,
}

impl ResolvedSymbol {
    /// The name the address was resolved under.
    pub closed spec fn spec_name(&self) -> Seq<char> {
        self.name@
    }

    /// The resolved address.
    pub closed spec fn spec_addr(&self) -> int {
        self.addr as int
    }

    /// A resolved symbol's address is never null.
    pub open spec fn wf(&self) -> bool {
        self.spec_addr() != 0
    }

    /// Binds an address to a name; a null address yields nothing, so a
    /// resolved symbol can never hold one.
    pub fn new(name: String, addr: usize) -> (r: Option<ResolvedSymbol>)
        ensures
            match r {
                Some(sym) => addr != 0 && sym.spec_name() == name@ && sym.spec_addr() == addr
                    as int && sym.wf(),
                None => addr == 0,
            },
    {
        if addr == 0 {
            None
        } else {
            Some(ResolvedSymbol { name, addr })
        }
    }

    /// The resolved address, never null.
    pub fn addr(&self) -> (r: usize)
        requires
            self.wf(),
        ensures
            r as int == self.spec_addr(),
            r != 0,
    {
        self.addr
    }

    /// The name the address was resolved under.
    pub fn name(&self) -> (r: &str)
        ensures
            r@ == self.spec_name(),
    {
        self.name.as_str()
    }
}

/// Why an attach failed: the entry points must all resolve, and the report
/// names what went wrong rather than just that something did.
#[derive(Debug)]
pub enum AbiError {
    /// The caller handed a resolution list of the wrong length.
    WrongCount,
    /// The named required symbol resolved to a null address.
    MissingSymbol(String),
}

/// The populated set of resolved entry points: one non-null address per
/// required symbol, in table order.
pub struct AbiTable {
    slots: Vec<ResolvedSymbol>,
}

/// The addresses of a slot list.
pub open spec fn slot_addrs(slots: Seq<ResolvedSymbol>) -> Seq<int> {
    slots.map_values(|s: ResolvedSymbol| s.spec_addr())
}

/// The names of a slot list.
pub open spec fn slot_names(slots: Seq<ResolvedSymbol>) -> Seq<Seq<char>> {
    slots.map_values(|s: ResolvedSymbol| s.spec_name())
}

impl AbiTable {
    /// The addresses, in table order.
    pub closed spec fn spec_addrs(&self) -> Seq<int> {
        slot_addrs(self.slots@)
    }

    /// The names, in table order.
    pub closed spec fn spec_names(&self) -> Seq<Seq<char>> {
        slot_names(self.slots@)
    }

    /// A populated table holds exactly the required symbols, each with a
    /// non-null address.
    pub open spec fn wf(&self) -> bool {
        &&& self.spec_names() == spec_required_symbols()
        &&& self.spec_addrs().len() == spec_required_symbols().len()
        &&& forall|i: int|
            0 <= i < self.spec_addrs().len() ==> #[trigger] self.spec_addrs()[i] != 0
    }

    /// Populates the table from the addresses the caller resolved, one per
    /// required symbol in table order (zero marks a failed resolution).
    /// Succeeds exactly when the list is complete and every address is
    /// non-null; otherwise the error names the first symbol that failed.
    pub fn populate(addrs: &Vec<usize>) -> (r: Result<AbiTable, AbiError>)
        ensures
            match r {
                Ok(t) => {
                    &&& addrs@.len() == spec_required_symbols().len()
                    &&& forall|i: int| 0 <= i < addrs@.len() ==> #[trigger] addrs@[i] != 0
                    &&& t.wf()
                    &&& forall|i: int|
                        0 <= i < addrs@.len() ==> #[trigger] t.spec_addrs()[i] == addrs@[i]
                },
                Err(e) => match e {
                    AbiError::WrongCount => addrs@.len() != spec_required_symbols().len(),
                    AbiError::MissingSymbol(n) => exists|i: int|
                        #![auto]
                        0 <= i < addrs@.len() && addrs@[i] == 0 && n@ == spec_required_symbols()[i],
                },
            },
    {
        let names = required_symbols();
        if addrs.len() != names.len() {
            return Err(AbiError::WrongCount);
        }
        let n = names.len();
        let mut slots: Vec<ResolvedSymbol> = Vec::new();
        let mut i: usize = 0;
        while i < n
            invariant
                i <= n,
                n == names@.len(),
                n == addrs@.len(),
                name_views(names@) =~= spec_required_symbols(),
                slot_names(slots@) =~= spec_required_symbols().take(i as int),
                slot_addrs(slots@) =~= addrs@.map_values(|a: usize| a as int).take(i as int),
                forall|k: int| 0 <= k < i ==> #[trigger] slot_addrs(slots@)[k] != 0,
            decreases n - i,
        {
            let name = String::from_str(names[i]);
            match ResolvedSymbol::new(name, addrs[i]) {
                Some(sym) => {
                    let ghost pre = slots@;
                    slots.push(sym);
                    proof {
                        assert(sym.spec_name() == names@[i as int]@);
                        assert(name_views(names@)[i as int] == names@[i as int]@);
                        assert(spec_required_symbols()[i as int] == names@[i as int]@);
                        assert(slot_names(slots@) =~= slot_names(pre).push(sym.spec_name()));
                        assert(slot_addrs(slots@) =~= slot_addrs(pre).push(sym.spec_addr()));
                        assert(slot_names(slots@) =~= spec_required_symbols().take(i + 1));
                        assert(slot_addrs(slots@) =~= addrs@.map_values(|a: usize| a as int).take(
                            i + 1,
                        ));
                    }
                },
                None => {
                    return Err(AbiError::MissingSymbol(String::from_str(names[i])));
                },
            }
            i = i + 1;
        }
        let table = AbiTable { slots };
        proof {
            assert(table.spec_names() =~= spec_required_symbols());
            assert(table.spec_addrs() =~= addrs@.map_values(|a: usize| a as int));
            assert forall|k: int| 0 <= k < addrs@.len() implies #[trigger] addrs@[k] != 0 by {
                assert(slot_addrs(table.slots@)[k] != 0);
            }
        }
        Ok(table)
    }

    /// Number of slots.
    pub fn len(&self) -> (r: usize)
        requires
            self.wf(),
        ensures
            r == spec_required_symbols().len(),
    {
        self.slots.len()
    }

    /// The resolved address of the slot at a position, never null.
    pub fn addr_of(&self, i: usize) -> (r: usize)
        requires
            self.wf(),
            i < spec_required_symbols().len(),
        ensures
            r as int == self.spec_addrs()[i as int],
            r != 0,
    {
        proof {
            assert(slot_addrs(self.slots@)[i as int] != 0);
            assert(self.slots@[i as int].wf());
        }
        self.slots[i].addr()
    }

    /// The name of the slot at a position.
    pub fn name_of(&self, i: usize) -> (r: &str)
        requires
            self.wf(),
            i < spec_required_symbols().len(),
        ensures
            r@ == spec_required_symbols()[i as int],
    {
        self.slots[i].name()
    }
}

/// The process-wide cell the ABI table lives in: unpopulated until attach,
/// then frozen. Populating twice is a no-op, never a re-resolution.
pub struct AbiCell {
    table: Option<AbiTable>,
}

impl AbiCell {
    /// Whether the table has been populated.
    pub closed spec fn is_populated(&self) -> bool {
        self.table is Some
    }

    /// The populated table.
    pub closed spec fn spec_table_addrs(&self) -> Seq<int> {
        self.table->0.spec_addrs()
    }

    /// A populated cell holds a well-formed table.
    pub closed spec fn wf(&self) -> bool {
        self.is_populated() ==> self.table->0.wf()
    }

    /// An unpopulated cell.
    pub fn new() -> (r: AbiCell)
        ensures
            !r.is_populated(),
            r.wf(),
    {
        AbiCell { table: None }
    }

    /// Populates the cell from the caller's resolved addresses, exactly
    /// once: a second call changes nothing and succeeds, whatever it is
    /// handed, because the module never changes for the process lifetime.
    pub fn populate(&mut self, addrs: &Vec<usize>) -> (r: Result<(), AbiError>)
        requires
            old(self).wf(),
        ensures
            final(self).wf(),
            old(self).is_populated() ==> r is Ok && final(self).is_populated()
                && final(self).spec_table_addrs() == old(self).spec_table_addrs(),
            !old(self).is_populated() ==> match r {
                Ok(u) => final(self).is_populated() && addrs@.len()
                    == spec_required_symbols().len() && forall|i: int|
                    0 <= i < addrs@.len() ==> #[trigger] final(self).spec_table_addrs()[i]
                        == addrs@[i] && addrs@[i] != 0,
                Err(e) => !final(self).is_populated() && (match e {
                    AbiError::WrongCount => addrs@.len() != spec_required_symbols().len(),
                    AbiError::MissingSymbol(n) => exists|i: int|
                        #![auto]
                        0 <= i < addrs@.len() && addrs@[i] == 0 && n@ == spec_required_symbols()[i],
                }),
            },
    {
        if self.table.is_some() {
            return Ok(());
        }
        match AbiTable::populate(addrs) {
            Ok(t) => {
                self.table = Some(t);
                Ok(())
            },
            Err(e) => Err(e),
        }
    }

    /// The populated table, for reading entry points.
    pub fn get(&self) -> (r: &AbiTable)
        requires
            self.is_populated(),
            self.wf(),
        ensures
            r.wf(),
            r.spec_addrs() == self.spec_table_addrs(),
    {
        match &self.table {
            Some(t) => t,
            None => unreached(),
        }
    }
}

/// Where one host symbol comes from: a stable export looked up by name, or
/// a byte pattern scanned for in the module when no stable export exists.
pub enum SymbolSource {
    Export(String),
    Pattern(Signature),
}

/// The per-platform sources for one host symbol that must be found by
/// export or pattern: one entry per supported platform of the sixty-four
/// bit host branch, and one per 32-bit platform of the other branch.
pub struct GmodSignatures {
    pub win64_x86_64: SymbolSource,
    pub win32_x86_64: SymbolSource,
    pub linux64_x86_64: SymbolSource,
    pub linux32_x86_64: SymbolSource,
    pub win32: SymbolSource,
    pub linux32: SymbolSource,
}

/// The source `find_gmod_signature` picks for a platform and branch.
pub open spec fn spec_select_signature(
    set: GmodSignatures,
    os: Os,
    width: PointerWidth,
    x86_64: bool,
) -> SymbolSource {
    if x86_64 {
        match (os, width) {
            (Os::Windows, PointerWidth::W64) => set.win64_x86_64,
            (Os::Windows, PointerWidth::W32) => set.win32_x86_64,
            (Os::Linux, PointerWidth::W64) => set.linux64_x86_64,
            _ => set.linux32_x86_64,
        }
    } else {
        match os {
            Os::Windows => set.win32,
            _ => set.linux32,
        }
    }
}

/// Picks the symbol source for the build's platform and the detected host
/// branch. Pattern scanning is not supported on macOS, and the non-64-bit
/// branch only ships 32-bit builds.
pub fn find_gmod_signature<'a>(
    set: &'a GmodSignatures,
    os: Os,
    width: PointerWidth,
    x86_64: bool,
) -> (r: &'a SymbolSource)
    requires
        os != Os::MacOs,
        !x86_64 ==> width == PointerWidth::W32,
    ensures
        *r == spec_select_signature(*set, os, width, x86_64),
{
    if x86_64 {
        match (os, width) {
            (Os::Windows, PointerWidth::W64) => &set.win64_x86_64,
            (Os::Windows, PointerWidth::W32) => &set.win32_x86_64,
            (Os::Linux, PointerWidth::W64) => &set.linux64_x86_64,
            _ => &set.linux32_x86_64,
        }
    } else {
        match os {
            Os::Windows => &set.win32,
            _ => &set.linux32,
        }
    }
}

} // verus!
