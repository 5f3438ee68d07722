//! The interpreter model: an explicit value stack, reference registry,
//! table arena and observation logs, with the protocol operations the
//! binding layer performs through the ABI table. Every operation says
//! exactly how it transforms the model.

use vstd::prelude::*;

use crate::value::NativeFn;
use crate::value::SpecValue;
use crate::value::Value;
use crate::value::opt_value_views;
use crate::value::value_eq;
use crate::value::value_views;

verus! {

/// Index of the registry pseudo-slot.
pub const LUA_REGISTRYINDEX: i32 = -10000;

/// Index of the environment pseudo-slot.
pub const LUA_ENVIRONINDEX: i32 = -10001;

/// Index of the globals pseudo-slot.
pub const LUA_GLOBALSINDEX: i32 = -10002;

/// Result-count value asking a call for every result.
pub const LUA_MULTRET: i32 = -1;

/// Reference handle that stands for no reference at all.
pub const LUA_NOREF: i32 = -2;

/// Reference handle a reference of nil collapses to.
pub const LUA_REFNIL: i32 = -1;

/// Type code of an invalid index.
pub const LUA_TNONE: i32 = -1;

/// Type code of nil.
pub const LUA_TNIL: i32 = 0;

/// Type code of booleans.
pub const LUA_TBOOLEAN: i32 = 1;

/// Type code of light userdata.
pub const LUA_TLIGHTUSERDATA: i32 = 2;

/// Type code of numbers.
pub const LUA_TNUMBER: i32 = 3;

/// Type code of strings.
pub const LUA_TSTRING: i32 = 4;

/// Type code of tables.
pub const LUA_TTABLE: i32 = 5;

/// Type code of functions.
pub const LUA_TFUNCTION: i32 = 6;

/// Type code of full userdata.
pub const LUA_TUSERDATA: i32 = 7;

/// Type code of coroutines.
pub const LUA_TTHREAD: i32 = 8;

/// Status code of a successful call.
pub const LUA_OK: i32 = 0;

/// Status code of a yielded coroutine.
pub const LUA_YIELD: i32 = 1;

/// Status code of a runtime error.
pub const LUA_ERRRUN: i32 = 2;

/// Status code of a syntax error.
pub const LUA_ERRSYNTAX: i32 = 3;

/// Status code of memory exhaustion.
pub const LUA_ERRMEM: i32 = 4;

/// Status code of an error inside the error handler.
pub const LUA_ERRERR: i32 = 5;

/// Status code of a failed file load.
pub const LUA_ERRFILE: i32 = 6;

/// Most slots the model stack may hold; far below every pseudo-index, so a
/// pseudo-index can never denote a stack slot.
pub const STACK_LIMIT: usize = 8000;

/// Most slots the reference registry may hold; handles stay within the
/// 32-bit range the host hands out.
pub const REF_LIMIT: usize = 0x7fff_fffe;

/// The model of one table: its entries in insertion order, and the arena
/// index of its metatable if one is set. Lookups take the first entry with
/// an equal key; entries never hold nil.
#[verifier::ext_equal]
pub struct SpecTable {
    pub pairs: Seq<(SpecValue, SpecValue)>,
    pub meta: Option<int>,
}

/// The model of the whole interpreter: value stack (bottom first),
/// reference registry, named registry entries (metatable names), the table
/// arena, and the observations host functions made (network strings
/// registered, receivers installed).
#[verifier::ext_equal]
pub struct SpecInterp {
    pub stack: Seq<SpecValue>,
    pub registry: Seq<Option<SpecValue>>,
    pub named_registry: Seq<(Seq<char>, int)>,
    pub tables: Seq<SpecTable>,
    pub net_log: Seq<Seq<char>>,
    pub receivers: Seq<(Seq<char>, SpecValue)>,
}

/// The zero-based stack position an index denotes: positive indices count
/// from the bottom, negative from the top; anything else is invalid (-1).
pub open spec fn spec_abs(len: int, i: int) -> int {
    if 1 <= i && i <= len {
        i - 1
    } else if -len <= i && i <= -1 {
        len + i
    } else {
        -1
    }
}

/// The host's numeric code for a value's type.
pub open spec fn spec_type_code(v: SpecValue) -> int {
    match v {
        SpecValue::Nil => 0,
        SpecValue::Boolean(_) => 1,
        SpecValue::LightUserdata(_) => 2,
        SpecValue::Integer(_) => 3,
        SpecValue::Str(_) => 4,
        SpecValue::Table(_) => 5,
        SpecValue::Function(_) => 6,
        SpecValue::Userdata { .. } => 7,
    }
}

impl SpecInterp {
    /// The same state with another stack.
    pub open spec fn with_stack(self, st: Seq<SpecValue>) -> SpecInterp {
        SpecInterp { stack: st, ..self }
    }

    /// The state after pushing one value.
    pub open spec fn push(self, v: SpecValue) -> SpecInterp {
        self.with_stack(self.stack.push(v))
    }

    /// The state after popping `n` values.
    pub open spec fn popn(self, n: int) -> SpecInterp {
        self.with_stack(self.stack.take(self.stack.len() - n))
    }

    /// The zero-based position of an index on this stack.
    pub open spec fn abs(self, i: int) -> int {
        spec_abs(self.stack.len() as int, i)
    }

    /// Whether an index denotes a stack slot.
    pub open spec fn valid_idx(self, i: int) -> bool {
        self.abs(i) >= 0
    }

    /// The value an index denotes; nil outside the stack.
    pub open spec fn at(self, i: int) -> SpecValue {
        if self.valid_idx(i) {
            self.stack[self.abs(i)]
        } else {
            SpecValue::Nil
        }
    }

    /// Lengths stay within the protocol's bounds and the globals table
    /// exists.
    pub open spec fn wf(self) -> bool {
        &&& self.stack.len() <= STACK_LIMIT
        &&& self.registry.len() <= REF_LIMIT
        &&& self.tables.len() >= 1
    }
}

/// The model of one table's storage.
pub struct LuaTable {
    pairs: Vec<(Value, Value)>,
    meta: Option<usize>,
}

/// The pairs of models of a table's entries.
pub open spec fn pair_value_views(s: Seq<(Value, Value)>) -> Seq<(SpecValue, SpecValue)> {
    s.map_values(|p: (Value, Value)| (p.0@, p.1@))
}

impl View for LuaTable {
    type V = SpecTable;

    closed spec fn view(&self) -> SpecTable {
        SpecTable {
            pairs: pair_value_views(self.pairs@),
            meta: match self.meta {
                Some(m) => Some(m as int),
                None => None,
            },
        }
    }
}

/// The models of the tables in the arena.
pub open spec fn table_views(s: Seq<LuaTable>) -> Seq<SpecTable> {
    s.map_values(|t: LuaTable| t@)
}

/// The models of the named registry entries.
pub open spec fn named_views(s: Seq<(String, usize)>) -> Seq<(Seq<char>, int)> {
    s.map_values(|p: (String, usize)| (p.0@, p.1 as int))
}

/// The models of the installed receivers.
pub open spec fn receiver_views(s: Seq<(String, Value)>) -> Seq<(Seq<char>, SpecValue)> {
    s.map_values(|p: (String, Value)| (p.0@, p.1@))
}

/// The character sequences of the logged network strings.
pub open spec fn log_views(s: Seq<String>) -> Seq<Seq<char>> {
    s.map_values(|x: String| x@)
}

/// One attached interpreter instance, modelled explicitly: the value stack,
/// the reference registry, the table arena (index 0 is the globals table),
/// and the observation logs of the host functions the model can run.
pub struct LuaState {
    stack: Vec<Value>,
    registry: Vec<Option<Value>>,
    named_registry: Vec<(String, usize)>,
    tables: Vec<LuaTable>,
    net_log: Vec<String>,
    receivers: Vec<(String, Value)>,
}

impl View for LuaState {
    type V = SpecInterp;

    closed spec fn view(&self) -> SpecInterp {
        SpecInterp {
            stack: value_views(self.stack@),
            registry: opt_value_views(self.registry@),
            named_registry: named_views(self.named_registry@),
            tables: table_views(self.tables@),
            net_log: log_views(self.net_log@),
            receivers: receiver_views(self.receivers@),
        }
    }
}

/// The model a fresh interpreter starts in: an empty stack and registry,
/// and a table arena holding the globals table with the host's `util` and
/// `net` libraries installed (arena indices 1 and 2).
pub open spec fn spec_new_interp() -> SpecInterp {
    SpecInterp {
        stack: Seq::empty(),
        registry: Seq::empty(),
        named_registry: Seq::empty(),
        tables: seq![
            SpecTable {
                pairs: seq![
                    (SpecValue::Str("util"@), SpecValue::Table(1)),
                    (SpecValue::Str("net"@), SpecValue::Table(2)),
                ],
                meta: None,
            },
            SpecTable {
                pairs: seq![
                    (
                        SpecValue::Str("AddNetworkString"@),
                        SpecValue::Function(NativeFn::AddNetworkString),
                    ),
                ],
                meta: None,
            },
            SpecTable {
                pairs: seq![
                    (SpecValue::Str("Receive"@), SpecValue::Function(NativeFn::NetReceive)),
                ],
                meta: None,
            },
        ],
        net_log: Seq::empty(),
        receivers: Seq::empty(),
    }
}

impl LuaState {
    /// Whether the model is within the protocol's bounds.
    pub open spec fn wf(&self) -> bool {
        self@.wf()
    }

    /// A fresh interpreter with its standard libraries opened.
    pub fn new() -> (r: LuaState)
        ensures
            r@ == spec_new_interp(),
            r.wf(),
    {
        let mut globals: Vec<(Value, Value)> = Vec::new();
        globals.push((Value::Str(String::from_str("util")), Value::Table(1)));
        globals.push((Value::Str(String::from_str("net")), Value::Table(2)));
        let mut util: Vec<(Value, Value)> = Vec::new();
        util.push(
            (
                Value::Str(String::from_str("AddNetworkString")),
                Value::Function(NativeFn::AddNetworkString),
            ),
        );
        let mut net: Vec<(Value, Value)> = Vec::new();
        net.push((Value::Str(String::from_str("Receive")), Value::Function(NativeFn::NetReceive)));
        let mut tables: Vec<LuaTable> = Vec::new();
        tables.push(LuaTable { pairs: globals, meta: None });
        tables.push(LuaTable { pairs: util, meta: None });
        tables.push(LuaTable { pairs: net, meta: None });
        let r = LuaState {
            stack: Vec::new(),
            registry: Vec::new(),
            named_registry: Vec::new(),
            tables,
            net_log: Vec::new(),
            receivers: Vec::new(),
        };
        proof {
            assert(r@.tables =~= spec_new_interp().tables) by {
                assert(r@.tables[0].pairs =~= spec_new_interp().tables[0].pairs);
                assert(r@.tables[1].pairs =~= spec_new_interp().tables[1].pairs);
                assert(r@.tables[2].pairs =~= spec_new_interp().tables[2].pairs);
            }
            assert(r@.stack =~= spec_new_interp().stack);
            assert(r@.registry =~= spec_new_interp().registry);
            assert(r@.named_registry =~= spec_new_interp().named_registry);
            assert(r@.net_log =~= spec_new_interp().net_log);
            assert(r@.receivers =~= spec_new_interp().receivers);
        }
        r
    }

    /// Number of values on the stack: the index of the top slot.
    pub fn get_top(&self) -> (r: i32)
        requires
            self.wf(),
        ensures
            r == self@.stack.len(),
    {
        self.stack.len() as i32
    }

    /// The zero-based stack position of a (possibly negative) index.
    fn resolve_index(&self, index: i32) -> (r: usize)
        requires
            self.wf(),
            self@.valid_idx(index as int),
        ensures
            r as int == self@.abs(index as int),
    {
        let len = self.stack.len();
        if index > 0 {
            (index - 1) as usize
        } else {
            len - ((-index) as usize)
        }
    }

    fn push_value_raw(&mut self, v: Value)
        requires
            old(self).wf(),
            old(self)@.stack.len() < STACK_LIMIT,
        ensures
            final(self)@ == old(self)@.push(v@),
            final(self).wf(),
    {
        self.stack.push(v);
        proof {
            assert(self@.stack =~= old(self)@.stack.push(v@));
            assert(self@ == old(self)@.push(v@));
        }
    }

    /// Pushes nil.
    pub fn push_nil(&mut self)
        requires
            old(self).wf(),
            old(self)@.stack.len() < STACK_LIMIT,
        ensures
            final(self)@ == old(self)@.push(SpecValue::Nil),
            final(self).wf(),
    {
        self.push_value_raw(Value::Nil)
    }

    /// Pushes a boolean.
    pub fn push_boolean(&mut self, boolean: bool)
        requires
            old(self).wf(),
            old(self)@.stack.len() < STACK_LIMIT,
        ensures
            final(self)@ == old(self)@.push(SpecValue::Boolean(boolean)),
            final(self).wf(),
    {
        self.push_value_raw(Value::Boolean(boolean))
    }

    /// Pushes an integer.
    pub fn push_integer(&mut self, n: isize)
        requires
            old(self).wf(),
            old(self)@.stack.len() < STACK_LIMIT,
        ensures
            final(self)@ == old(self)@.push(SpecValue::Integer(n as int)),
            final(self).wf(),
    {
        self.push_value_raw(Value::Integer(n))
    }

    /// Pushes a string.
    pub fn push_string(&mut self, data: &str)
        requires
            old(self).wf(),
            old(self)@.stack.len() < STACK_LIMIT,
        ensures
            final(self)@ == old(self)@.push(SpecValue::Str(data@)),
            final(self).wf(),
    {
        self.push_value_raw(Value::Str(String::from_str(data)))
    }

    /// Pushes a light userdata: a bare host address carried as a value.
    pub fn push_lightuserdata(&mut self, data: usize)
        requires
            old(self).wf(),
            old(self)@.stack.len() < STACK_LIMIT,
        ensures
            final(self)@ == old(self)@.push(SpecValue::LightUserdata(data as int)),
            final(self).wf(),
    {
        self.push_value_raw(Value::LightUserdata(data))
    }

    /// Pushes a function.
    pub fn push_function(&mut self, func: NativeFn)
        requires
            old(self).wf(),
            old(self)@.stack.len() < STACK_LIMIT,
        ensures
            final(self)@ == old(self)@.push(SpecValue::Function(func)),
            final(self).wf(),
    {
        self.push_value_raw(Value::Function(func))
    }

    /// Pushes a copy of the value at an index; the globals pseudo-index
    /// pushes the globals table.
    pub fn push_value(&mut self, index: i32)
        requires
            old(self).wf(),
            old(self)@.stack.len() < STACK_LIMIT,
            old(self)@.valid_idx(index as int) || index == LUA_GLOBALSINDEX,
        ensures
            final(self)@ == old(self)@.push(
                if index == LUA_GLOBALSINDEX {
                    SpecValue::Table(0)
                } else {
                    old(self)@.at(index as int)
                },
            ),
            final(self).wf(),
    {
        if index == LUA_GLOBALSINDEX {
            self.push_value_raw(Value::Table(0));
        } else {
            let pos = self.resolve_index(index);
            let v = self.stack[pos].dup();
            self.push_value_raw(v);
        }
    }

    /// Pushes the globals table.
    pub fn push_globals(&mut self)
        requires
            old(self).wf(),
            old(self)@.stack.len() < STACK_LIMIT,
        ensures
            final(self)@ == old(self)@.push(SpecValue::Table(0)),
            final(self).wf(),
    {
        self.push_value(LUA_GLOBALSINDEX)
    }

    /// Sets the top of the stack: a non-negative index resizes to exactly
    /// that many slots (new slots are nil), a negative index drops slots
    /// from the top.
    pub fn set_top(&mut self, index: i32)
        requires
            old(self).wf(),
            index >= 0 ==> index <= STACK_LIMIT,
            index < 0 ==> old(self)@.stack.len() + index + 1 >= 0,
        ensures
            final(self)@ == old(self)@.with_stack(spec_settop(old(self)@.stack, index as int)),
            final(self).wf(),
    {
        let len = self.stack.len();
        if index >= 0 {
            let n = index as usize;
            if n <= len {
                self.stack.truncate(n);
                proof {
                    assert(self@.stack =~= spec_settop(old(self)@.stack, index as int));
                    assert(self@ == old(self)@.with_stack(
                        spec_settop(old(self)@.stack, index as int),
                    ));
                }
            } else {
                while self.stack.len() < n
                    invariant
                        len <= self.stack@.len() <= n,
                        n <= STACK_LIMIT,
                        value_views(self.stack@) =~= value_views(old(self).stack@) + Seq::new(
                            (self.stack@.len() - len) as nat,
                            |j: int| SpecValue::Nil,
                        ),
                        self.registry@ == old(self).registry@,
                        self.named_registry@ == old(self).named_registry@,
                        self.tables@ == old(self).tables@,
                        self.net_log@ == old(self).net_log@,
                        self.receivers@ == old(self).receivers@,
                        len == old(self).stack@.len(),
                    decreases n - self.stack@.len(),
                {
                    let ghost pre = self.stack@;
                    self.stack.push(Value::Nil);
                    proof {
                        assert(value_views(self.stack@) =~= value_views(pre).push(
                            SpecValue::Nil,
                        ));
                        assert(value_views(self.stack@) =~= value_views(old(self).stack@)
                            + Seq::new(
                            (self.stack@.len() - len) as nat,
                            |j: int| SpecValue::Nil,
                        ));
                    }
                }
                proof {
                    assert(self@.stack =~= spec_settop(old(self)@.stack, index as int));
                    assert(self@ == old(self)@.with_stack(
                        spec_settop(old(self)@.stack, index as int),
                    ));
                }
            }
        } else {
            let drop = (-(index + 1)) as usize;
            self.stack.truncate(len - drop);
            proof {
                assert(self@.stack =~= spec_settop(old(self)@.stack, index as int));
                assert(self@ == old(self)@.with_stack(
                    spec_settop(old(self)@.stack, index as int),
                ));
            }
        }
    }

    /// Pops `count` values.
    pub fn pop_n(&mut self, count: i32)
        requires
            old(self).wf(),
            0 <= count <= old(self)@.stack.len(),
        ensures
            final(self)@ == old(self)@.popn(count as int),
            final(self).wf(),
    {
        self.set_top(-count - 1);
        proof {
            assert(spec_settop(old(self)@.stack, -count - 1) =~= old(self)@.stack.take(
                old(self)@.stack.len() - count,
            ));
        }
    }

    /// Pops one value.
    pub fn pop(&mut self)
        requires
            old(self).wf(),
            old(self)@.stack.len() >= 1,
        ensures
            final(self)@ == old(self)@.popn(1),
            final(self).wf(),
    {
        self.pop_n(1);
    }

    /// The type code of the value at an index: the registry and globals
    /// pseudo-indices are tables, an invalid index has no value.
    pub fn lua_type(&self, index: i32) -> (r: i32)
        requires
            self.wf(),
        ensures
            r as int == spec_lua_type(self@, index as int),
    {
        if index == LUA_GLOBALSINDEX || index == LUA_REGISTRYINDEX {
            LUA_TTABLE
        } else if self.valid_index(index) {
            let pos = self.resolve_index(index);
            match &self.stack[pos] {
                Value::Nil => LUA_TNIL,
                Value::Boolean(_) => LUA_TBOOLEAN,
                Value::LightUserdata(_) => LUA_TLIGHTUSERDATA,
                Value::Integer(_) => LUA_TNUMBER,
                Value::Str(_) => LUA_TSTRING,
                Value::Table(_) => LUA_TTABLE,
                Value::Function(_) => LUA_TFUNCTION,
                Value::Userdata(_) => LUA_TUSERDATA,
            }
        } else {
            LUA_TNONE
        }
    }

    /// Whether an index denotes a stack slot.
    pub fn valid_index(&self, index: i32) -> (r: bool)
        requires
            self.wf(),
        ensures
            r == self@.valid_idx(index as int),
    {
        let len = self.stack.len();
        if index > 0 {
            (index as usize) <= len
        } else if index < 0 {
            let mag = -(index as i64);
            (mag as usize) <= len
        } else {
            false
        }
    }

    /// Whether the value at an index is nil.
    pub fn is_nil(&self, index: i32) -> (r: bool)
        requires
            self.wf(),
        ensures
            r == (spec_lua_type(self@, index as int) == LUA_TNIL),
    {
        self.lua_type(index) == LUA_TNIL
    }

    /// Whether the value at an index is a function.
    pub fn is_function(&self, index: i32) -> (r: bool)
        requires
            self.wf(),
        ensures
            r == (spec_lua_type(self@, index as int) == LUA_TFUNCTION),
    {
        self.lua_type(index) == LUA_TFUNCTION
    }

    /// Whether the value at an index is a table.
    pub fn is_table(&self, index: i32) -> (r: bool)
        requires
            self.wf(),
        ensures
            r == (spec_lua_type(self@, index as int) == LUA_TTABLE),
    {
        self.lua_type(index) == LUA_TTABLE
    }

    /// Whether the value at an index is a boolean.
    pub fn is_boolean(&self, index: i32) -> (r: bool)
        requires
            self.wf(),
        ensures
            r == (spec_lua_type(self@, index as int) == LUA_TBOOLEAN),
    {
        self.lua_type(index) == LUA_TBOOLEAN
    }

    /// Removes the value at a stack index, shifting what is above it down.
    pub fn remove(&mut self, index: i32)
        requires
            old(self).wf(),
            old(self)@.valid_idx(index as int),
        ensures
            final(self)@ == old(self)@.with_stack(
                old(self)@.stack.remove(old(self)@.abs(index as int)),
            ),
            final(self).wf(),
    {
        let pos = self.resolve_index(index);
        self.stack.remove(pos);
        proof {
            assert(self@.stack =~= old(self)@.stack.remove(old(self)@.abs(index as int)));
            assert(self@ == old(self)@.with_stack(
                old(self)@.stack.remove(old(self)@.abs(index as int)),
            ));
        }
    }

    /// Moves the top value to a stack index, shifting what is above that
    /// slot up.
    pub fn insert(&mut self, index: i32)
        requires
            old(self).wf(),
            old(self)@.stack.len() >= 1,
            old(self)@.valid_idx(index as int),
        ensures
            final(self)@ == old(self)@.with_stack(
                old(self)@.stack.drop_last().insert(
                    old(self)@.abs(index as int),
                    old(self)@.stack.last(),
                ),
            ),
            final(self).wf(),
    {
        let pos = self.resolve_index(index);
        let top = self.stack.pop().unwrap();
        proof {
            assert(value_views(self.stack@) =~= old(self)@.stack.drop_last());
        }
        if pos >= self.stack.len() {
            // moving the top to its own slot leaves the stack unchanged
            self.stack.push(top);
        } else {
            self.stack.insert(pos, top);
        }
        proof {
            assert(self@.stack =~= old(self)@.stack.drop_last().insert(
                old(self)@.abs(index as int),
                old(self)@.stack.last(),
            ));
            assert(self@ == old(self)@.with_stack(
                old(self)@.stack.drop_last().insert(
                    old(self)@.abs(index as int),
                    old(self)@.stack.last(),
                ),
            ));
        }
    }

    /// Pops the top value and writes it over the slot an index denotes.
    pub fn replace(&mut self, index: i32)
        requires
            old(self).wf(),
            old(self)@.stack.len() >= 1,
            old(self)@.valid_idx(index as int),
        ensures
            final(self)@ == old(self)@.with_stack(
                old(self)@.stack.update(
                    old(self)@.abs(index as int),
                    old(self)@.stack.last(),
                ).drop_last(),
            ),
            final(self).wf(),
    {
        let pos = self.resolve_index(index);
        let top = self.stack.pop().unwrap();
        proof {
            assert(value_views(self.stack@) =~= old(self)@.stack.drop_last());
        }
        if pos < self.stack.len() {
            self.stack.set(pos, top);
        }
        proof {
            assert(self@.stack =~= old(self)@.stack.update(
                old(self)@.abs(index as int),
                old(self)@.stack.last(),
            ).drop_last());
            assert(self@ == old(self)@.with_stack(
                old(self)@.stack.update(
                    old(self)@.abs(index as int),
                    old(self)@.stack.last(),
                ).drop_last(),
            ));
        }
    }

    /// The boolean reading of the value at an index: everything but nil and
    /// false reads as true; an invalid index reads as false.
    pub fn get_boolean(&self, index: i32) -> (r: bool)
        requires
            self.wf(),
        ensures
            r == spec_truthy(self@, index as int),
    {
        if self.valid_index(index) {
            let pos = self.resolve_index(index);
            match &self.stack[pos] {
                Value::Nil => false,
                Value::Boolean(b) => *b,
                _ => true,
            }
        } else {
            false
        }
    }

    /// The integer reading of the value at an index: its value for a
    /// number, zero for everything else (the model does not coerce numeric
    /// strings).
    pub fn to_integer(&self, index: i32) -> (r: isize)
        requires
            self.wf(),
        ensures
            r as int == spec_to_integer(self@, index as int),
    {
        if self.valid_index(index) {
            let pos = self.resolve_index(index);
            match &self.stack[pos] {
                Value::Integer(n) => *n,
                _ => 0,
            }
        } else {
            0
        }
    }

    /// Primitive equality of the values at two indices, without
    /// metamethods; false when either index is invalid.
    pub fn raw_equal(&self, a: i32, b: i32) -> (r: bool)
        requires
            self.wf(),
        ensures
            r == (self@.valid_idx(a as int) && self@.valid_idx(b as int) && self@.at(a as int)
                == self@.at(b as int)),
    {
        if self.valid_index(a) && self.valid_index(b) {
            let pa = self.resolve_index(a);
            let pb = self.resolve_index(b);
            value_eq(&self.stack[pa], &self.stack[pb])
        } else {
            false
        }
    }
}

/// The stack after a `set_top`: truncated to, or padded with nil up to, the
/// requested size.
pub open spec fn spec_settop(stack: Seq<SpecValue>, index: int) -> Seq<SpecValue> {
    let n = if index >= 0 {
        index
    } else {
        stack.len() + index + 1
    };
    if n <= stack.len() {
        stack.take(n)
    } else {
        stack + Seq::new((n - stack.len()) as nat, |j: int| SpecValue::Nil)
    }
}

/// The type code `lua_type` reports for an index: the registry and globals
/// pseudo-indices are tables, an invalid index has no value.
pub open spec fn spec_lua_type(s: SpecInterp, index: int) -> int {
    if index == LUA_GLOBALSINDEX || index == LUA_REGISTRYINDEX {
        5
    } else if s.valid_idx(index) {
        spec_type_code(s.at(index))
    } else {
        -1
    }
}

/// The boolean reading of the value at an index.
pub open spec fn spec_truthy(s: SpecInterp, index: int) -> bool {
    s.valid_idx(index) && !(s.at(index) == SpecValue::Nil) && !(s.at(index)
        == SpecValue::Boolean(false))
}

/// The integer reading of the value at an index.
pub open spec fn spec_to_integer(s: SpecInterp, index: int) -> int {
    match s.at(index) {
        SpecValue::Integer(n) => n,
        _ => 0,
    }
}


/// The first free registry slot, or -1 when every slot is taken.
pub open spec fn first_free(reg: Seq<Option<SpecValue>>) -> int
    decreases reg.len(),
{
    if reg.len() == 0 {
        -1
    } else if reg[0] is None {
        0
    } else {
        let r = first_free(reg.drop_first());
        if r < 0 {
            -1
        } else {
            r + 1
        }
    }
}

/// What `first_free` finds: the least free slot, or nothing when all are
/// taken.
pub proof fn lemma_first_free(reg: Seq<Option<SpecValue>>)
    ensures
        ({
            let f = first_free(reg);
            &&& f == -1 || 0 <= f < reg.len()
            &&& f == -1 ==> forall|i: int| 0 <= i < reg.len() ==> reg[i] is Some
            &&& f >= 0 ==> reg[f] is None && forall|i: int| 0 <= i < f ==> reg[i] is Some
        }),
    decreases reg.len(),
{
    if reg.len() > 0 && reg[0] is Some {
        lemma_first_free(reg.drop_first());
        let f0 = first_free(reg.drop_first());
        if f0 == -1 {
            assert forall|i: int| 0 <= i < reg.len() implies reg[i] is Some by {
                if i > 0 {
                    assert(reg.drop_first()[i - 1] is Some);
                }
            }
        } else {
            assert(reg[f0 + 1] == reg.drop_first()[f0]);
            assert forall|i: int| 0 <= i < f0 + 1 implies reg[i] is Some by {
                if i > 0 {
                    assert(reg.drop_first()[i - 1] is Some);
                }
            }
        }
    }
}

impl SpecInterp {
    /// The same state with another registry.
    pub open spec fn with_registry(self, reg: Seq<Option<SpecValue>>) -> SpecInterp {
        SpecInterp { registry: reg, ..self }
    }

    /// The state and handle `reference` produces: the top value is popped
    /// and stored in the first free registry slot (a fresh one if none is
    /// free); a reference of nil stores nothing and collapses to the nil
    /// handle.
    pub open spec fn spec_reference(self) -> (SpecInterp, int) {
        let v = self.stack.last();
        let popped = self.popn(1);
        if v == SpecValue::Nil {
            (popped, LUA_REFNIL as int)
        } else {
            let f = first_free(self.registry);
            if f >= 0 {
                (popped.with_registry(self.registry.update(f, Some(v))), f + 1)
            } else {
                (popped.with_registry(self.registry.push(Some(v))), self.registry.len() as int + 1)
            }
        }
    }

    /// The value a reference handle denotes: nil for freed, never-issued or
    /// sentinel handles.
    pub open spec fn registry_get(self, r: int) -> SpecValue {
        if 1 <= r <= self.registry.len() {
            match self.registry[r - 1] {
                Some(v) => v,
                None => SpecValue::Nil,
            }
        } else {
            SpecValue::Nil
        }
    }

    /// The state after releasing a reference handle: freeing an invalid or
    /// sentinel handle changes nothing.
    pub open spec fn spec_dereference(self, r: int) -> SpecInterp {
        if 1 <= r <= self.registry.len() {
            self.with_registry(self.registry.update(r - 1, None))
        } else {
            self
        }
    }
}

fn find_free_slot(reg: &Vec<Option<Value>>) -> (r: Option<usize>)
    ensures
        match r {
            Some(i) => first_free(opt_value_views(reg@)) == i as int,
            None => first_free(opt_value_views(reg@)) == -1,
        },
{
    let n = reg.len();
    let mut i: usize = 0;
    while i < n
        invariant
            i <= n,
            n == reg@.len(),
            forall|k: int| 0 <= k < i ==> reg@[k] is Some,
        decreases n - i,
    {
        if reg[i].is_none() {
            proof {
                lemma_first_free(opt_value_views(reg@));
                let f = first_free(opt_value_views(reg@));
                assert(opt_value_views(reg@)[i as int] is None);
                assert(forall|k: int|
                    0 <= k < i ==> #[trigger] opt_value_views(reg@)[k] is Some);
                if f < i {
                    assert(opt_value_views(reg@)[f] is None);
                }
                if f > i {
                    assert(opt_value_views(reg@)[i as int] is Some);
                }
            }
            return Some(i);
        }
        i = i + 1;
    }
    proof {
        lemma_first_free(opt_value_views(reg@));
        let f = first_free(opt_value_views(reg@));
        if f >= 0 {
            assert(reg@[f] is Some);
            assert(opt_value_views(reg@)[f] is None);
        }
    }
    None
}

impl LuaState {
    /// Pops the top value, stores it in the host-managed persistent
    /// registry, and returns the opaque handle under which it can be pushed
    /// back or released. A reference of nil stores nothing and returns the
    /// nil handle.
    pub fn reference(&mut self) -> (r: i32)
        requires
            old(self).wf(),
            old(self)@.stack.len() >= 1,
            old(self)@.registry.len() < REF_LIMIT,
        ensures
            final(self).wf(),
            final(self)@ == old(self)@.spec_reference().0,
            r as int == old(self)@.spec_reference().1,
    {
        let v = self.stack.pop().unwrap();
        proof {
            assert(value_views(self.stack@) =~= old(self)@.stack.drop_last());
            assert(old(self)@.popn(1).stack =~= old(self)@.stack.drop_last());
        }
        if let Value::Nil = v {
            return LUA_REFNIL;
        }
        match find_free_slot(&self.registry) {
            Some(slot) => {
                proof {
                    lemma_first_free(old(self)@.registry);
                }
                self.registry.set(slot, Some(v));
                proof {
                    assert(opt_value_views(self.registry@) =~= old(self)@.registry.update(
                        first_free(old(self)@.registry),
                        Some(old(self)@.stack.last()),
                    ));
                }
                (slot + 1) as i32
            },
            None => {
                let n = self.registry.len();
                self.registry.push(Some(v));
                proof {
                    assert(opt_value_views(self.registry@) =~= old(self)@.registry.push(
                        Some(old(self)@.stack.last()),
                    ));
                }
                (n + 1) as i32
            },
        }
    }

    /// Releases a registry slot so its handle no longer denotes a value.
    /// Releasing a sentinel or never-issued handle changes nothing.
    pub fn dereference(&mut self, reference: i32)
        requires
            old(self).wf(),
        ensures
            final(self).wf(),
            final(self)@ == old(self)@.spec_dereference(reference as int),
    {
        if reference >= 1 && (reference as usize) <= self.registry.len() {
            self.registry.set((reference - 1) as usize, None);
            proof {
                assert(opt_value_views(self.registry@) =~= old(self)@.registry.update(
                    reference - 1,
                    None,
                ));
            }
        }
    }

    /// Pushes the value a reference handle denotes back onto the stack;
    /// a freed or sentinel handle pushes nil.
    pub fn from_reference(&mut self, reference: i32)
        requires
            old(self).wf(),
            old(self)@.stack.len() < STACK_LIMIT,
        ensures
            final(self).wf(),
            final(self)@ == old(self)@.push(old(self)@.registry_get(reference as int)),
    {
        if reference >= 1 && (reference as usize) <= self.registry.len() {
            let slot = (reference - 1) as usize;
            match &self.registry[slot] {
                Some(v) => {
                    let c = v.dup();
                    proof {
                        assert(old(self)@.registry[reference - 1] is Some);
                    }
                    self.push_value_raw(c);
                },
                None => {
                    proof {
                        assert(old(self)@.registry[reference - 1] is None);
                    }
                    self.push_value_raw(Value::Nil);
                },
            }
        } else {
            self.push_value_raw(Value::Nil);
        }
    }

    /// The string reading of the value at an index: the characters of a
    /// string, or the decimal rendering of a number — in which case the
    /// slot itself is changed to that string, as the host conversion does.
    /// Anything else (the model does not stringify other types) is `None`.
    pub fn get_string(&mut self, index: i32) -> (r: Option<String>)
        requires
            old(self).wf(),
        ensures
            final(self).wf(),
            final(self)@ == spec_get_string(old(self)@, index as int).0,
            match r {
                Some(t) => spec_get_string(old(self)@, index as int).1 == Some(t@),
                None => spec_get_string(old(self)@, index as int).1 is None,
            },
    {
        if !self.valid_index(index) {
            return None;
        }
        let pos = self.resolve_index(index);
        match &self.stack[pos] {
            Value::Str(st) => Some(st.clone()),
            Value::Integer(n) => {
                let txt = crate::text::int_to_string(*n as i64);
                let copy = txt.clone();
                self.stack.set(pos, Value::Str(txt));
                proof {
                    assert(value_views(self.stack@) =~= old(self)@.stack.update(
                        old(self)@.abs(index as int),
                        SpecValue::Str(crate::text::spec_int_str(old(self)@.at(index as int)->Integer_0)),
                    ));
                }
                Some(copy)
            },
            _ => None,
        }
    }

    /// Like `get_string`, for an argument the caller requires to be
    /// convertible.
    pub fn check_string(&mut self, arg: i32) -> (r: String)
        requires
            old(self).wf(),
            old(self)@.at(arg as int) is Str || old(self)@.at(arg as int) is Integer,
            old(self)@.valid_idx(arg as int),
        ensures
            final(self).wf(),
            final(self)@ == spec_get_string(old(self)@, arg as int).0,
            spec_get_string(old(self)@, arg as int).1 == Some(r@),
    {
        let r = self.get_string(arg);
        r.unwrap()
    }

    /// The integer at an argument position the caller requires to be a
    /// number.
    pub fn check_integer(&self, arg: i32) -> (r: isize)
        requires
            self.wf(),
            self@.at(arg as int) is Integer,
        ensures
            r as int == self@.at(arg as int)->Integer_0,
    {
        let pos = self.resolve_index(arg);
        match &self.stack[pos] {
            Value::Integer(n) => *n,
            _ => 0,
        }
    }

    /// The boolean at an argument position the caller requires to be a
    /// boolean.
    pub fn check_boolean(&self, arg: i32) -> (r: bool)
        requires
            self.wf(),
            self@.at(arg as int) is Boolean,
        ensures
            r == self@.at(arg as int)->Boolean_0,
    {
        let pos = self.resolve_index(arg);
        match &self.stack[pos] {
            Value::Boolean(b) => *b,
            _ => false,
        }
    }

    /// The host's name for a type code; codes outside the table read as
    /// "no value".
    pub fn lua_type_name(&self, lua_type_id: i32) -> (r: String)
        ensures
            r@ == spec_type_name(lua_type_id as int),
    {
        let name: &str = if lua_type_id == LUA_TNIL {
            "nil"
        } else if lua_type_id == LUA_TBOOLEAN {
            "boolean"
        } else if lua_type_id == LUA_TLIGHTUSERDATA {
            "userdata"
        } else if lua_type_id == LUA_TNUMBER {
            "number"
        } else if lua_type_id == LUA_TSTRING {
            "string"
        } else if lua_type_id == LUA_TTABLE {
            "table"
        } else if lua_type_id == LUA_TFUNCTION {
            "function"
        } else if lua_type_id == LUA_TUSERDATA {
            "userdata"
        } else if lua_type_id == LUA_TTHREAD {
            "thread"
        } else {
            "no value"
        };
        String::from_str(name)
    }

    /// The name of the type of the value at an index.
    pub fn get_type(&self, index: i32) -> (r: String)
        requires
            self.wf(),
        ensures
            r@ == spec_type_name(spec_lua_type(self@, index as int)),
    {
        let code = self.lua_type(index);
        self.lua_type_name(code)
    }
}

/// The state and result of reading an index as a string: a string is read
/// as is; a number is rendered in decimal and the slot changed to that
/// string; anything else reads as nothing.
pub open spec fn spec_get_string(s: SpecInterp, i: int) -> (SpecInterp, Option<Seq<char>>) {
    match s.at(i) {
        SpecValue::Str(t) => (s, Some(t)),
        SpecValue::Integer(n) => (
            s.with_stack(s.stack.update(s.abs(i), SpecValue::Str(crate::text::spec_int_str(n)))),
            Some(crate::text::spec_int_str(n)),
        ),
        _ => (s, None),
    }
}

/// The host's name for a type code.
pub open spec fn spec_type_name(c: int) -> Seq<char> {
    if c == 0 {
        "nil"@
    } else if c == 1 {
        "boolean"@
    } else if c == 2 {
        "userdata"@
    } else if c == 3 {
        "number"@
    } else if c == 4 {
        "string"@
    } else if c == 5 {
        "table"@
    } else if c == 6 {
        "function"@
    } else if c == 7 {
        "userdata"@
    } else if c == 8 {
        "thread"@
    } else {
        "no value"@
    }
}


/// Index of the first entry with an equal key, or -1 when the key is
/// absent.
pub open spec fn tbl_first(pairs: Seq<(SpecValue, SpecValue)>, k: SpecValue) -> int
    decreases pairs.len(),
{
    if pairs.len() == 0 {
        -1
    } else if pairs[0].0 == k {
        0
    } else {
        let r = tbl_first(pairs.drop_first(), k);
        if r < 0 {
            -1
        } else {
            r + 1
        }
    }
}

/// The value stored under a key, nil when absent.
pub open spec fn tbl_get(pairs: Seq<(SpecValue, SpecValue)>, k: SpecValue) -> SpecValue {
    let i = tbl_first(pairs, k);
    if i < 0 {
        SpecValue::Nil
    } else {
        pairs[i].1
    }
}

/// The entries after storing a value under a key: storing nil removes the
/// entry, anything else replaces the first entry with that key or appends a
/// new one.
pub open spec fn tbl_set(
    pairs: Seq<(SpecValue, SpecValue)>,
    k: SpecValue,
    v: SpecValue,
) -> Seq<(SpecValue, SpecValue)> {
    let i = tbl_first(pairs, k);
    if v == SpecValue::Nil {
        if i < 0 {
            pairs
        } else {
            pairs.remove(i)
        }
    } else {
        if i < 0 {
            pairs.push((k, v))
        } else {
            pairs.update(i, (k, v))
        }
    }
}

/// What `tbl_first` finds: the least entry with the key, or nothing.
pub proof fn lemma_tbl_first(pairs: Seq<(SpecValue, SpecValue)>, k: SpecValue)
    ensures
        ({
            let f = tbl_first(pairs, k);
            &&& f == -1 || 0 <= f < pairs.len()
            &&& f == -1 ==> forall|i: int| 0 <= i < pairs.len() ==> (#[trigger] pairs[i]).0 != k
            &&& f >= 0 ==> pairs[f].0 == k && forall|i: int|
                0 <= i < f ==> (#[trigger] pairs[i]).0 != k
        }),
    decreases pairs.len(),
{
    if pairs.len() > 0 && pairs[0].0 != k {
        lemma_tbl_first(pairs.drop_first(), k);
        let f0 = tbl_first(pairs.drop_first(), k);
        if f0 == -1 {
            assert forall|i: int| 0 <= i < pairs.len() implies (#[trigger] pairs[i]).0 != k by {
                if i > 0 {
                    assert(pairs.drop_first()[i - 1].0 != k);
                }
            }
        } else {
            assert(pairs[f0 + 1] == pairs.drop_first()[f0]);
            assert forall|i: int| 0 <= i < f0 + 1 implies (#[trigger] pairs[i]).0 != k by {
                if i > 0 {
                    assert(pairs.drop_first()[i - 1].0 != k);
                }
            }
        }
    }
}

/// Index of the first named-registry entry with the name, or -1.
pub open spec fn named_first(named: Seq<(Seq<char>, int)>, name: Seq<char>) -> int
    decreases named.len(),
{
    if named.len() == 0 {
        -1
    } else if named[0].0 == name {
        0
    } else {
        let r = named_first(named.drop_first(), name);
        if r < 0 {
            -1
        } else {
            r + 1
        }
    }
}

/// The table the named registry binds to a name, or -1 when unbound.
pub open spec fn named_get(named: Seq<(Seq<char>, int)>, name: Seq<char>) -> int {
    let i = named_first(named, name);
    if i < 0 {
        -1
    } else {
        named[i].1
    }
}

/// What `named_first` finds.
pub proof fn lemma_named_first(named: Seq<(Seq<char>, int)>, name: Seq<char>)
    ensures
        ({
            let f = named_first(named, name);
            &&& f == -1 || 0 <= f < named.len()
            &&& f == -1 ==> forall|i: int| 0 <= i < named.len() ==> (#[trigger] named[i]).0 != name
            &&& f >= 0 ==> named[f].0 == name && forall|i: int|
                0 <= i < f ==> (#[trigger] named[i]).0 != name
        }),
    decreases named.len(),
{
    if named.len() > 0 && named[0].0 != name {
        lemma_named_first(named.drop_first(), name);
        let f0 = named_first(named.drop_first(), name);
        if f0 == -1 {
            assert forall|i: int| 0 <= i < named.len() implies (#[trigger] named[i]).0 != name by {
                if i > 0 {
                    assert(named.drop_first()[i - 1].0 != name);
                }
            }
        } else {
            assert(named[f0 + 1] == named.drop_first()[f0]);
            assert forall|i: int| 0 <= i < f0 + 1 implies (#[trigger] named[i]).0 != name by {
                if i > 0 {
                    assert(named.drop_first()[i - 1].0 != name);
                }
            }
        }
    }
}

impl SpecInterp {
    /// The same state with another table arena.
    pub open spec fn with_tables(self, ts: Seq<SpecTable>) -> SpecInterp {
        SpecInterp { tables: ts, ..self }
    }

    /// The arena index an index denotes for a table operation: the globals
    /// pseudo-index denotes the globals table; a stack slot holding a table
    /// denotes that table; anything else denotes nothing (-1).
    pub open spec fn target_table(self, i: int) -> int {
        if i == LUA_GLOBALSINDEX {
            0
        } else if self.valid_idx(i) {
            match self.at(i) {
                SpecValue::Table(t) => t,
                _ => -1,
            }
        } else {
            -1
        }
    }

    /// Whether an index denotes a table in the arena.
    pub open spec fn table_ok(self, i: int) -> bool {
        0 <= self.target_table(i) < self.tables.len()
    }

    /// The state after storing a value in an arena table.
    pub open spec fn set_pair(self, t: int, k: SpecValue, v: SpecValue) -> SpecInterp {
        self.with_tables(
            self.tables.update(
                t,
                SpecTable { pairs: tbl_set(self.tables[t].pairs, k, v), meta: self.tables[t].meta },
            ),
        )
    }
}

impl LuaTable {
    fn find(&self, k: &Value) -> (r: Option<usize>)
        ensures
            match r {
                Some(i) => tbl_first(self@.pairs, k@) == i as int,
                None => tbl_first(self@.pairs, k@) == -1,
            },
    {
        let n = self.pairs.len();
        let mut i: usize = 0;
        while i < n
            invariant
                i <= n,
                n == self.pairs@.len(),
                forall|j: int| 0 <= j < i ==> (#[trigger] self@.pairs[j]).0 != k@,
            decreases n - i,
        {
            if value_eq(&self.pairs[i].0, k) {
                proof {
                    lemma_tbl_first(self@.pairs, k@);
                    let f = tbl_first(self@.pairs, k@);
                    assert(self@.pairs[i as int].0 == k@);
                    if f > i {
                        assert(self@.pairs[i as int].0 != k@);
                    }
                }
                return Some(i);
            }
            proof {
                assert(self@.pairs[i as int].0 != k@);
            }
            i = i + 1;
        }
        proof {
            lemma_tbl_first(self@.pairs, k@);
            let f = tbl_first(self@.pairs, k@);
            if f >= 0 {
                assert(self@.pairs[f].0 == k@);
            }
        }
        None
    }

    fn get(&self, k: &Value) -> (r: Value)
        ensures
            r@ == tbl_get(self@.pairs, k@),
    {
        match self.find(k) {
            Some(i) => {
                proof {
                    lemma_tbl_first(self@.pairs, k@);
                }
                self.pairs[i].1.dup()
            },
            None => Value::Nil,
        }
    }

    fn set(&mut self, k: Value, v: Value)
        ensures
            final(self)@.pairs == tbl_set(old(self)@.pairs, k@, v@),
            final(self)@.meta == old(self)@.meta,
    {
        let nil = match &v {
            Value::Nil => true,
            _ => false,
        };
        match self.find(&k) {
            Some(i) => {
                proof {
                    lemma_tbl_first(self@.pairs, k@);
                }
                if nil {
                    self.pairs.remove(i);
                    proof {
                        assert(self@.pairs =~= tbl_set(old(self)@.pairs, k@, v@));
                    }
                } else {
                    self.pairs.set(i, (k, v));
                    proof {
                        assert(self@.pairs =~= tbl_set(old(self)@.pairs, k@, v@));
                    }
                }
            },
            None => {
                if !nil {
                    self.pairs.push((k, v));
                    proof {
                        assert(self@.pairs =~= tbl_set(old(self)@.pairs, k@, v@));
                    }
                } else {
                    proof {
                        assert(self@.pairs =~= tbl_set(old(self)@.pairs, k@, v@));
                    }
                }
            },
        }
    }
}

impl LuaState {
    /// The arena index an index denotes for a table operation.
    fn resolve_table(&self, index: i32) -> (r: usize)
        requires
            self.wf(),
            self@.table_ok(index as int),
        ensures
            r as int == self@.target_table(index as int),
    {
        if index == LUA_GLOBALSINDEX {
            0
        } else {
            let pos = self.resolve_index(index);
            match &self.stack[pos] {
                Value::Table(t) => *t,
                _ => 0,
            }
        }
    }

    fn arena_get(&self, t: usize, k: &Value) -> (r: Value)
        requires
            self.wf(),
            t < self@.tables.len(),
        ensures
            r@ == tbl_get(self@.tables[t as int].pairs, k@),
    {
        self.tables[t].get(k)
    }

    fn arena_set(&mut self, t: usize, k: Value, v: Value)
        requires
            old(self).wf(),
            t < old(self)@.tables.len(),
        ensures
            final(self).wf(),
            final(self)@ == old(self)@.set_pair(t as int, k@, v@),
    {
        let mut tbl = self.tables.remove(t);
        tbl.set(k, v);
        self.tables.insert(t, tbl);
        proof {
            assert(table_views(self.tables@) =~~= old(self)@.tables.update(
                t as int,
                SpecTable {
                    pairs: tbl_set(old(self)@.tables[t as int].pairs, k@, v@),
                    meta: old(self)@.tables[t as int].meta,
                },
            ));
            assert(self@ == old(self)@.set_pair(t as int, k@, v@));
        }
    }

    /// Pushes the value stored under a string key in the table an index
    /// denotes; on the registry pseudo-index, the table registered under
    /// that name (or nil).
    pub fn get_field(&mut self, index: i32, k: &str)
        requires
            old(self).wf(),
            old(self)@.stack.len() < STACK_LIMIT,
            index == LUA_REGISTRYINDEX || old(self)@.table_ok(index as int),
        ensures
            final(self).wf(),
            final(self)@ == old(self)@.push(spec_get_field(old(self)@, index as int, k@)),
    {
        if index == LUA_REGISTRYINDEX {
            match self.named_lookup(k) {
                Some(t) => self.push_value_raw(Value::Table(t)),
                None => self.push_value_raw(Value::Nil),
            }
        } else {
            let t = self.resolve_table(index);
            let key = Value::Str(String::from_str(k));
            let v = self.arena_get(t, &key);
            self.push_value_raw(v);
        }
    }

    fn named_lookup(&self, name: &str) -> (r: Option<usize>)
        requires
            self.wf(),
        ensures
            match r {
                Some(t) => named_get(self@.named_registry, name@) == t as int,
                None => named_get(self@.named_registry, name@) == -1,
            },
    {
        let n = self.named_registry.len();
        let mut i: usize = 0;
        while i < n
            invariant
                i <= n,
                n == self.named_registry@.len(),
                forall|j: int|
                    0 <= j < i ==> (#[trigger] named_views(self.named_registry@)[j]).0 != name@,
            decreases n - i,
        {
            if crate::text::str_eq(self.named_registry[i].0.as_str(), name) {
                proof {
                    lemma_named_first(self@.named_registry, name@);
                    let f = named_first(self@.named_registry, name@);
                    assert(named_views(self.named_registry@)[i as int].0 == name@);
                    if f > i {
                        assert(named_views(self.named_registry@)[i as int].0 != name@);
                    }
                }
                return Some(self.named_registry[i].1);
            }
            proof {
                assert(named_views(self.named_registry@)[i as int].0 != name@);
            }
            i = i + 1;
        }
        proof {
            lemma_named_first(self@.named_registry, name@);
            let f = named_first(self@.named_registry, name@);
            if f >= 0 {
                assert(named_views(self.named_registry@)[f].0 == name@);
            }
        }
        None
    }

    /// Pops the top value and stores it under a string key in the table an
    /// index denotes. The slot the index denotes must lie below the popped
    /// value.
    pub fn set_field(&mut self, index: i32, k: &str)
        requires
            old(self).wf(),
            old(self)@.stack.len() >= 1,
            old(self)@.table_ok(index as int),
            index != LUA_GLOBALSINDEX ==> old(self)@.abs(index as int) < old(
                self,
            )@.stack.len() - 1,
        ensures
            final(self).wf(),
            final(self)@ == old(self)@.popn(1).set_pair(
                old(self)@.target_table(index as int),
                SpecValue::Str(k@),
                old(self)@.stack.last(),
            ),
    {
        let t = self.resolve_table(index);
        let v = self.stack.pop().unwrap();
        proof {
            assert(value_views(self.stack@) =~= old(self)@.stack.drop_last());
        }
        let key = Value::Str(String::from_str(k));
        self.arena_set(t, key, v);
    }

    /// Pushes the global stored under a name.
    pub fn get_global(&mut self, name: &str)
        requires
            old(self).wf(),
            old(self)@.stack.len() < STACK_LIMIT,
        ensures
            final(self).wf(),
            final(self)@ == old(self)@.push(
                spec_get_field(old(self)@, LUA_GLOBALSINDEX as int, name@),
            ),
    {
        self.get_field(LUA_GLOBALSINDEX, name)
    }

    /// Pops the top value and stores it as the global under a name.
    pub fn set_global(&mut self, name: &str)
        requires
            old(self).wf(),
            old(self)@.stack.len() >= 1,
        ensures
            final(self).wf(),
            final(self)@ == old(self)@.popn(1).set_pair(
                0,
                SpecValue::Str(name@),
                old(self)@.stack.last(),
            ),
    {
        self.set_field(LUA_GLOBALSINDEX, name)
    }

    /// Creates a fresh empty table in the arena and pushes it. The size
    /// hints only ever pre-allocate; they never change what the table holds.
    pub fn create_table(&mut self, seq_n: i32, hash_n: i32)
        requires
            old(self).wf(),
            old(self)@.stack.len() < STACK_LIMIT,
            seq_n >= 0,
            hash_n >= 0,
        ensures
            final(self).wf(),
            final(self)@ == spec_create_table(old(self)@),
    {
        let id = self.tables.len();
        self.tables.push(LuaTable { pairs: Vec::new(), meta: None });
        proof {
            assert(table_views(self.tables@) =~~= old(self)@.tables.push(
                SpecTable { pairs: Seq::empty(), meta: None },
            ));
            assert(table_views(self.tables@)[id as int].pairs =~= Seq::<(
                SpecValue,
                SpecValue,
            )>::empty());
        }
        self.push_value_raw(Value::Table(id));
        proof {
            assert(self@ == spec_create_table(old(self)@));
        }
    }

    /// Creates a fresh empty table without pre-allocation hints.
    pub fn new_table(&mut self)
        requires
            old(self).wf(),
            old(self)@.stack.len() < STACK_LIMIT,
        ensures
            final(self).wf(),
            final(self)@ == spec_create_table(old(self)@),
    {
        self.create_table(0, 0)
    }

    /// Pops a key and pushes the value stored under it in the table an
    /// index denotes.
    pub fn get_table(&mut self, index: i32)
        requires
            old(self).wf(),
            old(self)@.stack.len() >= 1,
            old(self)@.table_ok(index as int),
            index != LUA_GLOBALSINDEX ==> old(self)@.abs(index as int) < old(
                self,
            )@.stack.len() - 1,
        ensures
            final(self).wf(),
            final(self)@ == old(self)@.popn(1).push(
                tbl_get(
                    old(self)@.tables[old(self)@.target_table(index as int)].pairs,
                    old(self)@.stack.last(),
                ),
            ),
    {
        let t = self.resolve_table(index);
        let k = self.stack.pop().unwrap();
        proof {
            assert(value_views(self.stack@) =~= old(self)@.stack.drop_last());
        }
        let v = self.arena_get(t, &k);
        self.push_value_raw(v);
    }

    /// Pops a value and a key (the value on top) and stores the value under
    /// the key in the table an index denotes.
    pub fn set_table(&mut self, index: i32)
        requires
            old(self).wf(),
            old(self)@.stack.len() >= 2,
            old(self)@.table_ok(index as int),
            index != LUA_GLOBALSINDEX ==> old(self)@.abs(index as int) < old(
                self,
            )@.stack.len() - 2,
        ensures
            final(self).wf(),
            final(self)@ == old(self)@.popn(2).set_pair(
                old(self)@.target_table(index as int),
                old(self)@.stack[old(self)@.stack.len() - 2],
                old(self)@.stack.last(),
            ),
    {
        let t = self.resolve_table(index);
        let v = self.stack.pop().unwrap();
        let k = self.stack.pop().unwrap();
        proof {
            assert(value_views(self.stack@) =~= old(self)@.stack.take(
                old(self)@.stack.len() - 2,
            ));
        }
        self.arena_set(t, k, v);
    }

    /// Pushes the value stored under an integer key in the table an index
    /// denotes, without metamethods; on the registry pseudo-index, the value
    /// a reference handle denotes.
    pub fn raw_geti(&mut self, t: i32, index: i32)
        requires
            old(self).wf(),
            old(self)@.stack.len() < STACK_LIMIT,
            t == LUA_REGISTRYINDEX || old(self)@.table_ok(t as int),
        ensures
            final(self).wf(),
            final(self)@ == old(self)@.push(spec_raw_geti(old(self)@, t as int, index as int)),
    {
        if t == LUA_REGISTRYINDEX {
            self.from_reference(index)
        } else {
            let tid = self.resolve_table(t);
            let key = Value::Integer(index as isize);
            let v = self.arena_get(tid, &key);
            self.push_value_raw(v);
        }
    }

    /// Pops a value and stores it under an integer key in the table an
    /// index denotes, without metamethods.
    pub fn raw_seti(&mut self, t: i32, index: i32)
        requires
            old(self).wf(),
            old(self)@.stack.len() >= 1,
            old(self)@.table_ok(t as int),
            t != LUA_GLOBALSINDEX ==> old(self)@.abs(t as int) < old(self)@.stack.len() - 1,
        ensures
            final(self).wf(),
            final(self)@ == old(self)@.popn(1).set_pair(
                old(self)@.target_table(t as int),
                SpecValue::Integer(index as int),
                old(self)@.stack.last(),
            ),
    {
        let tid = self.resolve_table(t);
        let v = self.stack.pop().unwrap();
        proof {
            assert(value_views(self.stack@) =~= old(self)@.stack.drop_last());
        }
        self.arena_set(tid, Value::Integer(index as isize), v);
    }
}

/// What `get_field` pushes: on the registry pseudo-index, the table
/// registered under the name; otherwise the value under the string key in
/// the table the index denotes.
pub open spec fn spec_get_field(s: SpecInterp, index: int, k: Seq<char>) -> SpecValue {
    if index == LUA_REGISTRYINDEX {
        let t = named_get(s.named_registry, k);
        if t >= 0 {
            SpecValue::Table(t)
        } else {
            SpecValue::Nil
        }
    } else {
        tbl_get(s.tables[s.target_table(index)].pairs, SpecValue::Str(k))
    }
}

/// The state after creating a fresh table: the arena grows by an empty
/// table and that table is pushed.
pub open spec fn spec_create_table(s: SpecInterp) -> SpecInterp {
    s.with_tables(s.tables.push(SpecTable { pairs: Seq::empty(), meta: None })).push(
        SpecValue::Table(s.tables.len() as int),
    )
}

/// What `raw_geti` pushes: on the registry pseudo-index, the value a
/// reference handle denotes; otherwise the value under the integer key.
pub open spec fn spec_raw_geti(s: SpecInterp, t: int, index: int) -> SpecValue {
    if t == LUA_REGISTRYINDEX {
        s.registry_get(index)
    } else {
        tbl_get(s.tables[s.target_table(t)].pairs, SpecValue::Integer(index))
    }
}


impl SpecInterp {
    /// The metatable attached to the value at an index, if any.
    pub open spec fn meta_of(self, i: int) -> Option<int> {
        if i == LUA_GLOBALSINDEX {
            self.tables[0].meta
        } else {
            match self.at(i) {
                SpecValue::Table(t) => if 0 <= t < self.tables.len() {
                    self.tables[t].meta
                } else {
                    None
                },
                SpecValue::Userdata { meta, .. } => meta,
                _ => None,
            }
        }
    }

    /// The state after changing an arena table's metatable.
    pub open spec fn set_meta(self, t: int, m: Option<int>) -> SpecInterp {
        self.with_tables(
            self.tables.update(t, SpecTable { pairs: self.tables[t].pairs, meta: m }),
        )
    }

    /// The same state with another named registry.
    pub open spec fn with_named(self, named: Seq<(Seq<char>, int)>) -> SpecInterp {
        SpecInterp { named_registry: named, ..self }
    }
}

/// The state and answer of `new_metatable`: an already-registered name has
/// its table pushed and answers false; a fresh name registers a fresh empty
/// table, pushes it and answers true.
pub open spec fn spec_new_metatable(s: SpecInterp, name: Seq<char>) -> (SpecInterp, bool) {
    let existing = named_get(s.named_registry, name);
    if existing >= 0 {
        (s.push(SpecValue::Table(existing)), false)
    } else {
        let id = s.tables.len() as int;
        (
            s.with_tables(s.tables.push(SpecTable { pairs: Seq::empty(), meta: None }))
                .with_named(s.named_registry.push((name, id)))
                .push(SpecValue::Table(id)),
            true,
        )
    }
}

impl LuaState {
    /// Pushes the metatable of the value at an index and answers 1; when the
    /// value has none, pushes nothing and answers 0.
    pub fn get_metatable(&mut self, index: i32) -> (r: i32)
        requires
            old(self).wf(),
            old(self)@.stack.len() < STACK_LIMIT,
            old(self)@.valid_idx(index as int) || index == LUA_GLOBALSINDEX,
        ensures
            final(self).wf(),
            match old(self)@.meta_of(index as int) {
                Some(m) => final(self)@ == old(self)@.push(SpecValue::Table(m)) && r == 1,
                None => final(self)@ == old(self)@ && r == 0,
            },
    {
        let meta: Option<usize> = if index == LUA_GLOBALSINDEX {
            self.tables[0].meta
        } else {
            let pos = self.resolve_index(index);
            match &self.stack[pos] {
                Value::Table(t) => {
                    if *t < self.tables.len() {
                        self.tables[*t].meta
                    } else {
                        None
                    }
                },
                Value::Userdata(u) => u.meta,
                _ => None,
            }
        };
        match meta {
            Some(m) => {
                self.push_value_raw(Value::Table(m));
                1
            },
            None => 0,
        }
    }

    /// Pops a table (or nil) off the top and installs it as (or clears) the
    /// metatable of the table at an index; answers 1 as the host does.
    pub fn set_metatable(&mut self, index: i32) -> (r: i32)
        requires
            old(self).wf(),
            old(self)@.stack.len() >= 1,
            old(self)@.stack.last() is Table || old(self)@.stack.last() is Nil,
            old(self)@.table_ok(index as int),
            index != LUA_GLOBALSINDEX ==> old(self)@.abs(index as int) < old(
                self,
            )@.stack.len() - 1,
        ensures
            final(self).wf(),
            r == 1,
            final(self)@ == old(self)@.popn(1).set_meta(
                old(self)@.target_table(index as int),
                match old(self)@.stack.last() {
                    SpecValue::Table(m) => Some(m),
                    _ => None,
                },
            ),
    {
        let t = self.resolve_table(index);
        let top = self.stack.pop().unwrap();
        proof {
            assert(value_views(self.stack@) =~= old(self)@.stack.drop_last());
        }
        let m: Option<usize> = match top {
            Value::Table(mt) => Some(mt),
            _ => None,
        };
        let mut tbl = self.tables.remove(t);
        tbl.meta = m;
        self.tables.insert(t, tbl);
        proof {
            assert(table_views(self.tables@) =~~= old(self)@.tables.update(
                t as int,
                SpecTable {
                    pairs: old(self)@.tables[t as int].pairs,
                    meta: match old(self)@.stack.last() {
                        SpecValue::Table(mm) => Some(mm),
                        _ => None,
                    },
                },
            ));
        }
        1
    }

    /// Registers a metatable under a name in the registry: a fresh name gets
    /// a fresh empty table (registered, pushed, answer true); a known name
    /// has its table pushed (answer false).
    pub fn new_metatable(&mut self, name: &str) -> (r: bool)
        requires
            old(self).wf(),
            old(self)@.stack.len() < STACK_LIMIT,
        ensures
            final(self).wf(),
            final(self)@ == spec_new_metatable(old(self)@, name@).0,
            r == spec_new_metatable(old(self)@, name@).1,
    {
        match self.named_lookup(name) {
            Some(t) => {
                self.push_value_raw(Value::Table(t));
                false
            },
            None => {
                let id = self.tables.len();
                self.tables.push(LuaTable { pairs: Vec::new(), meta: None });
                self.named_registry.push((String::from_str(name), id));
                proof {
                    assert(table_views(self.tables@) =~~= old(self)@.tables.push(
                        SpecTable { pairs: Seq::empty(), meta: None },
                    ));
                    assert(named_views(self.named_registry@) =~= old(
                        self,
                    )@.named_registry.push((name@, id as int)));
                }
                self.push_value_raw(Value::Table(id));
                true
            },
        }
    }

    /// Pushes a tagged userdata, attaching the metatable registered under
    /// the given name if one is asked for.
    pub fn push_userdata(&mut self, ud: crate::userdata::TaggedUserData, meta_name: Option<&str>)
        requires
            old(self).wf(),
            old(self)@.stack.len() < STACK_LIMIT,
            match meta_name {
                Some(n) => named_get(old(self)@.named_registry, n@) >= 0,
                None => true,
            },
        ensures
            final(self).wf(),
            final(self)@ == old(self)@.push(
                SpecValue::Userdata {
                    addr: ud.data as int,
                    tag: ud.tag,
                    meta: match meta_name {
                        Some(n) => Some(named_get(old(self)@.named_registry, n@)),
                        None => None,
                    },
                },
            ),
    {
        let meta: Option<usize> = match meta_name {
            Some(n) => self.named_lookup(n),
            None => None,
        };
        self.push_value_raw(Value::Userdata(crate::value::UserDataValue { ud, meta }));
    }

    /// Whether the value at an index is a userdata whose metatable is the
    /// one registered under the given name; the stack is left unchanged.
    pub fn test_userdata(&self, index: i32, name: &str) -> (r: bool)
        requires
            self.wf(),
        ensures
            r == (self@.at(index as int) matches SpecValue::Userdata { meta: Some(m), .. }
                && named_get(self@.named_registry, name@) == m),
    {
        if !self.valid_index(index) {
            return false;
        }
        let pos = self.resolve_index(index);
        let meta: Option<usize> = match &self.stack[pos] {
            Value::Userdata(u) => u.meta,
            _ => None,
        };
        match meta {
            Some(m) => match self.named_lookup(name) {
                Some(t) => m == t,
                None => false,
            },
            None => false,
        }
    }

    /// The tagged userdata at an argument position the caller requires to
    /// carry the metatable registered under the given name.
    pub fn check_userdata(&self, arg: i32, name: &str) -> (r: crate::userdata::TaggedUserData)
        requires
            self.wf(),
            self@.at(arg as int) matches SpecValue::Userdata { meta: Some(m), .. }
                && named_get(self@.named_registry, name@) == m,
        ensures
            self@.at(arg as int) matches SpecValue::Userdata { addr, tag, .. } && r.data as int
                == addr && r.tag == tag,
    {
        let pos = self.resolve_index(arg);
        match &self.stack[pos] {
            Value::Userdata(u) => u.ud,
            _ => crate::userdata::TaggedUserData {
                data: 0,
                tag: crate::userdata::UserData::Missing,
            },
        }
    }
}


/// The sequence border of a table scanned upward from `n`: the first count
/// whose successor is not a key (capped by the entry count, which the
/// border can never exceed).
pub open spec fn spec_border(pairs: Seq<(SpecValue, SpecValue)>, n: nat) -> nat
    decreases pairs.len() - n,
    when n <= pairs.len()
{
    if n >= pairs.len() || tbl_first(pairs, SpecValue::Integer(n as int + 1)) < 0 {
        n
    } else {
        spec_border(pairs, n + 1)
    }
}

impl LuaTable {
    fn border(&self) -> (r: usize)
        requires
            self.pairs@.len() <= 0x7fff_fffe,
        ensures
            r as int == spec_border(self@.pairs, 0),
            r <= self.pairs@.len(),
    {
        let n = self.pairs.len();
        let mut b: usize = 0;
        let mut done = false;
        while !done
            invariant
                b <= n,
                n <= 0x7fff_fffe,
                n == self.pairs@.len(),
                !done ==> spec_border(self@.pairs, 0) == spec_border(self@.pairs, b as nat),
                done ==> spec_border(self@.pairs, 0) == b as nat,
            decreases n - b + (if done { 0int } else { 1int }),
        {
            if b >= n {
                proof {
                    assert(spec_border(self@.pairs, b as nat) == b as nat);
                }
                done = true;
            } else {
                let key = Value::Integer((b + 1) as isize);
                proof {
                    assert(b + 1 <= n);
                    assert(key@ == SpecValue::Integer(b as int + 1));
                }
                match self.find(&key) {
                    Some(_) => {
                        b = b + 1;
                    },
                    None => {
                        proof {
                            assert(spec_border(self@.pairs, b as nat) == b as nat);
                        }
                        done = true;
                    },
                }
            }
        }
        b
    }
}

/// The length `len` reports for an index: the character count of a string,
/// the sequence border of a table, zero otherwise.
pub open spec fn spec_objlen(s: SpecInterp, i: int) -> int {
    match s.at(i) {
        SpecValue::Str(t) => t.len() as int,
        SpecValue::Table(t) => if 0 <= t < s.tables.len() {
            spec_border(s.tables[t].pairs, 0) as int
        } else {
            0
        },
        _ => 0,
    }
}

/// The state and answer of `next`: the key on top is popped; nil asks for
/// the first entry; a present key asks for the entry after it; when no
/// entry follows, nothing is pushed and the answer is 0, otherwise the next
/// entry's key and value are pushed and the answer is 1.
pub open spec fn spec_next(s: SpecInterp, i: int) -> (SpecInterp, int) {
    let t = s.target_table(i);
    let pairs = s.tables[t].pairs;
    let k = s.stack.last();
    let popped = s.popn(1);
    if k == SpecValue::Nil {
        if pairs.len() == 0 {
            (popped, 0)
        } else {
            (popped.push(pairs[0].0).push(pairs[0].1), 1)
        }
    } else {
        let f = tbl_first(pairs, k);
        if f + 1 < pairs.len() {
            (popped.push(pairs[f + 1].0).push(pairs[f + 1].1), 1)
        } else {
            (popped, 0)
        }
    }
}

impl LuaState {
    /// The primitive length of the value at an index: a string's character
    /// count, a table's sequence border, zero for anything else.
    pub fn len(&self, index: i32) -> (r: i32)
        requires
            self.wf(),
            spec_objlen(self@, index as int) <= 0x7fff_ffff,
            self@.at(index as int) matches SpecValue::Table(t) ==> 0 <= t < self@.tables.len()
                && self@.tables[t].pairs.len() <= 0x7fff_fffe,
        ensures
            r as int == spec_objlen(self@, index as int),
    {
        if !self.valid_index(index) {
            return 0;
        }
        let pos = self.resolve_index(index);
        match &self.stack[pos] {
            Value::Str(st) => st.as_str().unicode_len() as i32,
            Value::Table(t) => {
                if *t < self.tables.len() {
                    self.tables[*t].border() as i32
                } else {
                    0
                }
            },
            _ => 0,
        }
    }

    /// Pops a key and pushes the next entry of the table an index denotes:
    /// nil asks for the first entry; the answer is 1 with the next key and
    /// value pushed, or 0 with nothing pushed once the table is exhausted.
    /// The key must be nil or present in the table.
    pub fn next(&mut self, index: i32) -> (r: i32)
        requires
            old(self).wf(),
            old(self)@.stack.len() >= 1,
            old(self)@.stack.len() < STACK_LIMIT,
            old(self)@.table_ok(index as int),
            index != LUA_GLOBALSINDEX ==> old(self)@.abs(index as int) < old(
                self,
            )@.stack.len() - 1,
            old(self)@.stack.last() == SpecValue::Nil || tbl_first(
                old(self)@.tables[old(self)@.target_table(index as int)].pairs,
                old(self)@.stack.last(),
            ) >= 0,
        ensures
            final(self).wf(),
            final(self)@ == spec_next(old(self)@, index as int).0,
            r as int == spec_next(old(self)@, index as int).1,
    {
        let t = self.resolve_table(index);
        let k = self.stack.pop().unwrap();
        proof {
            assert(value_views(self.stack@) =~= old(self)@.stack.drop_last());
        }
        let is_nil = match &k {
            Value::Nil => true,
            _ => false,
        };
        let entry: Option<(Value, Value)> = if is_nil {
            if self.tables[t].pairs.len() == 0 {
                None
            } else {
                let tb = &self.tables[t];
                Some((tb.pairs[0].0.dup(), tb.pairs[0].1.dup()))
            }
        } else {
            proof {
                lemma_tbl_first(
                    old(self)@.tables[old(self)@.target_table(index as int)].pairs,
                    old(self)@.stack.last(),
                );
            }
            match self.tables[t].find(&k) {
                Some(f) => {
                    let n = self.tables[t].pairs.len();
                    proof {
                        lemma_tbl_first(self.tables@[t as int]@.pairs, k@);
                        assert(f < n);
                    }
                    if f + 1 < n {
                        let tb = &self.tables[t];
                        Some((tb.pairs[f + 1].0.dup(), tb.pairs[f + 1].1.dup()))
                    } else {
                        None
                    }
                },
                None => None,
            }
        };
        match entry {
            Some(kv) => {
                self.push_value_raw(kv.0);
                self.push_value_raw(kv.1);
                1
            },
            None => 0,
        }
    }
}


impl SpecInterp {
    /// The same state with another network-string log.
    pub open spec fn with_net_log(self, log: Seq<Seq<char>>) -> SpecInterp {
        SpecInterp { net_log: log, ..self }
    }

    /// The same state with other receivers.
    pub open spec fn with_receivers(self, rs: Seq<(Seq<char>, SpecValue)>) -> SpecInterp {
        SpecInterp { receivers: rs, ..self }
    }
}

/// What running one host function does: the state it leaves (the stack is
/// untouched; only the observation logs can change) and either its results
/// or the error value it raised.
pub open spec fn spec_apply(f: NativeFn, args: Seq<SpecValue>, s: SpecInterp) -> (
    SpecInterp,
    Result<Seq<SpecValue>, SpecValue>,
) {
    match f {
        NativeFn::Identity => (s, Ok(args)),
        NativeFn::Raise => (
            s,
            Err(
                if args.len() > 0 {
                    args[0]
                } else {
                    SpecValue::Nil
                },
            ),
        ),
        NativeFn::AddNetworkString => if args.len() >= 1 && args[0] is Str {
            (s.with_net_log(s.net_log.push(args[0]->Str_0)), Ok(Seq::empty()))
        } else {
            (s, Err(SpecValue::Str("bad argument"@)))
        },
        NativeFn::NetReceive => if args.len() >= 2 && args[0] is Str {
            (s.with_receivers(s.receivers.push((args[0]->Str_0, args[1]))), Ok(Seq::empty()))
        } else {
            (s, Err(SpecValue::Str("bad argument"@)))
        },
    }
}

/// Results adjusted to the requested count: every result when all are asked
/// for, otherwise truncated or padded with nil to exactly the count.
pub open spec fn adjust_results(res: Seq<SpecValue>, nresults: int) -> Seq<SpecValue> {
    if nresults < 0 {
        res
    } else if nresults <= res.len() {
        res.take(nresults)
    } else {
        res + Seq::new((nresults - res.len()) as nat, |j: int| SpecValue::Nil)
    }
}

/// The state and status of a protected call: the function and its arguments
/// are consumed; on success the adjusted results are pushed and the status
/// is 0; on an error inside the call (or a non-function callee) the single
/// error value is pushed and the status is the runtime-error code.
pub open spec fn spec_pcall(s: SpecInterp, nargs: int, nresults: int) -> (SpecInterp, int) {
    let fpos = s.stack.len() - nargs - 1;
    let fval = s.stack[fpos];
    let args = s.stack.skip(fpos + 1);
    let base = s.with_stack(s.stack.take(fpos));
    match fval {
        SpecValue::Function(nf) => {
            let res = spec_apply(nf, args, base);
            match res.1 {
                Ok(results) => (
                    res.0.with_stack(res.0.stack + adjust_results(results, nresults)),
                    0,
                ),
                Err(e) => (res.0.push(e), LUA_ERRRUN as int),
            }
        },
        _ => (
            base.push(SpecValue::Str("attempt to call a non-function value"@)),
            LUA_ERRRUN as int,
        ),
    }
}

impl LuaState {
    fn apply_native(&mut self, f: NativeFn, args: Vec<Value>) -> (r: Result<Vec<Value>, Value>)
        requires
            old(self).wf(),
        ensures
            final(self).wf(),
            final(self)@ == spec_apply(f, value_views(args@), old(self)@).0,
            match r {
                Ok(results) => spec_apply(f, value_views(args@), old(self)@).1 == Ok::<
                    Seq<SpecValue>,
                    SpecValue,
                >(value_views(results@)),
                Err(e) => spec_apply(f, value_views(args@), old(self)@).1 == Err::<
                    Seq<SpecValue>,
                    SpecValue,
                >(e@),
            },
    {
        match f {
            NativeFn::Identity => Ok(args),
            NativeFn::Raise => {
                let mut args = args;
                if args.len() > 0 {
                    let e = args.remove(0);
                    Err(e)
                } else {
                    Err(Value::Nil)
                }
            },
            NativeFn::AddNetworkString => {
                let mut args = args;
                if args.len() >= 1 {
                    let a0 = args.remove(0);
                    match a0 {
                        Value::Str(st) => {
                            self.net_log.push(st);
                            proof {
                                assert(log_views(self.net_log@) =~= old(self)@.net_log.push(
                                    value_views(args@.insert(0, a0))[0]->Str_0,
                                ));
                                assert(value_views(args@.insert(0, a0)) =~= value_views(
                                    args@,
                                ).insert(0, a0@));
                            }
                            let empty: Vec<Value> = Vec::new();
                            proof {
                                assert(value_views(empty@) =~= Seq::<SpecValue>::empty());
                            }
                            Ok(empty)
                        },
                        _ => Err(Value::Str(String::from_str("bad argument"))),
                    }
                } else {
                    Err(Value::Str(String::from_str("bad argument")))
                }
            },
            NativeFn::NetReceive => {
                let mut args = args;
                if args.len() >= 2 {
                    let a0 = args.remove(0);
                    let a1 = args.remove(0);
                    match a0 {
                        Value::Str(st) => {
                            self.receivers.push((st, a1));
                            proof {
                                assert(receiver_views(self.receivers@) =~= old(
                                    self,
                                )@.receivers.push(
                                    (
                                        value_views(args@.insert(0, a1).insert(0, a0))[0]->Str_0,
                                        value_views(args@.insert(0, a1).insert(0, a0))[1],
                                    ),
                                ));
                            }
                            let empty: Vec<Value> = Vec::new();
                            proof {
                                assert(value_views(empty@) =~= Seq::<SpecValue>::empty());
                            }
                            Ok(empty)
                        },
                        _ => Err(Value::Str(String::from_str("bad argument"))),
                    }
                } else {
                    Err(Value::Str(String::from_str("bad argument")))
                }
            },
        }
    }

    /// Calls the function below the top `nargs` values in protected mode:
    /// the function and arguments are consumed; on success the results,
    /// adjusted to `nresults` (all of them for the multiple-results code),
    /// are pushed and the status is 0; an error inside the call leaves the
    /// single error value on the stack and answers the runtime-error
    /// status instead of unwinding.
    pub fn pcall(&mut self, nargs: i32, nresults: i32, errfunc: i32) -> (r: i32)
        requires
            old(self).wf(),
            errfunc == 0,
            0 <= nargs,
            nargs + 1 <= old(self)@.stack.len(),
            nresults == LUA_MULTRET || nresults >= 0,
            nresults >= 0 ==> old(self)@.stack.len() - nargs - 1 + nresults <= STACK_LIMIT,
        ensures
            final(self).wf(),
            final(self)@ == spec_pcall(old(self)@, nargs as int, nresults as int).0,
            r as int == spec_pcall(old(self)@, nargs as int, nresults as int).1,
    {
        let nargs_u = nargs as usize;
        let fpos = self.stack.len() - nargs_u - 1;
        let mut args: Vec<Value> = Vec::new();
        let mut i = fpos + 1;
        while i < self.stack.len()
            invariant
                fpos + 1 <= i <= self.stack@.len(),
                self == old(self),
                fpos == old(self)@.stack.len() - nargs - 1,
                value_views(args@) =~= old(self)@.stack.subrange(fpos + 1, i as int),
            decreases self.stack@.len() - i,
        {
            let ghost pre_args = args@;
            let v = self.stack[i].dup();
            args.push(v);
            proof {
                assert(v@ == old(self)@.stack[i as int]);
                assert(value_views(args@) =~= value_views(pre_args).push(v@));
                assert(value_views(args@) =~= old(self)@.stack.subrange(fpos + 1, i + 1));
            }
            i = i + 1;
        }
        proof {
            assert(value_views(args@) =~= old(self)@.stack.skip(fpos + 1));
        }
        let fval = self.stack[fpos].dup();
        self.stack.truncate(fpos);
        proof {
            assert(value_views(self.stack@) =~= old(self)@.stack.take(fpos as int));
        }
        match fval {
            Value::Function(nf) => {
                let ghost base = self@;
                let res = self.apply_native(nf, args);
                match res {
                    Ok(results) => {
                        self.push_results(results, nresults);
                        LUA_OK
                    },
                    Err(e) => {
                        self.push_value_raw(e);
                        LUA_ERRRUN
                    },
                }
            },
            _ => {
                self.push_value_raw(
                    Value::Str(String::from_str("attempt to call a non-function value")),
                );
                LUA_ERRRUN
            },
        }
    }

    fn push_results(&mut self, results: Vec<Value>, nresults: i32)
        requires
            old(self).wf(),
            nresults == LUA_MULTRET || nresults >= 0,
            nresults < 0 ==> old(self)@.stack.len() + results@.len() <= STACK_LIMIT,
            nresults >= 0 ==> old(self)@.stack.len() + nresults <= STACK_LIMIT,
        ensures
            final(self).wf(),
            final(self)@ == old(self)@.with_stack(
                old(self)@.stack + adjust_results(value_views(results@), nresults as int),
            ),
    {
        let ghost given = value_views(results@);
        let base_len = self.stack.len();
        let mut results = results;
        if nresults >= 0 && results.len() > nresults as usize {
            results.truncate(nresults as usize);
            proof {
                assert(value_views(results@) =~= given.take(nresults as int));
            }
        }
        let n = results.len();
        let mut j: usize = 0;
        while j < n
            invariant
                j <= n,
                n == results@.len(),
                base_len == old(self)@.stack.len(),
                base_len + n <= STACK_LIMIT,
                value_views(self.stack@) =~= value_views(old(self).stack@) + value_views(
                    results@,
                ).take(j as int),
                self.registry@ == old(self).registry@,
                self.named_registry@ == old(self).named_registry@,
                self.tables@ == old(self).tables@,
                self.net_log@ == old(self).net_log@,
                self.receivers@ == old(self).receivers@,
            decreases n - j,
        {
            let ghost pre_stack = self.stack@;
            let v = results[j].dup();
            self.stack.push(v);
            proof {
                assert(v@ == value_views(results@)[j as int]);
                assert(value_views(self.stack@) =~= value_views(pre_stack).push(v@));
                assert(value_views(results@).take(j + 1) =~= value_views(results@).take(
                    j as int,
                ).push(value_views(results@)[j as int]));
                assert(value_views(self.stack@) =~= value_views(old(self).stack@) + value_views(
                    results@,
                ).take(j + 1));
            }
            j = j + 1;
        }
        proof {
            assert(value_views(results@).take(n as int) =~= value_views(results@));
        }
        if nresults >= 0 {
            let want = nresults as usize;
            while self.stack.len() < base_len + want
                invariant
                    base_len + n <= self.stack@.len() <= base_len + want || (n >= want
                        && self.stack@.len() == base_len + n),
                    base_len == old(self)@.stack.len(),
                    base_len + want <= STACK_LIMIT,
                    n == results@.len(),
                    value_views(self.stack@) =~= value_views(old(self).stack@) + value_views(
                        results@,
                    ) + Seq::new((self.stack@.len() - base_len - n) as nat, |k: int| SpecValue::Nil),
                    self.registry@ == old(self).registry@,
                    self.named_registry@ == old(self).named_registry@,
                    self.tables@ == old(self).tables@,
                    self.net_log@ == old(self).net_log@,
                    self.receivers@ == old(self).receivers@,
                decreases base_len + want - self.stack@.len(),
            {
                let ghost pre = self.stack@;
                self.stack.push(Value::Nil);
                proof {
                    assert(value_views(self.stack@) =~= value_views(pre).push(SpecValue::Nil));
                    assert(value_views(self.stack@) =~= value_views(old(self).stack@)
                        + value_views(results@) + Seq::new(
                        (self.stack@.len() - base_len - n) as nat,
                        |k: int| SpecValue::Nil,
                    ));
                }
            }
            proof {
                assert(value_views(self.stack@) =~= old(self)@.stack + adjust_results(
                    given,
                    nresults as int,
                ));
                assert(self@ == old(self)@.with_stack(
                    old(self)@.stack + adjust_results(given, nresults as int),
                ));
            }
        } else {
            proof {
                assert(value_views(self.stack@) =~= old(self)@.stack + adjust_results(
                    given,
                    nresults as int,
                ));
                assert(self@ == old(self)@.with_stack(
                    old(self)@.stack + adjust_results(given, nresults as int),
                ));
            }
        }
    }
}


/// The rendering of one value in a stack dump: strings quoted, booleans and
/// numbers written out, everything else by its type name.
pub open spec fn spec_dump_val(s: SpecInterp, i: int) -> Seq<char> {
    match s.at(i) {
        SpecValue::Str(t) => seq!['"'] + t + seq!['"'],
        SpecValue::Boolean(b) => if b {
            "true"@
        } else {
            "false"@
        },
        SpecValue::Integer(n) => crate::text::spec_int_str(n),
        v => spec_type_name(spec_type_code(v)),
    }
}

/// One line of a stack dump: the one-based slot, the type name, and for
/// plain values the value itself.
pub open spec fn spec_dump_line(s: SpecInterp, i: int) -> Seq<char> {
    let v = s.at(i);
    let tn = spec_type_name(spec_type_code(v));
    match v {
        SpecValue::Str(_) => crate::text::spec_int_str(i) + ". "@ + tn + ": "@ + spec_dump_val(
            s,
            i,
        ),
        SpecValue::Boolean(_) => crate::text::spec_int_str(i) + ". "@ + tn + ": "@
            + spec_dump_val(s, i),
        SpecValue::Integer(_) => crate::text::spec_int_str(i) + ". "@ + tn + ": "@
            + spec_dump_val(s, i),
        _ => crate::text::spec_int_str(i) + ". "@ + tn,
    }
}

impl LuaState {
    /// Calls the function below the top `nargs` values, unprotected: the
    /// caller owes that the call cannot fail (an unprotected failure would
    /// not return control).
    pub fn call(&mut self, nargs: i32, nresults: i32)
        requires
            old(self).wf(),
            0 <= nargs,
            nargs + 1 <= old(self)@.stack.len(),
            nresults == LUA_MULTRET || nresults >= 0,
            nresults >= 0 ==> old(self)@.stack.len() - nargs - 1 + nresults <= STACK_LIMIT,
            spec_pcall(old(self)@, nargs as int, nresults as int).1 == 0,
        ensures
            final(self).wf(),
            final(self)@ == spec_pcall(old(self)@, nargs as int, nresults as int).0,
    {
        let _ = self.pcall(nargs, nresults, 0);
    }

    /// A readable rendering of the value at an index, without changing the
    /// stack: strings come back quoted, booleans and numbers written out,
    /// everything else as its type name.
    pub fn dump_val(&self, index: i32) -> (r: String)
        requires
            self.wf(),
            self@.valid_idx(index as int),
        ensures
            r@ == spec_dump_val(self@, index as int),
    {
        proof {
            reveal_strlit("\"");
            reveal_strlit("true");
            reveal_strlit("false");
        }
        let pos = self.resolve_index(index);
        match &self.stack[pos] {
            Value::Str(st) => {
                let mut out = String::from_str("\"");
                out.append(st.as_str());
                out.append("\"");
                proof {
                    assert(out@ =~= spec_dump_val(self@, index as int));
                }
                out
            },
            Value::Boolean(b) => {
                if *b {
                    String::from_str("true")
                } else {
                    String::from_str("false")
                }
            },
            Value::Integer(n) => crate::text::int_to_string(*n as i64),
            _ => {
                let code = self.lua_type(index);
                self.lua_type_name(code)
            },
        }
    }

    /// A readable listing of every current stack slot, bottom first: a
    /// heading, the stack size, and one line per slot with its type and,
    /// for plain values, its value. Reading the stack never changes it.
    pub fn dump_stack(&self) -> (r: Vec<String>)
        requires
            self.wf(),
        ensures
            r@.len() == self@.stack.len() + 2,
            r@[0]@ == "=== STACK DUMP ==="@,
            r@[1]@ == "Stack size: "@ + crate::text::spec_int_str(self@.stack.len() as int),
            forall|k: int|
                2 <= k < r@.len() ==> (#[trigger] r@[k])@ == spec_dump_line(self@, k - 1),
    {
        let mut out: Vec<String> = Vec::new();
        out.push(String::from_str("=== STACK DUMP ==="));
        let top = self.stack.len();
        let mut size_line = String::from_str("Stack size: ");
        let size_txt = crate::text::u64_to_string(top as u64);
        size_line.append(size_txt.as_str());
        out.push(size_line);
        let mut i: usize = 1;
        while i <= top
            invariant
                1 <= i <= top + 1,
                top == self@.stack.len(),
                self.wf(),
                out@.len() == i + 1,
                out@[0]@ == "=== STACK DUMP ==="@,
                out@[1]@ == "Stack size: "@ + crate::text::spec_int_str(top as int),
                forall|k: int|
                    2 <= k < out@.len() ==> (#[trigger] out@[k])@ == spec_dump_line(self@, k - 1),
            decreases top + 1 - i,
        {
            proof {
                assert(self@.valid_idx(i as int));
            }
            let code = self.lua_type(i as i32);
            let tn = self.lua_type_name(code);
            let mut line = crate::text::u64_to_string(i as u64);
            line.append(". ");
            line.append(tn.as_str());
            if code == LUA_TSTRING || code == LUA_TBOOLEAN || code == LUA_TNUMBER {
                line.append(": ");
                let v = self.dump_val(i as i32);
                line.append(v.as_str());
            }
            proof {
                assert(line@ =~= spec_dump_line(self@, i as int));
            }
            out.push(line);
            i = i + 1;
        }
        out
    }
}


/// The reference round-trip law: pushing a value, taking a `reference` to
/// it, overwriting the stack (here: pushing nil over it), and then pushing
/// the reference back with `from_reference` retrieves exactly the original
/// value — also when the value was nil, which collapses to the nil handle.
pub proof fn lemma_reference_round_trip(s: SpecInterp, v: SpecValue)
    requires
        s.wf(),
        s.stack.len() < STACK_LIMIT,
        s.registry.len() < REF_LIMIT,
    ensures
        ({
            let s1 = s.push(v);
            let s2 = s1.spec_reference().0;
            let handle = s1.spec_reference().1;
            let s3 = s2.push(SpecValue::Nil);
            let s4 = s3.push(s3.registry_get(handle));
            s4.stack.last() == v
        }),
{
    let s1 = s.push(v);
    assert(s1.stack.last() == v);
    if v == SpecValue::Nil {
    } else {
        lemma_first_free(s1.registry);
        let f = first_free(s1.registry);
        let s2 = s1.spec_reference().0;
        let handle = s1.spec_reference().1;
        if f >= 0 {
            assert(s2.registry[f] == Some(v));
            assert(handle == f + 1);
        } else {
            assert(s2.registry[s1.registry.len() as int] == Some(v));
            assert(handle == s1.registry.len() + 1);
        }
        let s3 = s2.push(SpecValue::Nil);
        assert(s3.registry == s2.registry);
        assert(s3.registry_get(handle) == v);
    }
}


impl LuaState {
    /// The network strings the host has recorded, in registration order.
    pub fn net_strings(&self) -> (r: Vec<String>)
        ensures
            log_views(r@) =~= self@.net_log,
    {
        let n = self.net_log.len();
        let mut out: Vec<String> = Vec::new();
        let mut i: usize = 0;
        while i < n
            invariant
                i <= n,
                n == self.net_log@.len(),
                log_views(out@) =~= self@.net_log.take(i as int),
            decreases n - i,
        {
            let ghost pre = out@;
            out.push(self.net_log[i].clone());
            proof {
                assert(log_views(out@) =~= log_views(pre).push(self.net_log@[i as int]@));
                assert(log_views(out@) =~= self@.net_log.take(i + 1));
            }
            i = i + 1;
        }
        proof {
            assert(self@.net_log.take(n as int) =~= self@.net_log);
        }
        out
    }

    /// The names the installed receivers listen under, in installation
    /// order.
    pub fn receiver_names(&self) -> (r: Vec<String>)
        ensures
            log_views(r@) =~= self@.receivers.map_values(|p: (Seq<char>, SpecValue)| p.0),
    {
        let n = self.receivers.len();
        let mut out: Vec<String> = Vec::new();
        let mut i: usize = 0;
        while i < n
            invariant
                i <= n,
                n == self.receivers@.len(),
                log_views(out@) =~= self@.receivers.map_values(
                    |p: (Seq<char>, SpecValue)| p.0,
                ).take(i as int),
            decreases n - i,
        {
            let ghost pre = out@;
            out.push(self.receivers[i].0.clone());
            proof {
                assert(log_views(out@) =~= log_views(pre).push(self.receivers@[i as int].0@));
                assert(self@.receivers[i as int].0 == self.receivers@[i as int].0@);
                assert(log_views(out@) =~= self@.receivers.map_values(
                    |p: (Seq<char>, SpecValue)| p.0,
                ).take(i + 1));
            }
            i = i + 1;
        }
        proof {
            assert(self@.receivers.map_values(|p: (Seq<char>, SpecValue)| p.0).take(n as int)
                =~= self@.receivers.map_values(|p: (Seq<char>, SpecValue)| p.0));
        }
        out
    }
}

} // verus!
