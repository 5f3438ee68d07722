//! Call-recoverable errors: the structured result a protected call's host
//! status code maps to, with the message read off the top of the value
//! stack for the categories that carry one.

use vstd::prelude::*;

use crate::interp::LUA_ERRERR;
use crate::interp::LUA_ERRFILE;
use crate::interp::LUA_ERRMEM;
use crate::interp::LUA_ERRRUN;
use crate::interp::LUA_ERRSYNTAX;
use crate::interp::LuaState;
use crate::interp::spec_get_string;
use crate::text::spec_int_str;

verus! {

/// A structured interpreter error: the category a host status code maps to,
/// with the message the interpreter left behind where the category carries
/// one.
#[derive(Debug, Clone)]
pub enum LuaError {
    /// The interpreter ran out of memory.
    MemoryAllocationError,
    /// A syntax error in the source that was being loaded.
    SyntaxError(Option<String>),
    /// The interpreter failed to load a file.
    FileError(Option<String>),
    /// A runtime error inside the call.
    RuntimeError(Option<String>),
    /// An error occurred while running the error handler itself.
    ErrorHandlerError,
    /// A status code outside the host's documented set.
    Unknown(i32),
}

/// The character sequences of an optional message.
pub open spec fn opt_str_view(m: Option<String>) -> Option<Seq<char>> {
    match m {
        Some(t) => Some(t@),
        None => None,
    }
}

/// The readable text of an error.
pub open spec fn spec_error_text(e: LuaError) -> Seq<char> {
    match e {
        LuaError::MemoryAllocationError => "out of memory"@,
        LuaError::SyntaxError(m) => match m {
            Some(t) => "syntax error: "@ + t@,
            None => "syntax error"@,
        },
        LuaError::FileError(m) => match m {
            Some(t) => "failed to load file: "@ + t@,
            None => "failed to load file"@,
        },
        LuaError::RuntimeError(m) => match m {
            Some(t) => "runtime error: "@ + t@,
            None => "runtime error"@,
        },
        LuaError::ErrorHandlerError => "error in error handler"@,
        LuaError::Unknown(c) => "unknown error code "@ + spec_int_str(c as int),
    }
}

impl LuaError {
    /// The message on top of the value stack, read the way the host
    /// converts values to strings (a number slot is changed in place).
    pub fn get_error_message(lua_state: &mut LuaState) -> (r: Option<String>)
        requires
            old(lua_state).wf(),
        ensures
            final(lua_state).wf(),
            final(lua_state)@ == spec_get_string(old(lua_state)@, -1).0,
            opt_str_view(r) == spec_get_string(old(lua_state)@, -1).1,
    {
        lua_state.get_string(-1)
    }

    /// Maps a host status code to its structured category: the memory and
    /// error-handler categories carry no message; the syntax, runtime and
    /// file categories read their message off the top of the value stack;
    /// every code outside the documented set maps to `Unknown` with that
    /// code. Only the message-carrying categories touch the stack.
    pub fn from_lua_state(lua_state: &mut LuaState, lua_int_error_code: i32) -> (r: LuaError)
        requires
            old(lua_state).wf(),
        ensures
            final(lua_state).wf(),
            lua_int_error_code == LUA_ERRMEM ==> r is MemoryAllocationError && final(lua_state)@
                == old(lua_state)@,
            lua_int_error_code == LUA_ERRERR ==> r is ErrorHandlerError && final(lua_state)@
                == old(lua_state)@,
            lua_int_error_code == LUA_ERRSYNTAX ==> (final(lua_state)@ == spec_get_string(
                old(lua_state)@,
                -1,
            ).0 && (r matches LuaError::SyntaxError(m) && opt_str_view(m) == spec_get_string(
                old(lua_state)@,
                -1,
            ).1)),
            lua_int_error_code == LUA_ERRRUN ==> (final(lua_state)@ == spec_get_string(
                old(lua_state)@,
                -1,
            ).0 && (r matches LuaError::RuntimeError(m) && opt_str_view(m) == spec_get_string(
                old(lua_state)@,
                -1,
            ).1)),
            lua_int_error_code == LUA_ERRFILE ==> (final(lua_state)@ == spec_get_string(
                old(lua_state)@,
                -1,
            ).0 && (r matches LuaError::FileError(m) && opt_str_view(m) == spec_get_string(
                old(lua_state)@,
                -1,
            ).1)),
            !(lua_int_error_code == LUA_ERRMEM || lua_int_error_code == LUA_ERRERR
                || lua_int_error_code == LUA_ERRSYNTAX || lua_int_error_code == LUA_ERRRUN
                || lua_int_error_code == LUA_ERRFILE) ==> r == LuaError::Unknown(
                lua_int_error_code,
            ) && final(lua_state)@ == old(lua_state)@,
    {
        if lua_int_error_code == LUA_ERRMEM {
            LuaError::MemoryAllocationError
        } else if lua_int_error_code == LUA_ERRERR {
            LuaError::ErrorHandlerError
        } else if lua_int_error_code == LUA_ERRSYNTAX {
            let msg = LuaError::get_error_message(lua_state);
            LuaError::SyntaxError(msg)
        } else if lua_int_error_code == LUA_ERRRUN {
            let msg = LuaError::get_error_message(lua_state);
            LuaError::RuntimeError(msg)
        } else if lua_int_error_code == LUA_ERRFILE {
            let msg = LuaError::get_error_message(lua_state);
            LuaError::FileError(msg)
        } else {
            LuaError::Unknown(lua_int_error_code)
        }
    }

    /// The readable text of this error.
    pub fn message(&self) -> (r: String)
        ensures
            r@ == spec_error_text(*self),
    {
        match self {
            LuaError::MemoryAllocationError => String::from_str("out of memory"),
            LuaError::SyntaxError(m) => match m {
                Some(t) => {
                    let mut out = String::from_str("syntax error: ");
                    out.append(t.as_str());
                    out
                },
                None => String::from_str("syntax error"),
            },
            LuaError::FileError(m) => match m {
                Some(t) => {
                    let mut out = String::from_str("failed to load file: ");
                    out.append(t.as_str());
                    out
                },
                None => String::from_str("failed to load file"),
            },
            LuaError::RuntimeError(m) => match m {
                Some(t) => {
                    let mut out = String::from_str("runtime error: ");
                    out.append(t.as_str());
                    out
                },
                None => String::from_str("runtime error"),
            },
            LuaError::ErrorHandlerError => String::from_str("error in error handler"),
            LuaError::Unknown(c) => {
                let mut out = String::from_str("unknown error code ");
                let txt = crate::text::int_to_string(*c as i64);
                out.append(txt.as_str());
                out
            },
        }
    }
}

/// Rendering an error for the interpreter's `error` mechanism: the readable
/// text handed back when native code reports a failure to the host.
pub trait DisplayLuaError {
    /// The text to raise inside the interpreter.
    fn display_lua_error(&self) -> String;
}

impl DisplayLuaError for LuaError {
    fn display_lua_error(&self) -> (r: String)
        ensures
            r@ == spec_error_text(*self),
    {
        self.message()
    }
}

/// How many values a native entry point left on the stack for the
/// interpreter to collect.
#[derive(Debug, Clone, Copy, PartialEq, Eq, Structural)]
pub struct ValuesReturned(pub i32);

impl From<ValuesReturned> for i32 {
    fn from(v: ValuesReturned) -> (r: i32) {
        v.0
    }
}

impl vstd::std_specs::convert::FromSpecImpl<ValuesReturned> for i32 {
    open spec fn obeys_from_spec() -> bool {
        true
    }

    open spec fn from_spec(v: ValuesReturned) -> i32 {
        v.0
    }
}

impl From<i32> for ValuesReturned {
    fn from(n: i32) -> (r: ValuesReturned) {
        ValuesReturned(n)
    }
}

impl vstd::std_specs::convert::FromSpecImpl<i32> for ValuesReturned {
    open spec fn obeys_from_spec() -> bool {
        true
    }

    open spec fn from_spec(n: i32) -> ValuesReturned {
        ValuesReturned(n)
    }
}

impl From<()> for ValuesReturned {
    fn from(u: ()) -> (r: ValuesReturned) {
        ValuesReturned(0)
    }
}

impl vstd::std_specs::convert::FromSpecImpl<()> for ValuesReturned {
    open spec fn obeys_from_spec() -> bool {
        true
    }

    open spec fn from_spec(u: ()) -> ValuesReturned {
        ValuesReturned(0)
    }
}

impl ValuesReturned {
    /// What an optional count collapses to: the count itself, or one after
    /// pushing nil for an absent value, which is how a native entry point
    /// reports "no result" to the interpreter.
    pub fn from_option(lua: &mut LuaState, opt: Option<i32>) -> (r: ValuesReturned)
        requires
            old(lua).wf(),
            old(lua)@.stack.len() < crate::interp::STACK_LIMIT,
        ensures
            final(lua).wf(),
            match opt {
                Some(n) => r == ValuesReturned(n) && final(lua)@ == old(lua)@,
                None => r == ValuesReturned(1i32) && final(lua)@ == old(lua)@.push(
                    crate::value::SpecValue::Nil,
                ),
            },
    {
        match opt {
            Some(n) => ValuesReturned(n),
            None => {
                lua.push_nil();
                ValuesReturned(1)
            },
        }
    }
}

} // verus!
