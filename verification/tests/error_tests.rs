use gmod::error::DisplayLuaError;
use gmod::error::LuaError;
use gmod::error::ValuesReturned;
use gmod::interp::LUA_ERRERR;
use gmod::interp::LUA_ERRFILE;
use gmod::interp::LUA_ERRMEM;
use gmod::interp::LUA_ERRRUN;
use gmod::interp::LUA_ERRSYNTAX;
use gmod::interp::LuaState;

fn state_with_message(msg: &str) -> LuaState {
    let mut lua = LuaState::new();
    lua.push_string(msg);
    lua
}

#[test]
fn memory_code_maps_without_a_message() {
    let mut lua = state_with_message("ignored");
    let e = LuaError::from_lua_state(&mut lua, LUA_ERRMEM);
    assert!(matches!(e, LuaError::MemoryAllocationError));
}

#[test]
fn handler_code_maps_without_a_message() {
    let mut lua = state_with_message("ignored");
    let e = LuaError::from_lua_state(&mut lua, LUA_ERRERR);
    assert!(matches!(e, LuaError::ErrorHandlerError));
}

#[test]
fn syntax_code_extracts_the_message() {
    let mut lua = state_with_message("unexpected symbol");
    let e = LuaError::from_lua_state(&mut lua, LUA_ERRSYNTAX);
    match e {
        LuaError::SyntaxError(m) => assert_eq!(m, Some("unexpected symbol".to_string())),
        other => panic!("wrong category: {:?}", other),
    }
}

#[test]
fn runtime_code_extracts_the_message() {
    let mut lua = state_with_message("attempt to index nil");
    let e = LuaError::from_lua_state(&mut lua, LUA_ERRRUN);
    match e {
        LuaError::RuntimeError(m) => assert_eq!(m, Some("attempt to index nil".to_string())),
        other => panic!("wrong category: {:?}", other),
    }
}

#[test]
fn file_code_extracts_the_message() {
    let mut lua = state_with_message("no such file");
    let e = LuaError::from_lua_state(&mut lua, LUA_ERRFILE);
    match e {
        LuaError::FileError(m) => assert_eq!(m, Some("no such file".to_string())),
        other => panic!("wrong category: {:?}", other),
    }
}

#[test]
fn unrecognized_code_maps_to_unknown() {
    let mut lua = state_with_message("ignored");
    let e = LuaError::from_lua_state(&mut lua, 42);
    match e {
        LuaError::Unknown(c) => assert_eq!(c, 42),
        other => panic!("wrong category: {:?}", other),
    }
}

#[test]
fn message_is_absent_when_the_top_is_not_convertible() {
    let mut lua = LuaState::new();
    lua.push_boolean(true);
    let e = LuaError::from_lua_state(&mut lua, LUA_ERRRUN);
    match e {
        LuaError::RuntimeError(m) => assert_eq!(m, None),
        other => panic!("wrong category: {:?}", other),
    }
}

#[test]
fn error_texts_are_readable() {
    assert_eq!(LuaError::MemoryAllocationError.message(), "out of memory");
    assert_eq!(
        LuaError::SyntaxError(Some("bad token".to_string())).message(),
        "syntax error: bad token"
    );
    assert_eq!(LuaError::RuntimeError(None).message(), "runtime error");
    assert_eq!(LuaError::FileError(None).message(), "failed to load file");
    assert_eq!(LuaError::ErrorHandlerError.message(), "error in error handler");
    assert_eq!(LuaError::Unknown(-7).message(), "unknown error code -7");
    assert_eq!(
        LuaError::Unknown(9).display_lua_error(),
        "unknown error code 9"
    );
}

#[test]
fn values_returned_conversions() {
    let v = ValuesReturned::from(3);
    assert_eq!(i32::from(v), 3);
    let z = ValuesReturned::from(());
    assert_eq!(i32::from(z), 0);
}

#[test]
fn values_returned_from_option_pushes_nil_for_none() {
    let mut lua = LuaState::new();
    let some = ValuesReturned::from_option(&mut lua, Some(2));
    assert_eq!(i32::from(some), 2);
    assert_eq!(lua.get_top(), 0);
    let none = ValuesReturned::from_option(&mut lua, None);
    assert_eq!(i32::from(none), 1);
    assert_eq!(lua.get_top(), 1);
    assert!(lua.is_nil(-1));
}
