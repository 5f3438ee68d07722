use gmod::guard::StackGuard;
use gmod::interp::LUA_MULTRET;
use gmod::interp::LUA_TBOOLEAN;
use gmod::interp::LUA_TNIL;
use gmod::interp::LUA_TNONE;
use gmod::interp::LUA_TNUMBER;
use gmod::interp::LUA_TSTRING;
use gmod::interp::LUA_TTABLE;
use gmod::interp::LuaState;
use gmod::value::NativeFn;

#[test]
fn push_and_read_primitives() {
    let mut lua = LuaState::new();
    lua.push_integer(42);
    lua.push_boolean(true);
    lua.push_string("hello");
    lua.push_nil();
    assert_eq!(lua.get_top(), 4);
    assert_eq!(lua.to_integer(1), 42);
    assert!(lua.get_boolean(2));
    assert_eq!(lua.get_string(3), Some("hello".to_string()));
    assert!(lua.is_nil(4));
    assert!(lua.is_nil(-1));
    assert_eq!(lua.lua_type(1), LUA_TNUMBER);
    assert_eq!(lua.lua_type(2), LUA_TBOOLEAN);
    assert_eq!(lua.lua_type(3), LUA_TSTRING);
    assert_eq!(lua.lua_type(4), LUA_TNIL);
    assert_eq!(lua.lua_type(9), LUA_TNONE);
}

#[test]
fn get_string_converts_a_number_slot_in_place() {
    let mut lua = LuaState::new();
    lua.push_integer(-37);
    assert_eq!(lua.get_string(-1), Some("-37".to_string()));
    // the slot itself is now a string, as the host conversion leaves it
    assert_eq!(lua.lua_type(-1), LUA_TSTRING);
}

#[test]
fn pop_and_set_top() {
    let mut lua = LuaState::new();
    lua.push_integer(1);
    lua.push_integer(2);
    lua.push_integer(3);
    lua.pop();
    assert_eq!(lua.get_top(), 2);
    lua.pop_n(2);
    assert_eq!(lua.get_top(), 0);
    lua.set_top(3);
    assert_eq!(lua.get_top(), 3);
    assert!(lua.is_nil(1) && lua.is_nil(3));
    lua.set_top(-2);
    assert_eq!(lua.get_top(), 2);
}

#[test]
fn remove_insert_replace_push_value() {
    let mut lua = LuaState::new();
    lua.push_integer(10);
    lua.push_integer(20);
    lua.push_integer(30);
    lua.remove(2);
    assert_eq!(lua.get_top(), 2);
    assert_eq!(lua.to_integer(2), 30);
    lua.push_integer(5);
    lua.insert(1);
    assert_eq!(lua.to_integer(1), 5);
    assert_eq!(lua.to_integer(3), 30);
    lua.push_integer(77);
    lua.replace(1);
    assert_eq!(lua.to_integer(1), 77);
    assert_eq!(lua.get_top(), 3);
    lua.push_value(1);
    assert_eq!(lua.to_integer(-1), 77);
}

#[test]
fn reference_round_trip_retrieves_the_original_value() {
    let mut lua = LuaState::new();
    lua.push_integer(42);
    let handle = lua.reference();
    lua.push_nil();
    lua.from_reference(handle);
    assert_eq!(lua.to_integer(-1), 42);
}

#[test]
fn reference_round_trip_for_strings() {
    let mut lua = LuaState::new();
    lua.push_string("persisted");
    let handle = lua.reference();
    lua.push_nil();
    lua.from_reference(handle);
    assert_eq!(lua.get_string(-1), Some("persisted".to_string()));
}

#[test]
fn reference_of_nil_collapses_to_the_nil_handle() {
    let mut lua = LuaState::new();
    lua.push_nil();
    let handle = lua.reference();
    assert_eq!(handle, gmod::interp::LUA_REFNIL);
    lua.from_reference(handle);
    assert!(lua.is_nil(-1));
}

#[test]
fn dereference_frees_the_slot_and_it_is_reused() {
    let mut lua = LuaState::new();
    lua.push_integer(1);
    let h1 = lua.reference();
    lua.push_integer(2);
    let h2 = lua.reference();
    assert_ne!(h1, h2);
    lua.dereference(h1);
    lua.from_reference(h1);
    assert!(lua.is_nil(-1));
    lua.pop();
    lua.push_integer(3);
    let h3 = lua.reference();
    assert_eq!(h3, h1, "a freed slot is reused first");
    lua.from_reference(h2);
    assert_eq!(lua.to_integer(-1), 2);
}

#[test]
fn stack_guard_passes_on_balanced_activity() {
    let mut lua = LuaState::new();
    lua.push_integer(7);
    let guard = StackGuard::enter(&lua);
    lua.push_string("a");
    lua.push_string("b");
    lua.pop_n(2);
    assert!(guard.check(&lua));
    assert!(guard.check_or_dump(&lua).is_ok());
}

#[test]
fn stack_guard_fails_on_unbalanced_activity() {
    let mut lua = LuaState::new();
    let guard = StackGuard::enter(&lua);
    lua.push_integer(1);
    assert!(!guard.check(&lua));
    let report = guard.check_or_dump(&lua);
    let lines = report.err().unwrap();
    assert_eq!(lines.len(), 3);
    assert_eq!(lines[0], "=== STACK DUMP ===");
    assert_eq!(lines[1], "Stack size: 1");
    assert_eq!(lines[2], "1. number: 1");
}

#[test]
fn pcall_identity_returns_the_arguments() {
    let mut lua = LuaState::new();
    lua.push_function(NativeFn::Identity);
    lua.push_integer(42);
    let status = lua.pcall(1, 1, 0);
    assert_eq!(status, 0);
    assert_eq!(lua.get_top(), 1);
    assert_eq!(lua.to_integer(-1), 42);
}

#[test]
fn pcall_pads_or_truncates_results() {
    let mut lua = LuaState::new();
    lua.push_function(NativeFn::Identity);
    lua.push_integer(1);
    lua.push_integer(2);
    let status = lua.pcall(2, 3, 0);
    assert_eq!(status, 0);
    assert_eq!(lua.get_top(), 3);
    assert!(lua.is_nil(3));
    lua.pop_n(3);
    lua.push_function(NativeFn::Identity);
    lua.push_integer(1);
    lua.push_integer(2);
    let status = lua.pcall(2, 1, 0);
    assert_eq!(status, 0);
    assert_eq!(lua.get_top(), 1);
    assert_eq!(lua.to_integer(1), 1);
}

#[test]
fn pcall_multret_keeps_every_result() {
    let mut lua = LuaState::new();
    lua.push_function(NativeFn::Identity);
    lua.push_integer(1);
    lua.push_integer(2);
    let status = lua.pcall(2, LUA_MULTRET, 0);
    assert_eq!(status, 0);
    assert_eq!(lua.get_top(), 2);
}

#[test]
fn pcall_catches_a_raised_error() {
    let mut lua = LuaState::new();
    lua.push_function(NativeFn::Raise);
    lua.push_string("boom");
    let status = lua.pcall(1, 0, 0);
    assert_eq!(status, gmod::interp::LUA_ERRRUN);
    assert_eq!(lua.get_top(), 1);
    assert_eq!(lua.get_string(-1), Some("boom".to_string()));
}

#[test]
fn pcall_of_a_non_function_is_a_runtime_error() {
    let mut lua = LuaState::new();
    lua.push_integer(5);
    lua.push_integer(6);
    let status = lua.pcall(1, 0, 0);
    assert_eq!(status, gmod::interp::LUA_ERRRUN);
    assert_eq!(
        lua.get_string(-1),
        Some("attempt to call a non-function value".to_string())
    );
}

#[test]
fn tables_store_and_return_values() {
    let mut lua = LuaState::new();
    lua.new_table();
    lua.push_string("answer");
    lua.push_integer(42);
    lua.set_table(-3);
    lua.push_string("answer");
    lua.get_table(-2);
    assert_eq!(lua.to_integer(-1), 42);
    lua.pop();
    lua.get_field(-1, "answer");
    assert_eq!(lua.to_integer(-1), 42);
    lua.pop();
    lua.push_nil();
    lua.set_field(-2, "answer");
    lua.get_field(-1, "answer");
    assert!(lua.is_nil(-1), "storing nil removes the entry");
}

#[test]
fn globals_are_a_table() {
    let mut lua = LuaState::new();
    lua.push_integer(9);
    lua.set_global("nine");
    lua.get_global("nine");
    assert_eq!(lua.to_integer(-1), 9);
    lua.pop();
    lua.get_global("util");
    assert_eq!(lua.lua_type(-1), LUA_TTABLE);
    assert!(lua.is_table(-1));
    lua.pop();
    lua.push_globals();
    assert!(lua.is_table(-1));
}

#[test]
fn raw_geti_and_seti_use_integer_keys() {
    let mut lua = LuaState::new();
    lua.new_table();
    lua.push_string("first");
    lua.raw_seti(-2, 1);
    lua.raw_geti(-1, 1);
    assert_eq!(lua.get_string(-1), Some("first".to_string()));
    lua.pop();
    lua.raw_geti(-1, 2);
    assert!(lua.is_nil(-1));
}

#[test]
fn len_reports_string_length_and_table_border() {
    let mut lua = LuaState::new();
    lua.push_string("four");
    assert_eq!(lua.len(-1), 4);
    lua.pop();
    lua.new_table();
    lua.push_integer(10);
    lua.raw_seti(-2, 1);
    lua.push_integer(20);
    lua.raw_seti(-2, 2);
    assert_eq!(lua.len(-1), 2);
    lua.push_integer(40);
    lua.raw_seti(-2, 4);
    assert_eq!(lua.len(-1), 2, "the border stops at the first absent key");
}

#[test]
fn next_walks_a_table_in_entry_order() {
    let mut lua = LuaState::new();
    lua.new_table();
    lua.push_string("a");
    lua.raw_seti(-2, 1);
    lua.push_string("b");
    lua.raw_seti(-2, 2);
    lua.push_nil();
    assert_eq!(lua.next(-2), 1);
    assert_eq!(lua.get_string(-1), Some("a".to_string()));
    lua.pop();
    assert_eq!(lua.next(-2), 1);
    assert_eq!(lua.get_string(-1), Some("b".to_string()));
    lua.pop();
    assert_eq!(lua.next(-2), 0);
    assert_eq!(lua.get_top(), 1);
}

#[test]
fn raw_equal_compares_primitively() {
    let mut lua = LuaState::new();
    lua.push_integer(5);
    lua.push_integer(5);
    assert!(lua.raw_equal(-1, -2));
    lua.push_string("5");
    assert!(!lua.raw_equal(-1, -2), "a string never raw-equals a number");
    lua.new_table();
    lua.new_table();
    assert!(!lua.raw_equal(-1, -2), "two distinct tables are not equal");
    lua.push_value(-1);
    assert!(lua.raw_equal(-1, -2), "a table equals itself");
}

#[test]
fn type_names_match_the_host() {
    let lua = LuaState::new();
    assert_eq!(lua.lua_type_name(LUA_TNIL), "nil");
    assert_eq!(lua.lua_type_name(LUA_TSTRING), "string");
    assert_eq!(lua.lua_type_name(LUA_TNUMBER), "number");
    assert_eq!(lua.lua_type_name(99), "no value");
}

#[test]
fn dump_val_renders_plain_values() {
    let mut lua = LuaState::new();
    lua.push_string("hi");
    lua.push_boolean(false);
    lua.push_integer(-3);
    lua.new_table();
    assert_eq!(lua.dump_val(1), "\"hi\"");
    assert_eq!(lua.dump_val(2), "false");
    assert_eq!(lua.dump_val(3), "-3");
    assert_eq!(lua.dump_val(4), "table");
}

#[test]
fn dump_stack_lists_every_slot() {
    let mut lua = LuaState::new();
    lua.push_integer(1);
    lua.push_string("x");
    let lines = lua.dump_stack();
    assert_eq!(lines.len(), 4);
    assert_eq!(lines[0], "=== STACK DUMP ===");
    assert_eq!(lines[1], "Stack size: 2");
    assert_eq!(lines[2], "1. number: 1");
    assert_eq!(lines[3], "2. string: \"x\"");
}

#[test]
fn check_functions_read_arguments() {
    let mut lua = LuaState::new();
    lua.push_integer(12);
    lua.push_boolean(true);
    lua.push_string("name");
    assert_eq!(lua.check_integer(1), 12);
    assert!(lua.check_boolean(2));
    assert_eq!(lua.check_string(3), "name");
    assert_eq!(lua.get_type(1), "number");
    assert_eq!(lua.get_type(2), "boolean");
    assert_eq!(lua.get_type(3), "string");
    assert_eq!(lua.get_type(9), "no value");
}

#[test]
fn call_runs_an_infallible_call() {
    let mut lua = LuaState::new();
    lua.push_function(NativeFn::Identity);
    lua.push_integer(8);
    lua.call(1, 1);
    assert_eq!(lua.to_integer(-1), 8);
}
