use gmod::abi::AbiCell;
use gmod::abi::AbiError;
use gmod::abi::AbiTable;
use gmod::abi::GmodSignatures;
use gmod::abi::ResolvedSymbol;
use gmod::abi::SymbolSource;
use gmod::abi::find_gmod_signature;
use gmod::abi::required_symbols;
use gmod::bind::LuaStateCell;
use gmod::bind::__set_state__internal;
use gmod::interp::LuaState;
use gmod::platform::Os;
use gmod::platform::PointerWidth;
use gmod::sigscan::Signature;
use gmod::value::NativeFn;

fn fake_addrs() -> Vec<usize> {
    let names = required_symbols();
    (1..=names.len()).collect()
}

#[test]
fn required_symbols_cover_the_interpreter_interface() {
    let names = required_symbols();
    assert_eq!(names.len(), 59);
    assert_eq!(names[0], "luaL_newstate");
    assert!(names.contains(&"lua_pcall"));
    assert!(names.contains(&"luaL_ref"));
    assert!(names.contains(&"lua_resume_real"));
}

#[test]
fn resolved_symbol_rejects_a_null_address() {
    assert!(ResolvedSymbol::new("lua_gettop".to_string(), 0).is_none());
    let sym = ResolvedSymbol::new("lua_gettop".to_string(), 0xbeef).unwrap();
    assert_eq!(sym.addr(), 0xbeef);
    assert_eq!(sym.name(), "lua_gettop");
}

#[test]
fn populate_succeeds_with_a_complete_resolution() {
    let addrs = fake_addrs();
    let table = AbiTable::populate(&addrs).unwrap();
    assert_eq!(table.len(), 59);
    assert_eq!(table.addr_of(0), 1);
    assert_eq!(table.addr_of(58), 59);
    assert_eq!(table.name_of(0), "luaL_newstate");
}

#[test]
fn populate_names_the_missing_symbol() {
    let mut addrs = fake_addrs();
    addrs[11] = 0;  // lua_pcall
    match AbiTable::populate(&addrs) {
        Err(AbiError::MissingSymbol(name)) => assert_eq!(name, "lua_pcall"),
        other => panic!("expected a missing-symbol report, got {:?}", other.err()),
    }
}

#[test]
fn populate_rejects_a_wrong_count() {
    let addrs: Vec<usize> = vec![1, 2, 3];
    assert!(matches!(AbiTable::populate(&addrs), Err(AbiError::WrongCount)));
}

#[test]
fn cell_population_is_idempotent() {
    let mut cell = AbiCell::new();
    let addrs = fake_addrs();
    assert!(cell.populate(&addrs).is_ok());
    let first = cell.get().addr_of(5);
    // a second population changes nothing, whatever it is handed
    let other: Vec<usize> = vec![7; 59];
    assert!(cell.populate(&other).is_ok());
    assert_eq!(cell.get().addr_of(5), first);
}

#[test]
fn cell_rejects_an_incomplete_attach() {
    let mut cell = AbiCell::new();
    let mut addrs = fake_addrs();
    addrs[0] = 0;
    assert!(cell.populate(&addrs).is_err());
}

#[test]
fn signature_selection_is_per_platform() {
    let set = GmodSignatures {
        win64_x86_64: SymbolSource::Export("CreateInterface".to_string()),
        win32_x86_64: SymbolSource::Export("a".to_string()),
        linux64_x86_64: SymbolSource::Export("b".to_string()),
        linux32_x86_64: SymbolSource::Export("c".to_string()),
        win32: SymbolSource::Pattern(Signature::parse("55 8B EC").unwrap()),
        linux32: SymbolSource::Export("d".to_string()),
    };
    match find_gmod_signature(&set, Os::Windows, PointerWidth::W64, true) {
        SymbolSource::Export(n) => assert_eq!(n, "CreateInterface"),
        _ => panic!("wrong source"),
    }
    match find_gmod_signature(&set, Os::Windows, PointerWidth::W32, false) {
        SymbolSource::Pattern(sig) => assert_eq!(sig.len(), 3),
        _ => panic!("wrong source"),
    }
    match find_gmod_signature(&set, Os::Linux, PointerWidth::W32, false) {
        SymbolSource::Export(n) => assert_eq!(n, "d"),
        _ => panic!("wrong source"),
    }
}

#[test]
fn state_cell_hands_out_the_bound_interpreter() {
    let mut cell = LuaStateCell::new();
    let mut lua = LuaState::new();
    lua.push_integer(5);
    __set_state__internal(&mut cell, lua);
    assert_eq!(cell.state().get_top(), 1);
}

#[test]
fn state_cell_binds_one_thread() {
    let mut cell = LuaStateCell::new();
    assert!(!cell.debug_assertions(7), "nothing bound yet");
    __set_state__internal(&mut cell, LuaState::new());
    assert!(cell.debug_assertions(7), "the first thread claims the binding");
    assert!(cell.debug_assertions(7), "the owner may come back");
    assert!(!cell.debug_assertions(8), "another thread is refused");
}

#[test]
fn attach_scenario_end_to_end() {
    // attach: populate the ABI table once, bind the interpreter and thread
    let mut abi = AbiCell::new();
    abi.populate(&fake_addrs()).unwrap();
    let mut cell = LuaStateCell::new();
    __set_state__internal(&mut cell, LuaState::new());
    assert!(cell.debug_assertions(1));

    // push the integer 42, call an identity function with 1 argument and
    // 1 result, pop the result and compare
    let lua = cell.state_mut();
    lua.push_function(NativeFn::Identity);
    lua.push_integer(42);
    let status = lua.pcall(1, 1, 0);
    assert_eq!(status, 0);
    let got = lua.to_integer(-1);
    lua.pop();
    assert_eq!(got, 42);
    assert_eq!(lua.get_top(), 0, "the stack is balanced after the call");

    // detach: population stays frozen, and the model never started any
    // background worker that could outlive it
    assert!(abi.populate(&fake_addrs()).is_ok());
}
