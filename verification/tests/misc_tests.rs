use gmod::console::take_console_chunk;
use gmod::interp::LuaState;
use gmod::msgc::Color;
use gmod::msgc::printf_escape;
use gmod::net::add_network_strings;
use gmod::net::receive;
use gmod::platform::CallConv;
use gmod::platform::Os;
use gmod::platform::PointerWidth;
use gmod::platform::concolormsg_symbol_name;
use gmod::platform::conmsg_symbol_names;
use gmod::platform::host_call_conv;
use gmod::platform::interpreter_call_conv;
use gmod::platform::is_x86_64_from_probes;
use gmod::platform::x86_64_probe_path;
use gmod::push::ForcePushToLua;
use gmod::push::PushCollectionToLua;
use gmod::push::PushToLua;
use gmod::push::TryPushToLua;
use gmod::push::iterator;
use gmod::text::int_to_string;
use gmod::text::u64_to_string;
use gmod::userdata::TaggedUserData;
use gmod::userdata::UserData;
use gmod::value::NativeFn;

#[test]
fn printf_escape_doubles_backslashes_and_percents() {
    assert_eq!(printf_escape("50% off \\ done"), "50%% off \\\\ done");
    assert_eq!(printf_escape(""), "");
    assert_eq!(printf_escape("%%"), "%%%%");
    assert_eq!(printf_escape("plain"), "plain");
}

#[test]
fn color_is_fully_opaque() {
    let a = Color::new(255, 0, 128);
    let b = Color::new(255, 0, 128);
    assert_eq!(a, b);
}

#[test]
fn decimal_rendering_is_exact() {
    assert_eq!(u64_to_string(0), "0");
    assert_eq!(u64_to_string(12345), "12345");
    assert_eq!(int_to_string(-1), "-1");
    assert_eq!(int_to_string(i64::MIN), "-9223372036854775808");
    assert_eq!(int_to_string(i64::MAX), "9223372036854775807");
}

#[test]
fn calling_conventions_are_selected_statically() {
    assert_eq!(interpreter_call_conv(), CallConv::CUnwind);
    assert_eq!(host_call_conv(Os::Windows, PointerWidth::W64), CallConv::Reg64);
    assert_eq!(host_call_conv(Os::Linux, PointerWidth::W64), CallConv::Reg64);
    assert_eq!(host_call_conv(Os::Windows, PointerWidth::W32), CallConv::ThisCall);
    assert_eq!(host_call_conv(Os::Linux, PointerWidth::W32), CallConv::Cdecl);
}

#[test]
fn branch_detection_follows_the_probes() {
    assert!(is_x86_64_from_probes(Os::Linux, PointerWidth::W64, "anything", false, false));
    assert!(!is_x86_64_from_probes(Os::Linux, PointerWidth::W32, "srcds_linux", true, true));
    assert!(is_x86_64_from_probes(Os::Linux, PointerWidth::W32, "srcds", false, false));
    assert!(is_x86_64_from_probes(Os::Linux, PointerWidth::W32, "hl2", false, true));
    assert!(!is_x86_64_from_probes(Os::Linux, PointerWidth::W32, "hl2", true, false));
    assert!(is_x86_64_from_probes(Os::Windows, PointerWidth::W32, "hl2.exe", true, false));
    assert!(!is_x86_64_from_probes(Os::MacOs, PointerWidth::W32, "hl2", false, true));
    assert_eq!(x86_64_probe_path(Os::Windows), "srcds_win64.exe");
    assert_eq!(x86_64_probe_path(Os::Linux), "bin/linux64");
}

#[test]
fn console_symbol_names_per_platform() {
    assert_eq!(
        conmsg_symbol_names(Os::Windows, PointerWidth::W64),
        vec!["?ConMsg@@YAXPEBDZZ"]
    );
    assert_eq!(
        conmsg_symbol_names(Os::Linux, PointerWidth::W64),
        vec!["ConMsg", "_Z6ConMsgPKcz"]
    );
    assert_eq!(
        concolormsg_symbol_name(Os::Windows, PointerWidth::W64),
        "?ConColorMsg@@YAXAEBVColor@@PEBDZZ"
    );
    assert_eq!(
        concolormsg_symbol_name(Os::Linux, PointerWidth::W64),
        "_Z11ConColorMsgRK5ColorPKcz"
    );
}

#[test]
fn user_data_codes_match_the_host() {
    assert_eq!(UserData::Missing.code(), 255);
    assert_eq!(UserData::Nil.code(), 0);
    assert_eq!(UserData::Bool.code(), 1);
    assert_eq!(UserData::Entity.code(), 9);
    assert_eq!(UserData::Vector.code(), 10);
    assert_eq!(UserData::Angle.code(), 11);
    assert_eq!(UserData::SurfaceInfo.code(), 43);
    assert_eq!(UserData::MAX.code(), 44);
}

#[test]
fn tagged_userdata_coercion_is_checked() {
    let vec_ud = TaggedUserData { data: 0x1234, tag: UserData::Vector };
    assert_eq!(vec_ud.coerce_check(), Ok(0x1234));
    let ent_ud = TaggedUserData { data: 0x1234, tag: UserData::Entity };
    assert_eq!(ent_ud.coerce_check(), Err(UserData::Entity));
}

#[test]
fn userdata_on_the_stack_knows_its_metatable() {
    let mut lua = LuaState::new();
    assert!(lua.new_metatable("MyType"), "a fresh name registers a new table");
    lua.pop();
    assert!(!lua.new_metatable("MyType"), "a known name pushes the existing table");
    lua.pop();
    let ud = TaggedUserData { data: 0xabc, tag: UserData::Vector };
    lua.push_userdata(ud, Some("MyType"));
    assert!(lua.test_userdata(-1, "MyType"));
    assert!(!lua.test_userdata(-1, "OtherType"));
    let got = lua.check_userdata(-1, "MyType");
    assert_eq!(got.data, 0xabc);
    assert_eq!(got.tag, UserData::Vector);
    lua.push_integer(1);
    assert!(!lua.test_userdata(-1, "MyType"), "a plain value is no userdata");
}

#[test]
fn metatables_attach_to_tables() {
    let mut lua = LuaState::new();
    lua.new_table();
    assert_eq!(lua.get_metatable(-1), 0, "a fresh table has no metatable");
    lua.new_table();
    assert_eq!(lua.set_metatable(-2), 1);
    assert_eq!(lua.get_metatable(-1), 1);
    assert!(lua.is_table(-1));
}

#[test]
fn push_trait_pushes_each_primitive() {
    let mut lua = LuaState::new();
    true.push_to_lua(&mut lua);
    7i32.push_to_lua(&mut lua);
    "text".push_to_lua(&mut lua);
    Some(3i32).push_to_lua(&mut lua);
    let absent: Option<i32> = None;
    absent.push_to_lua(&mut lua);
    assert_eq!(lua.get_top(), 5);
    assert!(lua.get_boolean(1));
    assert_eq!(lua.to_integer(2), 7);
    assert_eq!(lua.get_string(3), Some("text".to_string()));
    assert_eq!(lua.to_integer(4), 3);
    assert!(lua.is_nil(5));
}

#[test]
fn try_push_hands_back_what_does_not_fit() {
    let mut lua = LuaState::new();
    assert!(5u64.try_push_to_lua(&mut lua).is_ok());
    assert_eq!(lua.to_integer(-1), 5);
    let r = u64::MAX.try_push_to_lua(&mut lua);
    assert_eq!(r, Err(u64::MAX));
    assert_eq!(lua.get_top(), 1, "a refused push leaves the stack untouched");
    assert!(9i64.try_push_to_lua(&mut lua).is_ok());
    assert!(4u32.try_push_to_lua(&mut lua).is_ok());
}

#[test]
fn force_push_falls_back_to_plain_push() {
    let mut lua = LuaState::new();
    11i32.force_push_to_lua(&mut lua);
    assert_eq!(lua.to_integer(-1), 11);
}

#[test]
fn iterator_fills_a_table_with_ascending_keys() {
    let mut lua = LuaState::new();
    lua.new_table();
    iterator(&mut lua, vec![10i32, 20, 30]);
    assert_eq!(lua.get_top(), 1);
    lua.raw_geti(-1, 1);
    assert_eq!(lua.to_integer(-1), 10);
    lua.pop();
    lua.raw_geti(-1, 3);
    assert_eq!(lua.to_integer(-1), 30);
    lua.pop();
    assert_eq!(lua.len(-1), 3);
}

#[test]
fn pair_collection_fills_a_table() {
    let mut lua = LuaState::new();
    lua.new_table();
    vec![("a", 1i32), ("b", 2i32)].push_to_lua_table(&mut lua);
    lua.get_field(-1, "a");
    assert_eq!(lua.to_integer(-1), 1);
    lua.pop();
    lua.get_field(-1, "b");
    assert_eq!(lua.to_integer(-1), 2);
}

#[test]
fn add_network_strings_registers_each_name_in_order() {
    let mut lua = LuaState::new();
    let none: Vec<String> = Vec::new();
    add_network_strings(&mut lua, &none);
    assert_eq!(lua.get_top(), 0);
    add_network_strings(&mut lua, &vec!["one".to_string()]);
    assert_eq!(lua.get_top(), 0, "the helper leaves the stack balanced");
    add_network_strings(&mut lua, &vec!["two".to_string(), "three".to_string()]);
    assert_eq!(lua.get_top(), 0);
    assert_eq!(
        lua.net_strings(),
        vec!["one".to_string(), "two".to_string(), "three".to_string()]
    );
}

#[test]
fn receive_installs_a_receiver() {
    let mut lua = LuaState::new();
    receive(&mut lua, "my_message", NativeFn::Identity);
    assert_eq!(lua.get_top(), 0);
    assert_eq!(lua.receiver_names(), vec!["my_message".to_string()]);
}

#[test]
fn console_chunk_drains_the_buffer_once() {
    let mut buf: Vec<u8> = b"hello".to_vec();
    let chunk = take_console_chunk(&mut buf).unwrap();
    assert_eq!(chunk, b"hello\0");
    assert!(buf.is_empty());
    assert!(take_console_chunk(&mut buf).is_none());
}
