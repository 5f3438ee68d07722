//! Network helpers: registering network strings and installing receivers,
//! written as the disciplined stack sequences the protocol demands. Each
//! helper leaves the stack exactly as it found it; its whole effect is the
//! observation it registers with the host.

use vstd::prelude::*;

use crate::interp::LuaState;
use crate::interp::STACK_LIMIT;
use crate::interp::SpecInterp;
use crate::interp::spec_get_field;
use crate::interp::tbl_get;
use crate::locator::str_views;
use crate::value::NativeFn;
use crate::value::SpecValue;

verus! {

/// The host's `util` library is installed: the global `util` is a table
/// whose `AddNetworkString` member is the host function that registers a
/// network string.
pub open spec fn util_ready(s: SpecInterp) -> bool {
    &&& s.tables.len() >= 1
    &&& (tbl_get(s.tables[0].pairs, SpecValue::Str("util"@)) matches SpecValue::Table(u) && 0 <= u
        < s.tables.len() && tbl_get(s.tables[u].pairs, SpecValue::Str("AddNetworkString"@))
        == SpecValue::Function(NativeFn::AddNetworkString))
}

/// The host's `net` library is installed: the global `net` is a table whose
/// `Receive` member is the host function that installs a receiver.
pub open spec fn net_ready(s: SpecInterp) -> bool {
    &&& s.tables.len() >= 1
    &&& (tbl_get(s.tables[0].pairs, SpecValue::Str("net"@)) matches SpecValue::Table(n) && 0 <= n
        < s.tables.len() && tbl_get(s.tables[n].pairs, SpecValue::Str("Receive"@))
        == SpecValue::Function(NativeFn::NetReceive))
}

/// Registers every given string as a network string, in order, through the
/// host's `util.AddNetworkString`: one call per string, sharing the looked
/// up function when there are several. The stack is exactly as before; the
/// only effect is the host's record of registered names.
pub fn add_network_strings(lua: &mut LuaState, network_strings: &Vec<String>)
    requires
        old(lua).wf(),
        util_ready(old(lua)@),
        old(lua)@.stack.len() + 4 <= STACK_LIMIT,
    ensures
        final(lua).wf(),
        final(lua)@ == old(lua)@.with_net_log(
            old(lua)@.net_log + str_views(network_strings@),
        ),
{
    if network_strings.len() == 0 {
        proof {
            assert(old(lua)@.net_log + str_views(network_strings@) =~= old(lua)@.net_log);
            assert(lua@ =~~= old(lua)@.with_net_log(
                old(lua)@.net_log + str_views(network_strings@),
            ));
        }
    } else if network_strings.len() == 1 {
        lua.get_global("util");
        proof {
            assert(spec_get_field(old(lua)@, crate::interp::LUA_GLOBALSINDEX as int, "util"@)
                == tbl_get(old(lua)@.tables[0].pairs, SpecValue::Str("util"@)));
        }
        lua.get_field(-1, "AddNetworkString");
        lua.push_string(network_strings[0].as_str());
        proof {
            let s = lua@;
            assert(s.stack.len() == old(lua)@.stack.len() + 3);
            assert(s.stack[s.stack.len() - 2] == SpecValue::Function(
                NativeFn::AddNetworkString,
            ));
            assert(s.stack.skip(s.stack.len() - 1) =~= seq![
                SpecValue::Str(network_strings@[0]@),
            ]);
        }
        lua.call(1, 0);
        proof {
            assert(lua@.stack =~= old(lua)@.stack.push(
                tbl_get(old(lua)@.tables[0].pairs, SpecValue::Str("util"@)),
            ));
        }
        lua.pop();
        proof {
            assert(lua@.stack =~= old(lua)@.stack);
            assert(lua@.net_log =~= old(lua)@.net_log + str_views(network_strings@));
            assert(lua@ =~~= old(lua)@.with_net_log(
                old(lua)@.net_log + str_views(network_strings@),
            ));
        }
    } else {
        lua.get_global("util");
        lua.get_field(-1, "AddNetworkString");
        let ghost frame = old(lua)@.stack + seq![
            tbl_get(old(lua)@.tables[0].pairs, SpecValue::Str("util"@)),
            SpecValue::Function(NativeFn::AddNetworkString),
        ];
        proof {
            assert(lua@.stack =~= frame);
        }
        let n = network_strings.len();
        let mut j: usize = 0;
        while j < n
            invariant
                j <= n,
                n == network_strings@.len(),
                lua.wf(),
                util_ready(old(lua)@),
                frame == old(lua)@.stack + seq![
                    tbl_get(old(lua)@.tables[0].pairs, SpecValue::Str("util"@)),
                    SpecValue::Function(NativeFn::AddNetworkString),
                ],
                old(lua)@.stack.len() + 4 <= STACK_LIMIT,
                lua@.stack =~= frame,
                lua@.net_log =~= old(lua)@.net_log + str_views(network_strings@.take(j as int)),
                lua@.registry == old(lua)@.registry,
                lua@.named_registry == old(lua)@.named_registry,
                lua@.tables == old(lua)@.tables,
                lua@.receivers == old(lua)@.receivers,
            decreases n - j,
        {
            let ghost pre = lua@;
            lua.push_value(-1);
            proof {
                assert(lua@.stack.last() == SpecValue::Function(NativeFn::AddNetworkString));
            }
            lua.push_string(network_strings[j].as_str());
            proof {
                let s = lua@;
                assert(s.stack[s.stack.len() - 2] == SpecValue::Function(
                    NativeFn::AddNetworkString,
                ));
                assert(s.stack.skip(s.stack.len() - 1) =~= seq![
                    SpecValue::Str(network_strings@[j as int]@),
                ]);
            }
            lua.call(1, 0);
            proof {
                assert(lua@.stack =~= frame);
                assert(str_views(network_strings@.take(j + 1)) =~= str_views(
                    network_strings@.take(j as int),
                ).push(network_strings@[j as int]@));
                assert(lua@.net_log =~= old(lua)@.net_log + str_views(
                    network_strings@.take(j + 1),
                ));
            }
            j = j + 1;
        }
        proof {
            assert(network_strings@.take(n as int) =~= network_strings@);
        }
        lua.pop_n(2);
        proof {
            assert(lua@.stack =~= old(lua)@.stack);
            assert(lua@ =~~= old(lua)@.with_net_log(
                old(lua)@.net_log + str_views(network_strings@),
            ));
        }
    }
}

/// Installs a receiver for a network string through the host's
/// `net.Receive`. The stack is exactly as before; the only effect is the
/// host's record of the installed receiver.
pub fn receive(lua: &mut LuaState, network_string: &str, func: NativeFn)
    requires
        old(lua).wf(),
        net_ready(old(lua)@),
        old(lua)@.stack.len() + 4 <= STACK_LIMIT,
    ensures
        final(lua).wf(),
        final(lua)@ == old(lua)@.with_receivers(
            old(lua)@.receivers.push((network_string@, SpecValue::Function(func))),
        ),
{
    lua.get_global("net");
    lua.get_field(-1, "Receive");
    lua.push_string(network_string);
    lua.push_function(func);
    proof {
        let s = lua@;
        assert(s.stack.len() == old(lua)@.stack.len() + 4);
        assert(s.stack[s.stack.len() - 3] == SpecValue::Function(NativeFn::NetReceive));
        assert(s.stack.skip(s.stack.len() - 2) =~= seq![
            SpecValue::Str(network_string@),
            SpecValue::Function(func),
        ]);
    }
    lua.call(2, 0);
    proof {
        assert(lua@.stack =~= old(lua)@.stack.push(
            tbl_get(old(lua)@.tables[0].pairs, SpecValue::Str("net"@)),
        ));
    }
    lua.pop();
    proof {
        assert(lua@.stack =~= old(lua)@.stack);
        assert(lua@ =~~= old(lua)@.with_receivers(
            old(lua)@.receivers.push((network_string@, SpecValue::Function(func))),
        ));
    }
}

} // verus!
