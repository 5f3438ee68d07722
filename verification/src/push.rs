//! Per-type pushing: how host-side values become interpreter values on the
//! stack, including checked variants for types that may not fit the
//! interpreter's integer, and filling a table from a collection.

use vstd::prelude::*;

use crate::interp::LuaState;
use crate::interp::STACK_LIMIT;
use crate::interp::SpecTable;
use crate::interp::tbl_set;
use crate::value::SpecValue;

verus! {

/// A type every value of which becomes one interpreter value.
pub trait PushToLua: Sized {
    /// The interpreter value this value becomes.
    spec fn lua_value(&self) -> SpecValue;

    /// Pushes this value onto the stack.
    fn push_to_lua(self, lua: &mut LuaState)
        requires
            old(lua).wf(),
            old(lua)@.stack.len() < STACK_LIMIT,
        ensures
            final(lua).wf(),
            final(lua)@ == old(lua)@.push(self.lua_value()),
    ;
}

/// A type whose values may not fit an interpreter value; pushing is
/// checked, and a value that does not fit is handed back.
pub trait TryPushToLua: Sized {
    /// The interpreter value this value becomes, when it fits.
    spec fn try_lua_value(&self) -> Option<SpecValue>;

    /// Pushes this value when it fits, and hands it back unchanged when it
    /// does not (the stack is then untouched).
    fn try_push_to_lua(self, lua: &mut LuaState) -> (r: Result<(), Self>)
        requires
            old(lua).wf(),
            old(lua)@.stack.len() < STACK_LIMIT,
        ensures
            final(lua).wf(),
            match self.try_lua_value() {
                Some(v) => r is Ok && final(lua)@ == old(lua)@.push(v),
                None => final(lua)@ == old(lua)@ && (r matches Err(e) && e == self),
            },
    ;
}

/// A type every value of which can be pushed one way or another, possibly
/// losing precision.
pub trait ForcePushToLua: Sized {
    /// The interpreter value this value is forced into.
    spec fn force_lua_value(&self) -> SpecValue;

    /// Pushes this value, forcing it into the interpreter value.
    fn force_push_to_lua(self, lua: &mut LuaState)
        requires
            old(lua).wf(),
            old(lua)@.stack.len() < STACK_LIMIT,
        ensures
            final(lua).wf(),
            final(lua)@ == old(lua)@.push(self.force_lua_value()),
    ;
}

impl<P: PushToLua> TryPushToLua for P {
    open spec fn try_lua_value(&self) -> Option<SpecValue> {
        Some(self.lua_value())
    }

    fn try_push_to_lua(self, lua: &mut LuaState) -> (r: Result<(), Self>) {
        self.push_to_lua(lua);
        Ok(())
    }
}

impl<P: PushToLua> ForcePushToLua for P {
    open spec fn force_lua_value(&self) -> SpecValue {
        self.lua_value()
    }

    fn force_push_to_lua(self, lua: &mut LuaState) {
        self.push_to_lua(lua);
    }
}

impl PushToLua for bool {
    open spec fn lua_value(&self) -> SpecValue {
        SpecValue::Boolean(*self)
    }

    fn push_to_lua(self, lua: &mut LuaState) {
        lua.push_boolean(self);
    }
}

impl PushToLua for u8 {
    open spec fn lua_value(&self) -> SpecValue {
        SpecValue::Integer(*self as int)
    }

    fn push_to_lua(self, lua: &mut LuaState) {
        lua.push_integer(self as isize);
    }
}

impl PushToLua for i8 {
    open spec fn lua_value(&self) -> SpecValue {
        SpecValue::Integer(*self as int)
    }

    fn push_to_lua(self, lua: &mut LuaState) {
        lua.push_integer(self as isize);
    }
}

impl PushToLua for u16 {
    open spec fn lua_value(&self) -> SpecValue {
        SpecValue::Integer(*self as int)
    }

    fn push_to_lua(self, lua: &mut LuaState) {
        lua.push_integer(self as isize);
    }
}

impl PushToLua for i16 {
    open spec fn lua_value(&self) -> SpecValue {
        SpecValue::Integer(*self as int)
    }

    fn push_to_lua(self, lua: &mut LuaState) {
        lua.push_integer(self as isize);
    }
}

impl PushToLua for i32 {
    open spec fn lua_value(&self) -> SpecValue {
        SpecValue::Integer(*self as int)
    }

    fn push_to_lua(self, lua: &mut LuaState) {
        lua.push_integer(self as isize);
    }
}

impl PushToLua for isize {
    open spec fn lua_value(&self) -> SpecValue {
        SpecValue::Integer(*self as int)
    }

    fn push_to_lua(self, lua: &mut LuaState) {
        lua.push_integer(self);
    }
}

impl PushToLua for String {
    open spec fn lua_value(&self) -> SpecValue {
        SpecValue::Str(self@)
    }

    fn push_to_lua(self, lua: &mut LuaState) {
        lua.push_string(self.as_str());
    }
}

impl PushToLua for &str {
    open spec fn lua_value(&self) -> SpecValue {
        SpecValue::Str(self@)
    }

    fn push_to_lua(self, lua: &mut LuaState) {
        lua.push_string(self);
    }
}

impl<T: PushToLua> PushToLua for Option<T> {
    open spec fn lua_value(&self) -> SpecValue {
        match self {
            Some(v) => v.lua_value(),
            None => SpecValue::Nil,
        }
    }

    fn push_to_lua(self, lua: &mut LuaState) {
        match self {
            Some(v) => v.push_to_lua(lua),
            None => lua.push_nil(),
        }
    }
}

impl TryPushToLua for u64 {
    open spec fn try_lua_value(&self) -> Option<SpecValue> {
        if *self <= isize::MAX as u64 {
            Some(SpecValue::Integer(*self as int))
        } else {
            None
        }
    }

    fn try_push_to_lua(self, lua: &mut LuaState) -> (r: Result<(), Self>) {
        if self <= isize::MAX as u64 {
            lua.push_integer(self as isize);
            Ok(())
        } else {
            Err(self)
        }
    }
}

impl TryPushToLua for u32 {
    open spec fn try_lua_value(&self) -> Option<SpecValue> {
        if *self as u64 <= isize::MAX as u64 {
            Some(SpecValue::Integer(*self as int))
        } else {
            None
        }
    }

    fn try_push_to_lua(self, lua: &mut LuaState) -> (r: Result<(), Self>) {
        if self as u64 <= isize::MAX as u64 {
            lua.push_integer(self as isize);
            Ok(())
        } else {
            Err(self)
        }
    }
}

impl TryPushToLua for i64 {
    open spec fn try_lua_value(&self) -> Option<SpecValue> {
        if isize::MIN as i64 <= *self <= isize::MAX as i64 {
            Some(SpecValue::Integer(*self as int))
        } else {
            None
        }
    }

    fn try_push_to_lua(self, lua: &mut LuaState) -> (r: Result<(), Self>) {
        if isize::MIN as i64 <= self && self <= isize::MAX as i64 {
            lua.push_integer(self as isize);
            Ok(())
        } else {
            Err(self)
        }
    }
}

/// The interpreter values of a list of pushable values.
pub open spec fn lua_values<T: PushToLua>(items: Seq<T>) -> Seq<SpecValue> {
    items.map_values(|t: T| t.lua_value())
}

/// A table's entries after writing values under ascending integer keys
/// starting at `base + 1`.
pub open spec fn tbl_set_seq(
    pairs: Seq<(SpecValue, SpecValue)>,
    vals: Seq<SpecValue>,
    base: int,
) -> Seq<(SpecValue, SpecValue)>
    decreases vals.len(),
{
    if vals.len() == 0 {
        pairs
    } else {
        tbl_set_seq(tbl_set(pairs, SpecValue::Integer(base + 1), vals[0]), vals.drop_first(), base
            + 1)
    }
}

/// Writing one more value extends the sequence from the right.
proof fn lemma_tbl_set_seq_snoc(
    pairs: Seq<(SpecValue, SpecValue)>,
    vals: Seq<SpecValue>,
    v: SpecValue,
    base: int,
)
    ensures
        tbl_set_seq(pairs, vals.push(v), base) == tbl_set(
            tbl_set_seq(pairs, vals, base),
            SpecValue::Integer(base + vals.len() + 1),
            v,
        ),
    decreases vals.len(),
{
    reveal_with_fuel(tbl_set_seq, 3);
    if vals.len() == 0 {
        assert(vals.push(v).drop_first() =~= Seq::<SpecValue>::empty());
        assert(vals.push(v)[0] == v);
    } else {
        assert(vals.push(v).drop_first() =~= vals.drop_first().push(v));
        assert(vals.push(v)[0] == vals[0]);
        lemma_tbl_set_seq_snoc(
            tbl_set(pairs, SpecValue::Integer(base + 1), vals[0]),
            vals.drop_first(),
            v,
            base + 1,
        );
    }
}

/// Writes every element of a list into the table on top of the stack under
/// ascending integer keys starting at 1, as `ipairs` would later read them.
/// The stack is exactly as before; only that table changes.
pub fn iterator<T: PushToLua>(lua: &mut LuaState, items: Vec<T>)
    requires
        old(lua).wf(),
        old(lua)@.stack.len() >= 1,
        old(lua)@.stack.len() + 2 <= STACK_LIMIT,
        old(lua)@.stack.last() matches SpecValue::Table(t) && 0 <= t < old(lua)@.tables.len(),
        items@.len() <= 0x7fff_fffe,
    ensures
        final(lua).wf(),
        ({
            let t = old(lua)@.stack.last()->Table_0;
            final(lua)@ == old(lua)@.with_tables(
                old(lua)@.tables.update(
                    t,
                    SpecTable {
                        pairs: tbl_set_seq(old(lua)@.tables[t].pairs, lua_values(items@), 0),
                        meta: old(lua)@.tables[t].meta,
                    },
                ),
            )
        }),
{
    let ghost t = old(lua)@.stack.last()->Table_0;
    let ghost all = lua_values(items@);
    let n = items.len();
    let mut items = items;
    let mut i: usize = 0;
    proof {
        assert(all.take(0) =~= Seq::<SpecValue>::empty());
        assert(all.skip(0) =~= all);
        assert(lua@.tables =~= old(lua)@.tables.update(
            t,
            SpecTable {
                pairs: tbl_set_seq(old(lua)@.tables[t].pairs, all.take(0), 0),
                meta: old(lua)@.tables[t].meta,
            },
        ));
    }
    while i < n
        invariant
            i <= n,
            n == all.len(),
            items@.len() == n - i,
            lua_values(items@) =~= all.skip(i as int),
            lua.wf(),
            n <= 0x7fff_fffe,
            old(lua)@.stack.len() + 2 <= STACK_LIMIT,
            old(lua)@.stack.len() >= 1,
            0 <= t < old(lua)@.tables.len(),
            old(lua)@.stack.last() == SpecValue::Table(t),
            lua@.stack =~= old(lua)@.stack,
            lua@.registry == old(lua)@.registry,
            lua@.named_registry == old(lua)@.named_registry,
            lua@.net_log == old(lua)@.net_log,
            lua@.receivers == old(lua)@.receivers,
            lua@.tables =~= old(lua)@.tables.update(
                t,
                SpecTable {
                    pairs: tbl_set_seq(old(lua)@.tables[t].pairs, all.take(i as int), 0),
                    meta: old(lua)@.tables[t].meta,
                },
            ),
        decreases n - i,
    {
        let ghost pre = lua@;
        let ghost pre_items = items@;
        lua.push_integer((i + 1) as isize);
        let val = items.remove(0);
        proof {
            assert(items@ =~= pre_items.drop_first());
            assert(val.lua_value() == lua_values(pre_items)[0]);
            assert(val.lua_value() == all[i as int]);
            assert forall|k: int| 0 <= k < items@.len() implies #[trigger] lua_values(items@)[k]
                == all.skip(i + 1)[k] by {
                assert(lua_values(items@)[k] == items@[k].lua_value());
                assert(items@[k] == pre_items[k + 1]);
                assert(lua_values(pre_items)[k + 1] == all.skip(i as int)[k + 1]);
            }
            assert(lua_values(items@) =~= all.skip(i + 1));
        }
        val.push_to_lua(lua);
        proof {
            let s = lua@;
            assert(s.stack.len() == old(lua)@.stack.len() + 2);
            assert(s.abs(-3) == old(lua)@.stack.len() - 1);
            assert(s.at(-3) == SpecValue::Table(t));
            assert(s.stack[s.stack.len() - 2] == SpecValue::Integer(i + 1));
            assert(s.stack.last() == all[i as int]);
        }
        lua.set_table(-3);
        proof {
            assert(lua@.stack =~= old(lua)@.stack);
            lemma_tbl_set_seq_snoc(old(lua)@.tables[t].pairs, all.take(i as int), all[i as int], 0);
            assert(all.take(i + 1) =~= all.take(i as int).push(all[i as int]));
            assert(lua@.tables =~~= old(lua)@.tables.update(
                t,
                SpecTable {
                    pairs: tbl_set_seq(old(lua)@.tables[t].pairs, all.take(i + 1), 0),
                    meta: old(lua)@.tables[t].meta,
                },
            ));
        }
        i = i + 1;
    }
    proof {
        assert(all.take(n as int) =~= all);
        assert(lua@ =~~= old(lua)@.with_tables(
            old(lua)@.tables.update(
                t,
                SpecTable {
                    pairs: tbl_set_seq(old(lua)@.tables[t].pairs, all, 0),
                    meta: old(lua)@.tables[t].meta,
                },
            ),
        ));
    }
}

/// A collection whose contents can fill the table on top of the stack.
pub trait PushCollectionToLua: Sized {
    /// The key/value entries this collection writes.
    spec fn collection_entries(&self) -> Seq<(SpecValue, SpecValue)>;

    /// Writes this collection's entries into the table on top of the stack
    /// (the caller creates the table). The stack is exactly as before; only
    /// that table changes.
    fn push_to_lua_table(self, lua: &mut LuaState)
        requires
            old(lua).wf(),
            old(lua)@.stack.len() >= 1,
            old(lua)@.stack.len() + 2 <= STACK_LIMIT,
            old(lua)@.stack.last() matches SpecValue::Table(t) && 0 <= t < old(
                lua,
            )@.tables.len(),
        ensures
            final(lua).wf(),
            ({
                let t = old(lua)@.stack.last()->Table_0;
                final(lua)@ == old(lua)@.with_tables(
                    old(lua)@.tables.update(
                        t,
                        SpecTable {
                            pairs: tbl_set_all(
                                old(lua)@.tables[t].pairs,
                                self.collection_entries(),
                            ),
                            meta: old(lua)@.tables[t].meta,
                        },
                    ),
                )
            }),
    ;
}

/// A table's entries after writing a list of key/value entries in order.
pub open spec fn tbl_set_all(
    pairs: Seq<(SpecValue, SpecValue)>,
    kvs: Seq<(SpecValue, SpecValue)>,
) -> Seq<(SpecValue, SpecValue)>
    decreases kvs.len(),
{
    if kvs.len() == 0 {
        pairs
    } else {
        tbl_set_all(tbl_set(pairs, kvs[0].0, kvs[0].1), kvs.drop_first())
    }
}

/// Writing one more entry extends the list from the right.
proof fn lemma_tbl_set_all_snoc(
    pairs: Seq<(SpecValue, SpecValue)>,
    kvs: Seq<(SpecValue, SpecValue)>,
    kv: (SpecValue, SpecValue),
)
    ensures
        tbl_set_all(pairs, kvs.push(kv)) == tbl_set(tbl_set_all(pairs, kvs), kv.0, kv.1),
    decreases kvs.len(),
{
    reveal_with_fuel(tbl_set_all, 3);
    if kvs.len() == 0 {
        assert(kvs.push(kv).drop_first() =~= Seq::<(SpecValue, SpecValue)>::empty());
        assert(kvs.push(kv)[0] == kv);
    } else {
        assert(kvs.push(kv).drop_first() =~= kvs.drop_first().push(kv));
        assert(kvs.push(kv)[0] == kvs[0]);
        lemma_tbl_set_all_snoc(tbl_set(pairs, kvs[0].0, kvs[0].1), kvs.drop_first(), kv);
    }
}

/// The entries a list of key/value pairs writes.
pub open spec fn pair_entries<K: PushToLua, V: PushToLua>(items: Seq<(K, V)>) -> Seq<(
    SpecValue,
    SpecValue,
)> {
    items.map_values(|p: (K, V)| (p.0.lua_value(), p.1.lua_value()))
}

impl<K: PushToLua, V: PushToLua> PushCollectionToLua for Vec<(K, V)> {
    open spec fn collection_entries(&self) -> Seq<(SpecValue, SpecValue)> {
        pair_entries(self@)
    }

    fn push_to_lua_table(self, lua: &mut LuaState) {
        let ghost t = old(lua)@.stack.last()->Table_0;
        let ghost all = pair_entries(self@);
        let n = self.len();
        let mut items = self;
        let mut i: usize = 0;
        proof {
            assert(all.take(0) =~= Seq::<(SpecValue, SpecValue)>::empty());
            assert(all.skip(0) =~= all);
            assert(lua@.tables =~= old(lua)@.tables.update(
                t,
                SpecTable {
                    pairs: tbl_set_all(old(lua)@.tables[t].pairs, all.take(0)),
                    meta: old(lua)@.tables[t].meta,
                },
            ));
        }
        while i < n
            invariant
                i <= n,
                n == all.len(),
                items@.len() == n - i,
                pair_entries(items@) =~= all.skip(i as int),
                lua.wf(),
                old(lua)@.stack.len() + 2 <= STACK_LIMIT,
                old(lua)@.stack.len() >= 1,
                0 <= t < old(lua)@.tables.len(),
                old(lua)@.stack.last() == SpecValue::Table(t),
                lua@.stack =~= old(lua)@.stack,
                lua@.registry == old(lua)@.registry,
                lua@.named_registry == old(lua)@.named_registry,
                lua@.net_log == old(lua)@.net_log,
                lua@.receivers == old(lua)@.receivers,
                lua@.tables =~= old(lua)@.tables.update(
                    t,
                    SpecTable {
                        pairs: tbl_set_all(old(lua)@.tables[t].pairs, all.take(i as int)),
                        meta: old(lua)@.tables[t].meta,
                    },
                ),
            decreases n - i,
        {
            let ghost pre_items = items@;
            let kv = items.remove(0);
            proof {
                assert(items@ =~= pre_items.drop_first());
                assert((kv.0.lua_value(), kv.1.lua_value()) == pair_entries(pre_items)[0]);
                assert((kv.0.lua_value(), kv.1.lua_value()) == all[i as int]);
                assert forall|k: int| 0 <= k < items@.len() implies #[trigger] pair_entries(
                    items@,
                )[k] == all.skip(i + 1)[k] by {
                    assert(pair_entries(items@)[k] == (
                        items@[k].0.lua_value(),
                        items@[k].1.lua_value(),
                    ));
                    assert(items@[k] == pre_items[k + 1]);
                    assert(pair_entries(pre_items)[k + 1] == all.skip(i as int)[k + 1]);
                }
                assert(pair_entries(items@) =~= all.skip(i + 1));
            }
            kv.0.push_to_lua(lua);
            kv.1.push_to_lua(lua);
            proof {
                let s = lua@;
                assert(s.stack.len() == old(lua)@.stack.len() + 2);
                assert(s.abs(-3) == old(lua)@.stack.len() - 1);
                assert(s.at(-3) == SpecValue::Table(t));
                assert(s.stack[s.stack.len() - 2] == all[i as int].0);
                assert(s.stack.last() == all[i as int].1);
            }
            lua.set_table(-3);
            proof {
                assert(lua@.stack =~= old(lua)@.stack);
                lemma_tbl_set_all_snoc(
                    old(lua)@.tables[t].pairs,
                    all.take(i as int),
                    all[i as int],
                );
                assert(all.take(i + 1) =~= all.take(i as int).push(all[i as int]));
                assert(lua@.tables =~~= old(lua)@.tables.update(
                    t,
                    SpecTable {
                        pairs: tbl_set_all(old(lua)@.tables[t].pairs, all.take(i + 1)),
                        meta: old(lua)@.tables[t].meta,
                    },
                ));
            }
            i = i + 1;
        }
        proof {
            assert(all.take(n as int) =~= all);
            assert(lua@ =~~= old(lua)@.with_tables(
                old(lua)@.tables.update(
                    t,
                    SpecTable {
                        pairs: tbl_set_all(old(lua)@.tables[t].pairs, all),
                        meta: old(lua)@.tables[t].meta,
                    },
                ),
            ));
        }
    }
}

} // verus!
