//! The values the interpreter's stack, registry and tables hold, and their
//! mathematical model.

use vstd::prelude::*;

use crate::userdata::TaggedUserData;
use crate::userdata::UserData;

verus! {

/// The host functions the model interpreter knows how to run during a call:
/// enough behaviour to exercise the calling protocol. `Identity` returns its
/// arguments; `Raise` raises its first argument as an error;
/// `AddNetworkString` registers its first argument as a network string;
/// `NetReceive` registers its second argument as the receiver for the name
/// in its first.
#[derive(Clone, Copy, PartialEq, Eq, Structural, Debug)]
pub enum NativeFn {
    Identity,
    Raise,
    AddNetworkString,
    NetReceive,
}

/// A userdata value on the stack: the tagged block and, if one was attached,
/// the arena index of its metatable.
#[derive(Debug, Clone, Copy, PartialEq, Eq, Structural)]
pub struct UserDataValue {
    pub ud: TaggedUserData,
    pub meta: Option<usize>,
}

/// One interpreter value.
#[derive(Debug)]
pub enum Value {
    Nil,
    Boolean(bool),
    LightUserdata(usize),
    Integer(isize),
    Str(String),
    Table(usize),
    Function(NativeFn),
    Userdata(UserDataValue),
}

/// The mathematical model of one interpreter value. Strings are character
/// sequences; a table is the index of its storage in the table arena, so
/// two table values are the same table exactly when the indices agree.
pub enum SpecValue {
    Nil,
    Boolean(bool),
    LightUserdata(int),
    Integer(int),
    Str(Seq<char>),
    Table(int),
    Function(NativeFn),
    Userdata { addr: int, tag: UserData, meta: Option<int> },
}

impl View for Value {
    type V = SpecValue;

    open spec fn view(&self) -> SpecValue {
        match self {
            Value::Nil => SpecValue::Nil,
            Value::Boolean(b) => SpecValue::Boolean(*b),
            Value::LightUserdata(p) => SpecValue::LightUserdata(*p as int),
            Value::Integer(n) => SpecValue::Integer(*n as int),
            Value::Str(s) => SpecValue::Str(s@),
            Value::Table(t) => SpecValue::Table(*t as int),
            Value::Function(f) => SpecValue::Function(*f),
            Value::Userdata(u) => SpecValue::Userdata {
                addr: u.ud.data as int,
                tag: u.ud.tag,
                meta: match u.meta {
                    Some(m) => Some(m as int),
                    None => None,
                },
            },
        }
    }
}

impl Value {
    /// A copy with the same model.
    pub fn dup(&self) -> (r: Value)
        ensures
            r@ == self@,
    {
        match self {
            Value::Nil => Value::Nil,
            Value::Boolean(b) => Value::Boolean(*b),
            Value::LightUserdata(p) => Value::LightUserdata(*p),
            Value::Integer(n) => Value::Integer(*n),
            Value::Str(s) => Value::Str(s.clone()),
            Value::Table(t) => Value::Table(*t),
            Value::Function(f) => Value::Function(*f),
            Value::Userdata(u) => Value::Userdata(*u),
        }
    }
}

/// Primitive (raw) equality of two values, as the host compares them
/// without metamethods: two tables are equal exactly when they are the same
/// table.
pub fn value_eq(a: &Value, b: &Value) -> (r: bool)
    ensures
        r == (a@ == b@),
{
    match (a, b) {
        (Value::Nil, Value::Nil) => true,
        (Value::Boolean(x), Value::Boolean(y)) => x == y,
        (Value::LightUserdata(x), Value::LightUserdata(y)) => x == y,
        (Value::Integer(x), Value::Integer(y)) => x == y,
        (Value::Str(x), Value::Str(y)) => crate::text::str_eq(x.as_str(), y.as_str()),
        (Value::Table(x), Value::Table(y)) => x == y,
        (Value::Function(x), Value::Function(y)) => x == y,
        (Value::Userdata(x), Value::Userdata(y)) => {
            let meta_eq = match (x.meta, y.meta) {
                (Some(mx), Some(my)) => mx == my,
                (None, None) => true,
                _ => false,
            };
            x.ud.data == y.ud.data && x.ud.tag == y.ud.tag && meta_eq
        },
        _ => false,
    }
}

/// The sequence of models of a sequence of values.
pub open spec fn value_views(s: Seq<Value>) -> Seq<SpecValue> {
    s.map_values(|v: Value| v@)
}

/// The models of optional values, as the registry holds them.
pub open spec fn opt_value_views(s: Seq<Option<Value>>) -> Seq<Option<SpecValue>> {
    s.map_values(
        |o: Option<Value>|
            match o {
                Some(v) => Some(v@),
                None => None,
            },
    )
}

} // verus!
