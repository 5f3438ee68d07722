//! A verified model of a native binding layer for an embedded stack-based
//! interpreter: module location, symbol resolution (by export name or by
//! byte-pattern scan), an ABI table populated once at attach time, and a
//! disciplined stack protocol with reference management and error mapping.

pub mod abi;
pub mod bind;
pub mod console;
pub mod error;
pub mod guard;
pub mod interp;
pub mod locator;
pub mod msgc;
pub mod net;
pub mod platform;
pub mod push;
pub mod sigscan;
pub mod text;
pub mod userdata;
pub mod value;

pub use error::LuaError;
pub use guard::StackGuard;
pub use interp::LuaState;
pub use platform::CallConv;
pub use platform::Os;
pub use platform::PointerWidth;
