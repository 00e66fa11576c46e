//! The types through which Rust code and a Luau VM hand values, results and
//! references to each other.

pub mod callback;
pub mod erased;
pub mod heap;
pub mod layout;
pub mod ownership;
pub mod payload;
pub mod state;
pub mod type_key;
pub mod typed_ref;
pub mod userdata;

pub use callback::{
    CallbackFinalizeAction, CallbackResult, CustomError, CustomOk, ErrorWithTraceback, VmState,
    Yield,
};
pub use either::Either;
pub use erased::{DropFn, ErasedHeader, ErasedWrapper};
pub use heap::{Block, ErasedHeap};
pub use payload::Erased;
pub use state::{Lua, RawLua, ValueRef};
pub use type_key::TypeKey;
pub use typed_ref::{DataPtr, TypedRef, UnbackedTypedRef};
pub use userdata::{
    direct_userdata_get_field, DirectUserdataGetField, LightUserData, LuaType, LUA_TBOOLEAN,
    LUA_TLIGHTUSERDATA, LUA_TNUMBER,
};
