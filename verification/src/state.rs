//! What a typed reference holds of the Lua VM.

use std::rc::Rc;
use vstd::prelude::*;

verus! {

/// A handle to a Lua VM, by the address of its main state.
#[derive(Debug, Copy, Clone, PartialEq, Eq, Structural)]
pub struct Lua {
    pub main_state: usize,
}

/// A Lua VM. It lives as long as something holds a strong reference to it.
#[derive(Debug)]
pub struct RawLua {
    lua: Lua,
}

impl RawLua {
    /// The handle to this VM.
    pub closed spec fn handle(self) -> Lua {
        self.lua
    }

    /// The VM that `lua` is a handle to.
    pub fn new(lua: Lua) -> (raw: Self)
        ensures
            raw.handle() == lua,
    {
        RawLua { lua }
    }

    /// Returns the handle to this VM.
    pub fn lua(&self) -> (lua: &Lua)
        ensures
            *lua == self.handle(),
        no_unwind
    {
        &self.lua
    }
}

/// A value that the VM keeps alive, by its index in the reference pool.
///
/// Like the VM itself it stays on the thread that it was made on.
#[derive(Debug)]
pub struct ValueRef {
    pub lua: Rc<RawLua>,
    pub index: i32,
}

} // verus!
