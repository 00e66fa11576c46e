//! What a callback hands back to the VM, and what the VM does with it.

use vstd::prelude::*;

verus! {

/// Type to set next Lua VM action after executing interrupt or hook function.
#[derive(Debug, Copy, Clone, PartialEq, Eq, Structural)]
pub enum VmState {
    Continue,
    /// Yield the current thread.
    Yield,
}

/// CallbackResult provides a 'lifecycle' enum that describes what is to be *done*
/// with what a function gave.
///
/// This can either be a normal return (OkMulti/OkSingle), a yield (Yield) or an error
/// (Error/LuaError). `V` is a Lua value, `M` several of them and `E` an error.
pub enum CallbackResult<V, M, E> {
    /// The fn succeeded.
    OkMulti(M),
    /// The fn succeeded with a single value
    OkSingle(V),
    /// The fn should yield with the values
    Yield(M),
    /// The method failed and should throw the specified value
    Error(V),
    /// A generic Luau error
    LuaError(E),
}

impl<V, M, E> CallbackResult<V, M, E> {
    /// Whether the function returns normally.
    pub open spec fn is_return(self) -> bool {
        self is OkMulti || self is OkSingle
    }

    /// Whether the function yields.
    pub open spec fn is_yield(self) -> bool {
        self is Yield
    }

    /// Whether the function raises an error.
    pub open spec fn is_error(self) -> bool {
        self is Error || self is LuaError
    }
}

/// A callback result is exactly one of a normal return, a yield and an error.
pub proof fn lemma_result_is_return_yield_or_error<V, M, E>(result: CallbackResult<V, M, E>)
    ensures
        result.is_return() || result.is_yield() || result.is_error(),
        !(result.is_return() && result.is_yield()),
        !(result.is_return() && result.is_error()),
        !(result.is_yield() && result.is_error()),
        match result {
            CallbackResult::OkMulti(_) => result.is_return(),
            CallbackResult::OkSingle(_) => result.is_return(),
            CallbackResult::Yield(_) => result.is_yield(),
            CallbackResult::Error(_) => result.is_error(),
            CallbackResult::LuaError(_) => result.is_error(),
        },
{
}

/// What is left to do once the results of a callback are on the stack.
#[derive(Debug, Copy, Clone, PartialEq, Eq, Structural)]
pub enum CallbackFinalizeAction {
    /// n values ready for return
    Return(i32),
    /// error value
    Error,
    /// n results already pushed for yielding
    Yield(i32),
}

impl CallbackFinalizeAction {
    /// Ends the callback and gives the number that the VM expects of it.
    ///
    /// `lua_error` raises the value on top of the stack, and `lua_yield` yields
    /// with so many of the values on it. At most one of the two is called, and
    /// only where the action asks for it. Should be run *outside* the catch_unwind.
    pub fn finish<E: FnOnce() -> i32, Y: FnOnce(i32) -> i32>(
        self,
        lua_error: E,
        lua_yield: Y,
    ) -> (code: i32)
        requires
            self is Error ==> lua_error.requires(()),
            self matches CallbackFinalizeAction::Yield(n) ==> lua_yield.requires((n,)),
        ensures
            match self {
                CallbackFinalizeAction::Return(n) => code == n,
                CallbackFinalizeAction::Error => lua_error.ensures((), code),
                CallbackFinalizeAction::Yield(n) => lua_yield.ensures((n,), code),
            },
    {
        match self {
            CallbackFinalizeAction::Return(nres) => nres,
            CallbackFinalizeAction::Error => lua_error(),
            CallbackFinalizeAction::Yield(nres) => lua_yield(nres),
        }
    }
}

/// Helper to allow extracting out a error with traceback from a function call/thread
/// resume. `E` is an error and `V` a Lua value.
#[derive(Debug)]
pub enum ErrorWithTraceback<E, V> {
    /// An error that comes without a traceback
    BaseError(E),
    /// A error w/ the resulting traceback
    Error { traceback: String, value: V, err_code: i32 },
}

/// Helper to allow returning a custom Yield value
pub struct Yield<T>(pub T);

/// Helper to allow returning a custom Error value
pub struct CustomError<T>(pub T);

/// Helper to allow returning a custom Ok value
pub struct CustomOk<T>(pub T);

} // verus!
