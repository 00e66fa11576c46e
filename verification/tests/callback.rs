use mluau_types::{
    CallbackFinalizeAction, CallbackResult, CustomError, CustomOk, Either, ErrorWithTraceback,
    VmState, Yield,
};
use std::cell::RefCell;

/// Finishes `action` and gives its code with the VM calls that were made.
fn run(action: CallbackFinalizeAction) -> (i32, Vec<String>) {
    let calls: RefCell<Vec<String>> = RefCell::new(Vec::new());
    let code = action.finish(
        || {
            calls.borrow_mut().push(String::from("error"));
            -2
        },
        |n| {
            calls.borrow_mut().push(format!("yield {}", n));
            -1
        },
    );
    (code, calls.into_inner())
}

#[test]
fn return_hands_on_the_number_of_results() {
    assert_eq!(run(CallbackFinalizeAction::Return(3)), (3, vec![]));
    assert_eq!(run(CallbackFinalizeAction::Return(0)), (0, vec![]));
}

#[test]
fn error_raises_and_nothing_else() {
    assert_eq!(run(CallbackFinalizeAction::Error), (-2, vec![String::from("error")]));
}

#[test]
fn yield_yields_the_number_of_results() {
    assert_eq!(run(CallbackFinalizeAction::Yield(4)), (-1, vec![String::from("yield 4")]));
}

#[test]
fn results_are_return_yield_or_error() {
    let all: Vec<CallbackResult<u8, Vec<u8>, String>> = vec![
        CallbackResult::OkMulti(vec![1, 2]),
        CallbackResult::OkSingle(1),
        CallbackResult::Yield(vec![]),
        CallbackResult::Error(9),
        CallbackResult::LuaError(String::from("e")),
    ];
    let mut kinds: Vec<&str> = Vec::new();
    for result in &all {
        kinds.push(match result {
            CallbackResult::OkMulti(_) | CallbackResult::OkSingle(_) => "return",
            CallbackResult::Yield(_) => "yield",
            CallbackResult::Error(_) | CallbackResult::LuaError(_) => "error",
        });
    }
    assert_eq!(kinds, vec!["return", "return", "yield", "error", "error"]);
}

#[test]
fn helpers_hold_their_value() {
    assert_eq!(Yield(1).0, 1);
    assert_eq!(CustomError("e").0, "e");
    assert_eq!(CustomOk(vec![1, 2]).0, vec![1, 2]);
    assert_ne!(VmState::Continue, VmState::Yield);
}

#[test]
fn errors_show_their_traceback() {
    let base: ErrorWithTraceback<&str, i32> = ErrorWithTraceback::BaseError("e");
    assert_eq!(format!("{:?}", base), "BaseError(\"e\")");
    let error: ErrorWithTraceback<&str, i32> =
        ErrorWithTraceback::Error { traceback: String::from("t"), value: 5, err_code: 2 };
    assert_eq!(format!("{:?}", error), "Error { traceback: \"t\", value: 5, err_code: 2 }");
}

#[test]
fn either_holds_one_of_two() {
    let left: Either<i32, &str> = Either::Left(5);
    let right: Either<i32, &str> = Either::Right("r");
    assert_eq!(left.left(), Some(5));
    assert_eq!(right.right(), Some("r"));
}
