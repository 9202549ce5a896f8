//! The built-in native functions installed in the global scope, and the one
//! clock sample they rest on.

use vstd::prelude::*;

use crate::environment::{env_define, Environment};
use crate::semantics::assert_native;
use crate::value::{NativeFn, RuntimeError, RuntimeResult, RuntimeUnwind, RuntimeValue, ValueV};

verus! {

/// Relies on `std::time::SystemTime::now` and `duration_since`: the reading
/// is the clock's milliseconds since the Unix epoch, a nonnegative number
/// (zero when the clock reads before the epoch, saturated when it is
/// unrepresentably far after it).
#[verifier::external_body]
pub fn now_millis() -> (r: i64)
    ensures
        r >= 0,
{
    match std::time::SystemTime::now().duration_since(std::time::UNIX_EPOCH) {
        Ok(d) => {
            let ms = d.as_millis();
            if ms > i64::MAX as u128 {
                i64::MAX
            } else {
                ms as i64
            }
        },
        Err(_) => 0,
    }
}

/// The two-argument `assert` builtin: the condition must be a boolean and
/// the message a string, or the call is a type error; a false condition
/// raises an assertion error carrying exactly the message.
pub fn assert_builtin(cond: &RuntimeValue, msg: &RuntimeValue) -> (r: RuntimeResult)
    ensures
        crate::value::result_view(r) == assert_native(cond@, msg@),
{
    match (cond, msg) {
        (RuntimeValue::Bool(c), RuntimeValue::Str(m)) => {
            if *c {
                Ok(RuntimeValue::Unit)
            } else {
                Err(RuntimeUnwind::Error(RuntimeError::AssertionError(m.clone())))
            }
        },
        _ => Err(RuntimeUnwind::Error(RuntimeError::TypeError)),
    }
}

/// Install the native functions in the global scope.
pub fn define_globals(env: &mut Environment)
    ensures
        final(env)@ == env_define(
            env_define(old(env)@, 0, "time"@, ValueV::Native(NativeFn::Time)),
            0,
            "assert"@,
            ValueV::Native(NativeFn::Assert),
        ),
{
    let time_name = "time".to_owned();
    env.define(0, &time_name, RuntimeValue::Native(NativeFn::Time));
    let assert_name = "assert".to_owned();
    env.define(0, &assert_name, RuntimeValue::Native(NativeFn::Assert));
}

} // verus!
