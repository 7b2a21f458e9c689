//! The decisions of the engine-string return path: what the runtime helper
//! that hands a string back to the engine must do in each state it can find
//! itself in. The unsafe marshaling around these decisions lives with the
//! caller; the choice itself is fixed here.

use vstd::prelude::*;

verus! {

/// What the string return helper does for one call.
#[derive(Debug, PartialEq, Clone, Copy)]
pub enum StringReturnAction {
    /// The allocation callback was never installed: report the deployment
    /// bug to standard error, write zero through the length out-parameter,
    /// and return the null pointer.
    ReportUnset,
    /// The allocation callback returned no memory: report the fixed failure
    /// message through the engine's error callback, write zero through the
    /// length out-parameter, and return the null pointer.
    ReportAllocFailed,
    /// Copy the result's bytes into the allocated buffer, write this length
    /// through the out-parameter, and return the buffer.
    CopyOut(i32),
}

/// The action prescribed for one call of the string return helper:
/// `malloc_installed` says whether the engine has installed its callbacks,
/// `alloc_ok` whether the allocation returned memory (meaningful only once
/// the callback is installed), and `result_len` the byte length of the
/// result.
pub fn string_return_action(malloc_installed: bool, alloc_ok: bool, result_len: usize) -> (a:
    StringReturnAction)
    requires
        result_len <= i32::MAX,
    ensures
        !malloc_installed ==> a is ReportUnset,
        malloc_installed && !alloc_ok ==> a is ReportAllocFailed,
        malloc_installed && alloc_ok ==> (a matches StringReturnAction::CopyOut(len) && len
            == result_len as i32),
{
    if !malloc_installed {
        StringReturnAction::ReportUnset
    } else if !alloc_ok {
        StringReturnAction::ReportAllocFailed
    } else {
        StringReturnAction::CopyOut(result_len as i32)
    }
}

/// The message reported through the engine when allocation fails.
pub fn alloc_failed_message() -> (r: String)
    ensures
        r@ == "Memory allocation failed"@,
{
    "Memory allocation failed".to_owned()
}

} // verus!
