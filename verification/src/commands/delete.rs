//! Deleting a flow.

use vstd::prelude::*;

use crate::error::AppError;

verus! {

/// The error when the flow `name` has no configuration file.
pub fn missing_flow_error(name: &str) -> (e: AppError)
    ensures
        e matches AppError::User(m) && m@ == "Flow '"@ + name@ + "' does not exist"@,
{
    let mut m = "Flow '".to_owned();
    m.append(name);
    m.append("' does not exist");
    AppError::User(m)
}

/// The question asked before the flow `name` is deleted.
pub fn delete_question(name: &str) -> (r: String)
    ensures
        r@ == "Delete flow '"@ + name@ + "'? [y/N]: "@,
{
    let mut r = "Delete flow '".to_owned();
    r.append(name);
    r.append("'? [y/N]: ");
    r
}


/// The error when the active flow `name` is deleted without `--force`.
pub fn active_flow_error(name: &str) -> (e: AppError)
    ensures
        e matches AppError::User(m) && m@ == "Flow '"@ + name@
            + "' is active. Stop it first with 'progflow off' or use --force"@,
{
    let mut m = "Flow '".to_owned();
    m.append(name);
    m.append("' is active. Stop it first with 'progflow off' or use --force");
    AppError::User(m)
}

} // verus!
