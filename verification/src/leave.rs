//! Leave requests: their kinds, and what makes a request acceptable.

use vstd::prelude::*;
use crate::auth::AuthUser;

verus! {

/// The kinds of leave.
#[derive(Debug, Clone, Copy, PartialEq, Eq, Structural)]
pub enum LeaveType {
    Annual,
    Sick,
    Unpaid,
}

impl LeaveType {
    /// The word that stands for a kind of leave in the store.
    pub open spec fn spec_as_str(self) -> Seq<char> {
        match self {
            LeaveType::Annual => "annual"@,
            LeaveType::Sick => "sick"@,
            LeaveType::Unpaid => "unpaid"@,
        }
    }

    /// The word that stands for a kind of leave in the store.
    pub fn as_str(&self) -> (word: &'static str)
        ensures
            word@ == self.spec_as_str(),
    {
        match self {
            LeaveType::Annual => "annual",
            LeaveType::Sick => "sick",
            LeaveType::Unpaid => "unpaid",
        }
    }
}

/// Whether a kind of leave may be asked for. Every kind may.
pub fn validate_leave_type(value: &LeaveType) -> (valid: bool)
    ensures
        valid,
{
    match value {
        LeaveType::Annual => true,
        LeaveType::Sick => true,
        LeaveType::Unpaid => true,
    }
}

/// Why a leave request is turned down before it reaches the store.
#[derive(Debug, Clone, Copy, PartialEq, Eq, Structural)]
pub enum LeaveError {
    /// The user is not linked to an employee record.
    NoEmployeeProfile,
    /// The leave would end before it starts.
    StartAfterEnd,
    /// The kind of leave is not one that may be asked for.
    InvalidLeaveType,
}

/// What the checks say of a request for leave from day `start` to day `end`,
/// both counted from a common first day: the employee to file it under, or
/// the first reason against it.
pub open spec fn spec_check_leave(employee_id: Option<u64>, start: i32, end: i32) -> Result<
    u64,
    LeaveError,
> {
    match employee_id {
        None => Err(LeaveError::NoEmployeeProfile),
        Some(id) => if start > end {
            Err(LeaveError::StartAfterEnd)
        } else {
            Ok(id)
        },
    }
}

/// Checks a request for leave from day `start` to day `end`, both counted
/// from a common first day. A leave of a single day is in order.
pub fn check_leave(user: &AuthUser, start: i32, end: i32, leave_type: &LeaveType) -> (checked:
    Result<u64, LeaveError>)
    ensures
        checked == spec_check_leave(user.employee_id, start, end),
{
    let employee_id = match user.employee_id {
        Some(id) => id,
        None => {
            return Err(LeaveError::NoEmployeeProfile);
        },
    };
    if start > end {
        return Err(LeaveError::StartAfterEnd);
    }
    if !validate_leave_type(leave_type) {
        return Err(LeaveError::InvalidLeaveType);
    }
    Ok(employee_id)
}


} // verus!
