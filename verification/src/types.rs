//! Identifiers, amounts, the call context and the error type.

use vstd::prelude::*;

verus! {

/// The name of a party.
pub type AccountId = String;

/// The identifier of a task: the owner's name, an underscore and the decimal
/// sequence number of the submission.
pub type TaskId = String;

/// The identifier of a category.
pub type CategoryId = String;

/// An amount of money in the smallest unit.
pub type Balance = u128;

/// A point in time, in nanoseconds.
pub type Timestamp = u64;

/// A span of time, in nanoseconds.
pub type Duration = u64;

/// Why an operation was refused. A refused operation changes nothing.
#[derive(Clone, Copy, Debug, PartialEq, Eq, Structural)]
pub enum Error {
    /// A bound is violated: a length, a participant count, a deposit that does
    /// not match, or a quantity that would leave the range of its type.
    Validation,
    /// A task, proposal, report, account, category or locked balance is unknown.
    NotFound,
    /// A task with the same derived identifier exists already.
    DuplicateTask,
    /// A record is not in the state that the operation expects.
    StateConflict,
    /// The task has been settled before.
    AlreadyCompleted,
    /// A deadline has not been reached yet, or has passed already.
    Timing,
    /// The locked balance is not released yet.
    StillLocked,
    /// The caller may not perform the operation.
    Authorization,
    /// The outside transfer was reported as failed.
    TransferFailure,
}

/// What the hosting environment tells about one call.
#[derive(Clone, Debug, PartialEq, Eq)]
pub struct CallContext {
    /// The party that makes the call.
    pub predecessor_account_id: AccountId,
    /// The name under which the marketplace itself runs.
    pub current_account_id: AccountId,
    /// The amount attached to the call.
    pub attached_deposit: Balance,
    /// The time of the call.
    pub block_timestamp: Timestamp,
    /// The sequence number of the call's block.
    pub block_index: u64,
}

/// The mathematical content of a `CallContext`.
pub ghost struct CallContextView {
    pub predecessor_account_id: Seq<char>,
    pub current_account_id: Seq<char>,
    pub attached_deposit: Balance,
    pub block_timestamp: Timestamp,
    pub block_index: u64,
}

impl View for CallContext {
    type V = CallContextView;

    open spec fn view(&self) -> CallContextView {
        CallContextView {
            predecessor_account_id: self.predecessor_account_id@,
            current_account_id: self.current_account_id@,
            attached_deposit: self.attached_deposit,
            block_timestamp: self.block_timestamp,
            block_index: self.block_index,
        }
    }
}

} // verus!
