use vstd::prelude::*;
use crate::command::move_command::ItemReport;

verus! {

/// Why a command was refused.
#[derive(Clone, PartialEq, Eq, Debug)]
pub enum MyError {
    /// A command was refused before it changed anything, with the reason.
    ExecuteCommand { error_message: String },
    /// A move did not win; the reports tell what each equipped item did.
    MoveCommand { error_message: String, item_report: Vec<ItemReport> },
    /// Saving or loading the world failed.
    SaveLoad { error_message: String },
}

/// `r` is a refused command whose message is `message`.
pub open spec fn refused<T>(r: Result<T, MyError>, message: Seq<char>) -> bool {
    match r {
        Err(MyError::ExecuteCommand { error_message }) => error_message@ == message,
        _ => false,
    }
}

/// `e` refuses a command with `message`.
pub open spec fn refusal(e: MyError, message: Seq<char>) -> bool {
    match e {
        MyError::ExecuteCommand { error_message } => error_message@ == message,
        _ => false,
    }
}

impl MyError {
    /// A refused command with `error_message`.
    pub fn create_execute_command_error(error_message: String) -> (r: MyError)
        ensures
            r == (MyError::ExecuteCommand { error_message }),
    {
        MyError::ExecuteCommand { error_message }
    }

    /// A failed save or load with `error_message`.
    pub fn create_save_load_error(error_message: String) -> (r: MyError)
        ensures
            r == (MyError::SaveLoad { error_message }),
    {
        MyError::SaveLoad { error_message }
    }
}

} // verus!
