use vstd::prelude::*;

verus! {

/// The operation a record edit performs.
#[derive(Clone, Copy, Debug, PartialEq, Eq, Structural)]
pub enum DataObjectAction {
    Create,
    Update,
    Delete,
}

/// The outcome of a validation: `error` is empty exactly when it succeeded.
pub struct ProcessResult {
    pub succeeded: bool,
    pub error: String,
}

impl ProcessResult {
    /// A success, with no message.
    pub fn ok() -> (r: ProcessResult)
        ensures
            r.succeeded,
            r.error@ == Seq::<char>::empty(),
    {
        ProcessResult { succeeded: true, error: String::new() }
    }

    /// A failure that says `msg`.
    pub fn fail(msg: &str) -> (r: ProcessResult)
        ensures
            !r.succeeded,
            r.error@ == msg@,
    {
        ProcessResult { succeeded: false, error: msg.to_owned() }
    }
}

} // verus!
