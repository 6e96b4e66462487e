use vstd::prelude::*;

verus! {

/// An external command exited unsuccessfully; `code` is `None` when a signal
/// ended it.
#[derive(Debug, Clone, Copy, PartialEq, Eq, Structural)]
pub struct ProcessError {
    pub code: Option<i32>,
}

impl ProcessError {
    pub fn new(code: Option<i32>) -> (r: ProcessError)
        ensures
            r.code == code,
    {
        ProcessError { code }
    }

    pub fn code(&self) -> (r: Option<i32>)
        ensures
            r == self.code,
    {
        self.code
    }
}

/// The readiness marker never appeared within the attempt budget.
#[derive(Debug, Clone, Copy, PartialEq, Eq, Structural)]
pub struct PidError {}

/// The output file name has a missing or unrecognised extension.
#[derive(Debug, Clone, Copy, PartialEq, Eq, Structural)]
pub struct UnknownFileTypeError {}

/// A value that was expected to be present was empty.
#[derive(Debug, Clone, Copy, PartialEq, Eq, Structural)]
pub struct ValueIsEmptyError {}

/// Why benchmarking a target stopped.
#[derive(Debug, Clone, Copy, PartialEq, Eq, Structural)]
pub enum SuiteError {
    /// An external command exited unsuccessfully.
    Process(ProcessError),
    /// The readiness marker never appeared.
    PidTimeout(PidError),
    /// The output file name has a missing or unrecognised extension.
    UnknownFileType(UnknownFileTypeError),
    /// The host refused a file or process operation.
    Io,
    /// A process id could not be read as a `u32`.
    BadPid,
    /// The readiness marker of an earlier run was already gone.
    MissingMarker,
}

/// Success or failure of an external command from its exit code (`None`
/// when a signal ended it): only a zero code is success.
pub fn exit_outcome(code: Option<i32>) -> (r: Result<(), ProcessError>)
    ensures
        r is Ok <==> code == Some(0i32),
        r is Err ==> r->Err_0.code == code,
{
    match code {
        Some(0) => Ok(()),
        _ => Err(ProcessError::new(code)),
    }
}

/// The value, or `ValueIsEmptyError` when there is none.
pub fn to_result(opt: Option<String>) -> (r: Result<String, ValueIsEmptyError>)
    ensures
        opt is Some <==> r is Ok,
        opt is Some ==> r == Ok::<String, ValueIsEmptyError>(opt->0),
{
    match opt {
        Some(s) => Ok(s),
        None => Err(ValueIsEmptyError {}),
    }
}

} // verus!
