use vstd::prelude::*;

verus! {

/// The errors of the library.
///
/// `Os` carries a positive `errno` value as reported by the kernel; every
/// other variant is raised by the library itself and has a fixed message.
#[derive(Debug, Clone, Copy, PartialEq, Eq, Structural)]
pub enum Error {
    /// The kernel answered a request with `-code`.
    Os(i32),
    /// A driver was installed while another one was current.
    AlreadyExists,
    /// No driver is current.
    NotInitialized,
    /// The submission queue had no free entry.
    SqFull,
    /// Submitting to, or waiting on, the ring failed.
    SubmitErr,
    /// Buffers were registered while others were still registered.
    BufferRegistered,
    /// The global ring was started twice.
    AlreadyStarted,
    /// The global ring was used before it was started.
    NoUring,
    /// A path held a NUL byte at the given position.
    InteriorNul(usize),
}

impl Error {
    /// The fixed message of a library error; `None` for the errors whose text
    /// comes from elsewhere (`Os`, `InteriorNul`).
    pub fn message(&self) -> (r: Option<&'static str>)
        ensures
            (self is Os || self is InteriorNul) <==> r is None,
            self is AlreadyExists ==> r == Some("uring already exists"),
            self is NotInitialized ==> r == Some("uring not initialized"),
            self is SqFull ==> r == Some("uring squeue full"),
            self is SubmitErr ==> r == Some("uring submit error"),
            self is BufferRegistered ==> r == Some("uring buffer already registered"),
            self is AlreadyStarted ==> r == Some("uring already started"),
            self is NoUring ==> r == Some("no uring"),
    {
        match self {
            Error::Os(_) => None,
            Error::AlreadyExists => Some("uring already exists"),
            Error::NotInitialized => Some("uring not initialized"),
            Error::SqFull => Some("uring squeue full"),
            Error::SubmitErr => Some("uring submit error"),
            Error::BufferRegistered => Some("uring buffer already registered"),
            Error::AlreadyStarted => Some("uring already started"),
            Error::NoUring => Some("no uring"),
            Error::InteriorNul(_) => None,
        }
    }
}

/// What a completion's result code means: a negative code is the negated
/// `errno` of a failure, any other code is the operation's return value.
pub open spec fn spec_completion_result(res: i32) -> Result<i32, Error> {
    if res < 0 {
        Err(Error::Os(-res as i32))
    } else {
        Ok(res)
    }
}

/// A completion is a failure exactly when its code is negative: the error
/// is the OS error whose number is the code negated, and a code that is
/// not negative is handed on unchanged as the value.
pub proof fn law_completion_result(res: i32)
    requires
        res != i32::MIN,
    ensures
        spec_completion_result(res) is Err <==> res < 0,
        res < 0 ==> spec_completion_result(res) == Err::<i32, Error>(Error::Os(-res as i32))
            && -res > 0,
        res >= 0 ==> spec_completion_result(res) == Ok::<i32, Error>(res),
{
}

/// Turns a completion's result code into the result of the request.
pub fn completion_result(res: i32) -> (r: Result<i32, Error>)
    requires
        res != i32::MIN,
    ensures
        r == spec_completion_result(res),
        res < 0 ==> r == Err::<i32, Error>(Error::Os(-res as i32)),
        res >= 0 ==> r == Ok::<i32, Error>(res),
        r matches Ok(v) ==> v >= 0,
        r matches Err(Error::Os(code)) ==> code > 0 && code == -res,
{
    if res < 0 {
        Err(Error::Os(-res))
    } else {
        Ok(res)
    }
}

} // verus!
