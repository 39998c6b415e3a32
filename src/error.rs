use vstd::prelude::*;

verus! {

/// The kinds of failure that the core tells apart.
#[derive(Clone, Copy, Debug, PartialEq, Eq, Structural)]
pub enum ErrorKind {
    /// The source did not compile.
    Compile,
    /// A classic script threw.
    Exception,
    /// The loader could not resolve a specifier.
    Resolve,
    /// The loader could not fetch a module.
    Load,
    /// Linking a module graph failed.
    Link,
    /// Evaluating a module failed, top-level rejections included.
    Evaluation,
    /// Execution was forcibly terminated.
    Terminated,
    /// A promise was rejected with no handler.
    UnhandledRejection,
}

/// An error produced by the core: its kind and its message.
#[derive(Clone, Debug)]
pub struct CoreError {
    pub kind: ErrorKind,
    pub message: String,
}

impl CoreError {
    pub fn new(kind: ErrorKind, message: String) -> (r: CoreError)
        ensures
            r.kind == kind,
            r.message@ == message@,
    {
        CoreError { kind, message }
    }

    /// The message of the error, as shown to a user.
    pub fn to_string(&self) -> (r: String)
        ensures
            r@ == self.message@,
    {
        self.message.clone()
    }
}

/// Returns the value of a result that is known to be `Ok`.
pub fn js_check<T>(r: Result<T, CoreError>) -> (v: T)
    requires
        r is Ok,
    ensures
        r == Ok::<T, CoreError>(v),
{
    match r {
        Ok(v) => v,
        Err(_) => {
            proof {
                assert(false);
            }
            unreached()
        },
    }
}

} // verus!
