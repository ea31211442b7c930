use vstd::prelude::*;

verus! {

/// The structural cause of a decoding failure.
#[derive(Debug, Clone, Copy, PartialEq, Eq, Structural)]
pub enum ErrorKind {
    /// The buffer is shorter than a fixed header or a declared length.
    Truncated,
    /// A length field is smaller than the header it must cover.
    InvalidLength,
    /// A fixed-width value has the wrong size or cannot be interpreted.
    InvalidValue,
}

/// A decoding failure: its cause, and a trail of context messages that
/// runs from the most specific layer to the most general one.
#[derive(Debug)]
pub struct DecodeError {
    pub kind: ErrorKind,
    pub context: Vec<&'static str>,
}

impl DecodeError {
    /// An error of the given cause, with no context yet.
    pub fn new(kind: ErrorKind) -> (r: DecodeError)
        ensures
            r.kind == kind,
            r.context@.len() == 0,
    {
        DecodeError { kind, context: Vec::new() }
    }

    /// The same error, annotated with one more (more general) context message.
    pub fn context(self, message: &'static str) -> (r: DecodeError)
        ensures
            r.kind == self.kind,
            r.context@ == self.context@.push(message),
    {
        let mut e = self;
        e.context.push(message);
        e
    }
}

/// Annotates the error of a failed result with a context message; a success
/// passes through unchanged.
pub fn with_context<T>(r: Result<T, DecodeError>, message: &'static str) -> (out: Result<
    T,
    DecodeError,
>)
    ensures
        r is Ok <==> out is Ok,
        r is Ok ==> out == r,
        r is Err ==> out->Err_0.kind == r->Err_0.kind && out->Err_0.context@
            == r->Err_0.context@.push(
            message,
        ),
{
    match r {
        Ok(v) => Ok(v),
        Err(e) => Err(e.context(message)),
    }
}

} // verus!
