use vstd::prelude::*;

verus! {

/// The error type of this crate: a human-readable message.
#[derive(Debug)]
pub struct Error {
    message: String,
}

/// A common result type.
pub type Result<T> = core::result::Result<T, Error>;

impl View for Error {
    type V = Seq<char>;

    closed spec fn view(&self) -> Seq<char> {
        self.message@
    }
}

impl Error {
    /// Creates an error that carries `message`.
    pub fn new(message: &str) -> (e: Error)
        ensures
            e@ == message@,
    {
        Error { message: message.to_string() }
    }

    /// The message carried by this error.
    pub fn message(&self) -> (r: &str)
        ensures
            r@ == self@,
    {
        self.message.as_str()
    }
}

impl PartialEq for Error {
    fn eq(&self, other: &Error) -> (r: bool)
        ensures
            r == (self@ == other@),
    {
        self.message == other.message
    }
}

impl vstd::std_specs::cmp::PartialEqSpecImpl for Error {
    open spec fn obeys_eq_spec() -> bool {
        true
    }

    open spec fn eq_spec(&self, other: &Error) -> bool {
        self@ == other@
    }
}

/// Values that can be turned into an [`Error`], keeping their text as its message.
pub trait IntoError: Sized {
    /// The text that becomes the message.
    spec fn error_text(&self) -> Seq<char>;

    /// Turns the value into an error whose message is its text.
    fn into_error(self) -> (e: Error)
        ensures
            e@ == self.error_text(),
    ;
}

impl IntoError for &str {
    open spec fn error_text(&self) -> Seq<char> {
        self@
    }

    fn into_error(self) -> (e: Error) {
        Error::new(self)
    }
}

impl IntoError for String {
    open spec fn error_text(&self) -> Seq<char> {
        self@
    }

    fn into_error(self) -> (e: Error) {
        Error { message: self }
    }
}

} // verus!
