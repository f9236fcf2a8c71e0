//! The failures of encoding and decoding.

use byteorder::Error as ByteorderError;
use vstd::prelude::*;
use vstd::std_specs::convert::FromSpecImpl;

verus! {

/// `byteorder::Error`, the error of the byte-order crate's reads and writes,
/// carried through as it is.
#[verifier::external_type_specification]
#[verifier::external_body]
pub struct ExByteorderError(ByteorderError);

/// `std::io::Error`, carried through as it is.
#[verifier::external_type_specification]
#[verifier::external_body]
pub struct ExIoError(std::io::Error);

/// `std::string::FromUtf8Error`, carried through as it is.
#[verifier::external_type_specification]
#[verifier::external_body]
pub struct ExFromUtf8Error(std::string::FromUtf8Error);

/// The classes that every failure of the codec falls into.
#[derive(Clone, Copy, Debug, PartialEq, Eq, Structural)]
pub enum ErrorKind {
    /// A read or a write on the byte source or sink failed; a source that
    /// ends too early is the usual case.
    Io,
    /// Bytes that should be text are not valid UTF-8.
    InvalidUtf8,
    /// A union was to be encoded in a case that has no wire form.
    InvalidCase,
    /// A decoded discriminant names no declared variant.
    InvalidEnum,
    /// Any other condition, described by a message.
    Generic,
}

/// XDR errors.
///
/// One value for every failure that encoding or decoding can end in.
#[derive(Debug)]
pub enum Error {
    /// Byte order packing problem, in general a premature end of input.
    Byteorder(byteorder::Error),
    /// An underlying I/O error.
    IOError(std::io::Error),
    /// An improperly encoded string.
    InvalidUtf8(std::string::FromUtf8Error),
    /// Encoding a discriminated union with a bad (default) case.
    InvalidCase,
    /// Decoding a bad enum value.
    InvalidEnum,
    /// Generic error.
    Generic(String),
}

/// The error that an `Error` wraps.
#[derive(Debug)]
pub enum Cause<'a> {
    /// The byte-order error of a read or write that ended too early.
    Byteorder(&'a byteorder::Error),
    /// The I/O error of the byte source or sink.
    Io(&'a std::io::Error),
    /// The error of the UTF-8 check.
    Utf8(&'a std::string::FromUtf8Error),
}

/// Tells the two variants of `byteorder::Error` apart: hands out the I/O
/// error that `berr` wraps, or hands `berr` itself back where it wraps none.
#[verifier::external_body]
fn io_cause(berr: byteorder::Error) -> (r: Result<std::io::Error, byteorder::Error>)
    ensures
        r matches Err(other) ==> other == berr,
{
    match berr {
        byteorder::Error::Io(ioe) => Ok(ioe),
        other => Err(other),
    }
}

/// `std::error::Error::description` of a `byteorder::Error`: the short text
/// that the byte-order crate gives for it.
#[verifier::external_body]
#[allow(deprecated)]
fn byteorder_description(err: &byteorder::Error) -> &str {
    std::error::Error::description(err)
}

/// `std::error::Error::description` of a `std::io::Error`: the short text
/// that the standard library gives for it.
#[verifier::external_body]
#[allow(deprecated)]
fn io_description(err: &std::io::Error) -> &str {
    std::error::Error::description(err)
}

/// `std::error::Error::description` of a `std::string::FromUtf8Error`: the
/// short text that the standard library gives for it.
#[verifier::external_body]
#[allow(deprecated)]
fn utf8_description(err: &std::string::FromUtf8Error) -> &str {
    std::error::Error::description(err)
}

impl Error {
    /// The class of this error.
    pub open spec fn spec_kind(&self) -> ErrorKind {
        match self {
            Error::Byteorder(_) => ErrorKind::Io,
            Error::IOError(_) => ErrorKind::Io,
            Error::InvalidUtf8(_) => ErrorKind::InvalidUtf8,
            Error::InvalidCase => ErrorKind::InvalidCase,
            Error::InvalidEnum => ErrorKind::InvalidEnum,
            Error::Generic(_) => ErrorKind::Generic,
        }
    }

    /// The class of this error.
    #[verifier::when_used_as_spec(spec_kind)]
    pub fn kind(&self) -> (k: ErrorKind)
        ensures
            k == self.spec_kind(),
    {
        match self {
            Error::Byteorder(_) => ErrorKind::Io,
            Error::IOError(_) => ErrorKind::Io,
            Error::InvalidUtf8(_) => ErrorKind::InvalidUtf8,
            Error::InvalidCase => ErrorKind::InvalidCase,
            Error::InvalidEnum => ErrorKind::InvalidEnum,
            Error::Generic(_) => ErrorKind::Generic,
        }
    }

    /// The error of a union that is encoded in a case without a wire form.
    pub fn invalidcase() -> (e: Error)
        ensures
            e == Error::InvalidCase,
    {
        Error::InvalidCase
    }

    /// The error of a decoded discriminant that names no variant.
    pub fn invalidenum() -> (e: Error)
        ensures
            e == Error::InvalidEnum,
    {
        Error::InvalidEnum
    }

    /// The error of text that is not valid UTF-8, around its cause.
    pub fn badutf8(err: std::string::FromUtf8Error) -> (e: Error)
        ensures
            e == Error::InvalidUtf8(err),
    {
        Error::InvalidUtf8(err)
    }

    /// The error for a failed read or write of a scalar: the I/O error
    /// where `berr` wraps one, else `berr` itself as a byte-order error.
    pub fn byteorder(berr: byteorder::Error) -> (e: Error)
        ensures
            e is IOError || e == Error::Byteorder(berr),
            e.kind() == ErrorKind::Io,
    {
        match io_cause(berr) {
            Ok(ioe) => Error::IOError(ioe),
            Err(other) => Error::Byteorder(other),
        }
    }

    /// A short text that says what went wrong: the message of a generic
    /// error, a fixed text for a bad case or a bad enum value, and for the
    /// others the text of the error that they wrap.
    pub fn description(&self) -> (text: &str)
        ensures
            self matches Error::Generic(msg) ==> text@ == msg@,
            self is InvalidCase ==> text@ == "invalid switch case"@,
            self is InvalidEnum ==> text@ == "invalid enum value"@,
    {
        match self {
            Error::Byteorder(be) => byteorder_description(be),
            Error::IOError(ioe) => io_description(ioe),
            Error::InvalidUtf8(se) => utf8_description(se),
            Error::Generic(s) => s.as_str(),
            Error::InvalidCase => "invalid switch case",
            Error::InvalidEnum => "invalid enum value",
        }
    }

    /// The error that this one wraps: there is one for a byte-order error,
    /// an I/O error and an invalid string, and none for the others.
    pub fn cause(&self) -> (c: Option<Cause<'_>>)
        ensures
            match self {
                Error::Byteorder(be) => c == Some(Cause::Byteorder(be)),
                Error::IOError(ioe) => c == Some(Cause::Io(ioe)),
                Error::InvalidUtf8(se) => c == Some(Cause::Utf8(se)),
                _ => c.is_none(),
            },
    {
        match self {
            Error::Byteorder(be) => Some(Cause::Byteorder(be)),
            Error::IOError(ioe) => Some(Cause::Io(ioe)),
            Error::InvalidUtf8(se) => Some(Cause::Utf8(se)),
            _ => None,
        }
    }

    /// A generic error whose message is what `err` displays as.
    pub fn generic<T: std::fmt::Display>(err: T) -> (e: Error)
        ensures
            e matches Error::Generic(msg) && vstd::string::to_string_from_display_ensures::<T>(
                &err,
                msg,
            ),
    {
        Error::Generic(err.to_string())
    }
}

impl From<String> for Error {
    fn from(msg: String) -> (e: Error) {
        Error::Generic(msg)
    }
}

impl FromSpecImpl<String> for Error {
    open spec fn obeys_from_spec() -> bool {
        true
    }

    open spec fn from_spec(msg: String) -> Error {
        Error::Generic(msg)
    }
}

impl<'a> From<&'a str> for Error {
    fn from(err: &'a str) -> (e: Error)
        ensures
            e matches Error::Generic(s) && s@ == err@,
    {
        Error::Generic(err.to_owned())
    }
}

impl<'a> FromSpecImpl<&'a str> for Error {
    open spec fn obeys_from_spec() -> bool {
        false
    }

    open spec fn from_spec(err: &'a str) -> Error {
        arbitrary()
    }
}

impl From<std::io::Error> for Error {
    fn from(err: std::io::Error) -> (e: Error) {
        Error::IOError(err)
    }
}

impl FromSpecImpl<std::io::Error> for Error {
    open spec fn obeys_from_spec() -> bool {
        true
    }

    open spec fn from_spec(err: std::io::Error) -> Error {
        Error::IOError(err)
    }
}

impl From<std::string::FromUtf8Error> for Error {
    fn from(err: std::string::FromUtf8Error) -> (e: Error) {
        Error::InvalidUtf8(err)
    }
}

impl FromSpecImpl<std::string::FromUtf8Error> for Error {
    open spec fn obeys_from_spec() -> bool {
        true
    }

    open spec fn from_spec(err: std::string::FromUtf8Error) -> Error {
        Error::InvalidUtf8(err)
    }
}

impl From<byteorder::Error> for Error {
    fn from(err: byteorder::Error) -> (e: Error)
        ensures
            e is IOError || e == Error::Byteorder(err),
            e.kind() == ErrorKind::Io,
    {
        Error::byteorder(err)
    }
}

impl FromSpecImpl<byteorder::Error> for Error {
    open spec fn obeys_from_spec() -> bool {
        false
    }

    open spec fn from_spec(err: byteorder::Error) -> Error {
        arbitrary()
    }
}

} // verus!
