//! Errors of operations other than transfers.

use vstd::prelude::*;

use crate::text;
use crate::transfer::TransferError;

verus! {

/// General category of error as part of an [`Error`].
#[derive(Debug, Copy, Clone, PartialEq, Eq, Structural)]
pub enum ErrorKind {
    /// Device is disconnected.
    Disconnected,
    /// Device, interface, or endpoint is in use by another application, kernel driver, or handle.
    Busy,
    /// This user or application does not have permission to perform the requested operation.
    PermissionDenied,
    /// Requested configuration, interface, or alternate setting not found
    NotFound,
    /// The requested operation is not supported by the platform or its currently-configured
    /// driver.
    Unsupported,
    /// Uncategorized error.
    Other,
}

/// The category of an I/O error, under the names that the standard library has for it.
#[derive(Debug, Copy, Clone, PartialEq, Eq, Structural)]
pub enum IoErrorKind {
    NotConnected,
    PermissionDenied,
    NotFound,
    Unsupported,
    InvalidData,
    Other,
}

/// How an operating system's error code is written.
#[derive(Debug, Copy, Clone, PartialEq, Eq, Structural)]
pub enum OsErrorFormat {
    /// As `errno`, with the number.
    Errno,
    /// Not at all.
    Omitted,
}

/// Error returned from operations other than transfers.
#[derive(Debug, Clone, Copy)]
pub struct Error {
    pub kind: ErrorKind,
    pub code: Option<u32>,
    pub message: &'static str,
}

/// The code of an error that has a number from the operating system, where 0 is none.
pub open spec fn os_code(number: u32) -> Option<u32> {
    if number == 0 {
        None
    } else {
        Some(number)
    }
}

/// The code of an error from an I/O operation, which may have a number, where 0 is none.
pub open spec fn io_code(number: Option<u32>) -> Option<u32> {
    match number {
        Some(number) => os_code(number),
        None => None,
    }
}

impl Error {
    /// Whether an error has this kind, this code and this message.
    pub open spec fn is(self, kind: ErrorKind, code: Option<u32>, message: Seq<char>) -> bool {
        self.kind == kind && self.code == code && self.message@ == message
    }

    /// An error without a code from the operating system.
    pub fn new(kind: ErrorKind, message: &'static str) -> (r: Error)
        ensures
            r.is(kind, None, message@),
            r == (Error { kind, code: None, message }),
    {
        Error { kind, code: None, message }
    }

    /// An error with a code from the operating system, where 0 is none.
    pub fn new_os(kind: ErrorKind, message: &'static str, code: u32) -> (r: Error)
        ensures
            r.is(kind, os_code(code), message@),
    {
        Error {
            kind,
            code: if code == 0 {
                None
            } else {
                Some(code)
            },
            message,
        }
    }

    /// An error from an I/O operation, with the code that it had, if any.
    pub fn new_io(kind: ErrorKind, message: &'static str, code: Option<u32>) -> (r: Error)
        ensures
            r.is(kind, io_code(code), message@),
    {
        match code {
            Some(code) => Error::new_os(kind, message, code),
            None => Error::new(kind, message),
        }
    }

    /// Get the error kind.
    pub fn kind(&self) -> (r: ErrorKind)
        ensures
            r == self.kind,
    {
        self.kind
    }

    /// Get the error code from the OS, if applicable.
    ///
    /// * On Linux this is the `errno` value.
    /// * On Windows this is the `WIN32_ERROR` value.
    /// * On macOS this is the `IOReturn` value.
    pub fn os_error(&self) -> (r: Option<u32>)
        ensures
            r == self.code,
    {
        self.code
    }

    /// The text that describes the error: its message, and behind it the code in brackets.
    pub open spec fn text(&self, format: OsErrorFormat) -> Seq<char> {
        match self.code {
            Some(code) => self.message@ + " ("@ + os_error_text(format, code) + ")"@,
            None => self.message@,
        }
    }

    /// Describe the error.
    pub fn description(&self, format: OsErrorFormat) -> (r: String)
        ensures
            r@ == self.text(format),
    {
        let mut out = String::from_str(self.message);
        if let Some(code) = self.code {
            out.append(" (");
            let code = format_os_error_code(format, code);
            out.append(code.as_str());
            out.append(")");
        }
        out
    }

    /// The kind of I/O error that this is.
    pub fn io_kind(&self) -> (r: IoErrorKind)
        ensures
            r == io_kind_of(self.kind),
    {
        match self.kind {
            ErrorKind::Disconnected => IoErrorKind::NotConnected,
            ErrorKind::Busy => IoErrorKind::Other,
            ErrorKind::PermissionDenied => IoErrorKind::PermissionDenied,
            ErrorKind::NotFound => IoErrorKind::NotFound,
            ErrorKind::Unsupported => IoErrorKind::Unsupported,
            ErrorKind::Other => IoErrorKind::Other,
        }
    }
}

/// The kind of I/O error that a kind of error is.
pub open spec fn io_kind_of(kind: ErrorKind) -> IoErrorKind {
    match kind {
        ErrorKind::Disconnected => IoErrorKind::NotConnected,
        ErrorKind::Busy => IoErrorKind::Other,
        ErrorKind::PermissionDenied => IoErrorKind::PermissionDenied,
        ErrorKind::NotFound => IoErrorKind::NotFound,
        ErrorKind::Unsupported => IoErrorKind::Unsupported,
        ErrorKind::Other => IoErrorKind::Other,
    }
}

/// An error is what it was made of: it has the kind, the message and the code that were given, where a
/// number that is 0 is no code.
pub proof fn law_error_has_its_parts(
    e: Error,
    kind: ErrorKind,
    code: Option<u32>,
    message: Seq<char>,
    number: u32,
)
    ensures
        e.is(kind, code, message) <==> e.kind == kind && e.code == code && e.message@ == message,
        os_code(0) is None,
        number > 0 ==> os_code(number) == Some(number) && io_code(Some(number)) == Some(number),
        io_code(Some(0u32)) is None,
        io_code(None) is None,
{
}

/// The description of an error is its message, followed by its code, if it has one, in brackets, as a
/// decimal number behind `errno` or not at all.
pub proof fn law_description_has_message_and_code(e: Error)
    ensures
        e.code is None ==> e.text(OsErrorFormat::Errno) == e.message@ && e.text(
            OsErrorFormat::Omitted,
        ) == e.message@,
        e.code matches Some(code) ==> {
            &&& e.text(OsErrorFormat::Errno) == e.message@ + seq![
                ' ',
                '(',
                'e',
                'r',
                'r',
                'n',
                'o',
                ' ',
            ] + text::decimal(code as nat) + seq![')']
            &&& e.text(OsErrorFormat::Omitted) == e.message@ + seq![' ', '(', ')']
        },
{
    reveal_strlit(" (");
    reveal_strlit("errno ");
    reveal_strlit(")");
    if let Some(code) = e.code {
        assert(e.text(OsErrorFormat::Errno) =~= e.message@ + seq![
            ' ',
            '(',
            'e',
            'r',
            'r',
            'n',
            'o',
            ' ',
        ] + text::decimal(code as nat) + seq![')']);
        assert(e.text(OsErrorFormat::Omitted) =~= e.message@ + seq![' ', '(', ')']);
    }
}

/// As an I/O error, a device that is gone is one that is not connected; errors of permission, that
/// nothing was found and that something is not supported keep their kind; and any other is of no
/// particular one.
pub proof fn law_io_kinds_of_errors(kind: ErrorKind)
    ensures
        io_kind_of(kind) == IoErrorKind::NotConnected <==> kind == ErrorKind::Disconnected,
        io_kind_of(kind) == IoErrorKind::PermissionDenied <==> kind == ErrorKind::PermissionDenied,
        io_kind_of(kind) == IoErrorKind::NotFound <==> kind == ErrorKind::NotFound,
        io_kind_of(kind) == IoErrorKind::Unsupported <==> kind == ErrorKind::Unsupported,
        io_kind_of(kind) == IoErrorKind::Other <==> kind == ErrorKind::Busy || kind
            == ErrorKind::Other,
{
}

/// How an error code is written.
pub open spec fn os_error_text(format: OsErrorFormat, code: u32) -> Seq<char> {
    match format {
        OsErrorFormat::Errno => "errno "@ + text::decimal(code as nat),
        OsErrorFormat::Omitted => seq![],
    }
}

/// Write an error code.
pub fn format_os_error_code(format: OsErrorFormat, code: u32) -> (r: String)
    ensures
        r@ == os_error_text(format, code),
{
    match format {
        OsErrorFormat::Errno => {
            let mut out = String::from_str("errno ");
            let number = text::write_decimal(code);
            out.append(number.as_str());
            out
        },
        OsErrorFormat::Omitted => String::new(),
    }
}

pub use crate::descriptors::ActiveConfigurationError;

impl From<ActiveConfigurationError> for Error {
    fn from(value: ActiveConfigurationError) -> (r: Error) {
        if value.configuration_value == 0 {
            Error::new(ErrorKind::Other, "device is not configured")
        } else {
            Error::new(ErrorKind::Other, "no descriptor found for active configuration")
        }
    }
}

impl vstd::std_specs::convert::FromSpecImpl<ActiveConfigurationError> for Error {
    open spec fn obeys_from_spec() -> bool {
        true
    }

    open spec fn from_spec(value: ActiveConfigurationError) -> Error {
        Error {
            kind: ErrorKind::Other,
            code: None,
            message: if value.configuration_value == 0 {
                "device is not configured"
            } else {
                "no descriptor found for active configuration"
            },
        }
    }
}

/// A device that has no active configuration is not configured, if the number of it is 0, and else has no
/// descriptor for it.
pub proof fn law_missing_configuration_is_told(value: ActiveConfigurationError)
    ensures
        ({
            let e = <Error as vstd::std_specs::convert::FromSpec<
                ActiveConfigurationError,
            >>::from_spec(value);
            &&& e.kind == ErrorKind::Other && e.code is None
            &&& value.configuration_value == 0 ==> e.message@ == "device is not configured"@
            &&& value.configuration_value != 0 ==> e.message@
                == "no descriptor found for active configuration"@
        }),
{
}

/// Error for descriptor reads.
#[derive(Debug, Copy, Clone, PartialEq, Eq, Structural)]
pub enum GetDescriptorError {
    /// Transfer error when getting the descriptor.
    Transfer(TransferError),
    /// Invalid descriptor data
    InvalidDescriptor,
}

impl GetDescriptorError {
    /// Describe the error; where a transfer failed, that is for the transfer's own error to do.
    pub fn message(&self) -> (r: Result<&'static str, TransferError>)
        ensures
            match *self {
                GetDescriptorError::Transfer(e) => r == Err::<&'static str, TransferError>(e),
                GetDescriptorError::InvalidDescriptor => r matches Ok(s) && s@
                    == "invalid descriptor"@,
            },
    {
        match *self {
            GetDescriptorError::Transfer(e) => Err(e),
            GetDescriptorError::InvalidDescriptor => Ok("invalid descriptor"),
        }
    }

    /// The kind of I/O error that this is; where a transfer failed, that is for the transfer's own
    /// error to say.
    pub fn io_kind(&self) -> (r: Result<IoErrorKind, TransferError>)
        ensures
            r == match *self {
                GetDescriptorError::Transfer(e) => Err(e),
                GetDescriptorError::InvalidDescriptor => Ok(IoErrorKind::InvalidData),
            },
    {
        match *self {
            GetDescriptorError::Transfer(e) => Err(e),
            GetDescriptorError::InvalidDescriptor => Ok(IoErrorKind::InvalidData),
        }
    }
}

} // verus!
