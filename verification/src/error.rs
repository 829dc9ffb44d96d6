//! Errors, as the kind and the message that a caller sees.
use vstd::prelude::*;
use vstd::string::*;

verus! {

/// The kind of an [`Error`], named like the kinds of the standard library.
#[derive(Debug, Clone, Copy, PartialEq, Eq, Structural)]
pub enum ErrorKind {
    NotFound,
    PermissionDenied,
    ConnectionRefused,
    ConnectionReset,
    HostUnreachable,
    NetworkUnreachable,
    ConnectionAborted,
    NotConnected,
    AddrInUse,
    AddrNotAvailable,
    NetworkDown,
    BrokenPipe,
    AlreadyExists,
    WouldBlock,
    NotADirectory,
    IsADirectory,
    DirectoryNotEmpty,
    ReadOnlyFilesystem,
    StaleNetworkFileHandle,
    InvalidInput,
    InvalidData,
    TimedOut,
    WriteZero,
    StorageFull,
    NotSeekable,
    QuotaExceeded,
    FileTooLarge,
    ResourceBusy,
    ExecutableFileBusy,
    Deadlock,
    CrossesDevices,
    TooManyLinks,
    InvalidFilename,
    ArgumentListTooLong,
    Interrupted,
    Unsupported,
    UnexpectedEof,
    OutOfMemory,
    Other,
}

/// An error: its kind, the number the operating system gave it (if it came from there), and
/// what it says.
#[derive(Debug)]
pub struct Error {
    pub kind: ErrorKind,
    pub code: Option<i32>,
    pub message: String,
}

/// What an [`Error`] tells its caller.
pub struct ErrorView {
    pub kind: ErrorKind,
    pub code: Option<i32>,
    pub message: Seq<char>,
}

impl View for Error {
    type V = ErrorView;

    open spec fn view(&self) -> ErrorView {
        ErrorView { kind: self.kind, code: self.code, message: self.message@ }
    }
}

/// An error of this library's own, which carries no number of the operating system.
pub open spec fn failure(kind: ErrorKind, message: Seq<char>) -> ErrorView {
    ErrorView { kind, code: None, message }
}

/// The same kind of error, with `context` written before its message.
pub open spec fn in_context(cause: ErrorView, context: Seq<char>) -> ErrorView {
    failure(cause.kind, context + cause.message)
}

/// Whether an outcome is the one that `expected` describes.
pub open spec fn is_outcome<T>(outcome: Result<T, Error>, expected: Result<T, ErrorView>) -> bool {
    match (outcome, expected) {
        (Ok(value), Ok(expected_value)) => value == expected_value,
        (Err(error), Err(expected_error)) => error@ == expected_error,
        _ => false,
    }
}

impl Error {
    /// An error of the given kind which says `message`.
    pub fn new(kind: ErrorKind, message: &str) -> (error: Self)
        ensures
            error@ == failure(kind, message@),
    {
        Error { kind, code: None, message: message.to_owned() }
    }

    /// The kind of this error.
    pub fn kind(&self) -> (kind: ErrorKind)
        ensures
            kind == self@.kind,
    {
        self.kind
    }

    /// Put `context` before this error's message.
    pub fn context(self, context: &str) -> (error: Self)
        ensures
            error@ == in_context(self@, context@),
    {
        let message = context.to_owned().concat(self.message.as_str());
        Error { kind: self.kind, code: None, message }
    }
}

/// The error for using a file that has been deleted.
pub open spec fn deleted_view() -> ErrorView {
    failure(ErrorKind::NotFound, "this file has been deleted"@)
}

/// A file that has been deleted cannot be used.
pub fn deleted() -> (error: Error)
    ensures
        error@ == deleted_view(),
{
    Error::new(ErrorKind::NotFound, "this file has been deleted")
}

/// A file does not hold what was asked of it.
pub fn invalid_data(cause: &str) -> (error: Error)
    ensures
        error@ == failure(ErrorKind::InvalidData, cause@),
{
    Error::new(ErrorKind::InvalidData, cause)
}

/// An operation cannot be done without waiting.
pub fn would_block(cause: &str) -> (error: Error)
    ensures
        error@ == failure(ErrorKind::WouldBlock, cause@),
{
    Error::new(ErrorKind::WouldBlock, cause)
}

/// The decimal digit of `n`, for `n` below ten.
pub open spec fn digit(n: nat) -> char {
    (48 + n) as char
}

/// `n` written in decimal.
pub open spec fn decimal(n: nat) -> Seq<char>
    decreases n,
{
    if n < 10 {
        seq![digit(n)]
    } else {
        decimal(n / 10).push(digit(n % 10))
    }
}

fn digit_text(n: u64) -> (text: &'static str)
    requires
        n < 10,
    ensures
        text@ == seq![digit(n as nat)],
{
    proof {
        reveal_strlit("0");
        reveal_strlit("1");
        reveal_strlit("2");
        reveal_strlit("3");
        reveal_strlit("4");
        reveal_strlit("5");
        reveal_strlit("6");
        reveal_strlit("7");
        reveal_strlit("8");
        reveal_strlit("9");
    }
    match n {
        0 => "0",
        1 => "1",
        2 => "2",
        3 => "3",
        4 => "4",
        5 => "5",
        6 => "6",
        7 => "7",
        8 => "8",
        _ => "9",
    }
}

/// Write `n` in decimal.
pub fn to_decimal(n: u64) -> (text: String)
    ensures
        text@ == decimal(n as nat),
    decreases n,
{
    let last = digit_text(n % 10);
    if n < 10 {
        last.to_owned()
    } else {
        let text = to_decimal(n / 10).concat(last);
        assert(text@ =~= decimal(n as nat));
        text
    }
}

} // verus!
