//! What can go wrong while talking to the controller.

use vstd::prelude::*;
use vstd::string::StringExecFns;

use crate::text::{decimal, decimal_digits_stand_for_the_number, decimal_text, digit_char};
use crate::wire::{describe_status, status_text};

verus! {

/// The status of an HTTP answer, a number of three digits.
#[derive(Clone, Copy, Debug, PartialEq, Eq)]
pub struct Status {
    code: u16,
}

/// Whether a number can be that of a status: it has three digits, the first of which is no zero.
pub open spec fn is_status(code: u16) -> bool {
    100 <= code <= 999
}

impl Status {
    #[verifier::type_invariant]
    spec fn three_digits(self) -> bool {
        100 <= self.code <= 999
    }

    /// The number of the status.
    pub closed spec fn code(self) -> u16 {
        self.code
    }

    /// The status numbered `code`, where there can be one.
    pub fn new(code: u16) -> (status: Option<Status>)
        ensures
            status is Some <==> 100 <= code <= 999,
            status is Some <==> is_status(code),
            status matches Some(status) ==> status.code() == code,
    {
        if 100 <= code && code <= 999 {
            Some(Status { code })
        } else {
            None
        }
    }
}

impl Status {
    /// Whether the status says that the request was carried out.
    pub fn is_success(self) -> (success: bool)
        ensures
            success == (200 <= self.code() < 300),
    {
        200 <= self.code && self.code < 300
    }
}

/// Why a request could not be sent, or its answer not be read.
pub enum HttpFailure {
    /// There is no connection: what the operating system says, and what the HTTP client makes of
    /// it.
    TcpConnect { cause: String, report: String },
    /// There is no secure connection: what the TLS library says, and what the HTTP client makes
    /// of it.
    TlsConnect { cause: String, report: String },
    /// Anything else, as the HTTP client reports it.
    Other { report: String },
}

impl HttpFailure {
    /// The message for the menu. What the HTTP client makes of a failed connection is far too
    /// noisy for a menu entry; the cause itself says it plainly, e.g. "Connection refused (os
    /// error 111)".
    pub open spec fn message(self) -> String {
        match self {
            HttpFailure::TcpConnect { cause, .. } => cause,
            HttpFailure::TlsConnect { cause, .. } => cause,
            HttpFailure::Other { report } => report,
        }
    }
}

/// Anything that can go wrong while talking to the controller.
///
/// The tray only ever shows this as one menu entry, so the message is all that is kept.
#[derive(Debug)]
pub enum Error {
    /// The request could not be built, sent or read.
    Transport(String),
    /// The kernel answered with an error status.
    Status(Status),
    /// The kernel did not answer within so many seconds.
    Timeout(u64),
}

impl Error {
    /// The message of an error.
    pub open spec fn text(self) -> Seq<char> {
        match self {
            Error::Transport(message) => message@,
            Error::Status(status) => "controller answered HTTP "@ + status_text(status.code()),
            Error::Timeout(seconds) => "controller did not answer within "@ + decimal_text(
                seconds as nat,
            ) + "s"@,
        }
    }

    /// The message of an error.
    pub fn message(&self) -> (message: String)
        ensures
            message@ == self.text(),
            self matches Error::Status(status) ==> ("controller answered HTTP "@ + decimal_text(
                status.code() as nat,
            )).is_prefix_of(message@),
    {
        match self {
            Error::Transport(message) => message.clone(),
            Error::Status(status) => {
                proof {
                    use_type_invariant(status);
                }
                let description = describe_status(status.code);
                let mut message = "controller answered HTTP ".to_owned();
                message.append(description.as_str());
                proof {
                    let number = decimal_text(status.code as nat);
                    let head = number.push(' ');
                    assert(description@.subrange(0, head.len() as int) == head);
                    assert forall|i: int| 0 <= i < number.len() implies #[trigger] description@[i]
                        == number[i] by {
                        assert(description@.subrange(0, head.len() as int)[i] == head[i]);
                    }
                    let prefix = "controller answered HTTP "@ + number;
                    assert(message@.subrange(0, prefix.len() as int) =~= prefix);
                }
                message
            },
            Error::Timeout(seconds) => {
                let mut message = "controller did not answer within ".to_owned();
                message.append(decimal(*seconds).as_str());
                message.append("s");
                message
            },
        }
    }
}

impl From<HttpFailure> for Error {
    fn from(failure: HttpFailure) -> (error: Self) {
        Error::Transport(
            match failure {
                HttpFailure::TcpConnect { cause, .. } => cause,
                HttpFailure::TlsConnect { cause, .. } => cause,
                HttpFailure::Other { report } => report,
            },
        )
    }
}

impl vstd::std_specs::convert::FromSpecImpl<HttpFailure> for Error {
    open spec fn obeys_from_spec() -> bool {
        true
    }

    open spec fn from_spec(failure: HttpFailure) -> Self {
        Error::Transport(failure.message())
    }
}

/// The message says what went wrong: what the transport said, which status came, or how long
/// there was no answer.
pub proof fn messages_say_what_went_wrong(error: Error)
    ensures
        error matches Error::Transport(message) ==> error.text() == message@,
        error matches Error::Status(status) ==> error.text() == "controller answered HTTP "@
            + status_text(status.code()),
        error matches Error::Timeout(seconds) ==> error.text()
            == "controller did not answer within "@ + decimal_text(seconds as nat) + "s"@,
{
}

/// A failed connection is told by its cause, anything else by the report of the HTTP client.
pub proof fn a_failed_connection_is_told_by_its_cause(failure: HttpFailure)
    ensures
        failure matches HttpFailure::TcpConnect { cause, .. } ==> failure.message() == cause,
        failure matches HttpFailure::TlsConnect { cause, .. } ==> failure.message() == cause,
        failure matches HttpFailure::Other { report } ==> failure.message() == report,
{
}

/// The number of a status is one that is written with three digits, and every such number can be
/// that of a status.
pub proof fn a_status_has_three_digits(code: u16)
    ensures
        is_status(code) <==> decimal_text(code as nat).len() == 3,
{
    let (n, tens) = (code as nat, code as nat / 10);
    decimal_digits_stand_for_the_number(n);
    if n >= 10 {
        assert(decimal_text(n) == decimal_text(tens).push(digit_char(n % 10)));
        if tens >= 10 {
            assert(decimal_text(tens) == decimal_text(tens / 10).push(digit_char(tens % 10)));
            decimal_digits_stand_for_the_number(tens / 10);
            if tens / 10 >= 10 {
                decimal_digits_stand_for_the_number(tens / 10 / 10);
            }
        }
    }
}

} // verus!
