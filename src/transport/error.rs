//! Errors of the transports.
use vstd::prelude::*;
use vstd::string::*;

use crate::error::{Error, ErrorKind, ErrorSeverity};

verus! {

/// One decimal digit.
pub open spec fn digit_char(d: int) -> char {
    seq!['0', '1', '2', '3', '4', '5', '6', '7', '8', '9'][d]
}

/// The decimal digits of a natural number.
pub open spec fn decimal_digits(n: nat) -> Seq<char>
    decreases n,
{
    if n < 10 {
        seq![digit_char(n as int)]
    } else {
        decimal_digits(n / 10).push(digit_char((n % 10) as int))
    }
}

/// The decimal text of an integer, with a leading `-` if it is negative.
pub open spec fn decimal_text(v: int) -> Seq<char> {
    if v < 0 {
        seq!['-'] + decimal_digits((-v) as nat)
    } else {
        decimal_digits(v as nat)
    }
}

fn digit_text(d: u64) -> (r: &'static str)
    requires
        d < 10,
    ensures
        r@ == seq![digit_char(d as int)],
{
    proof {
        reveal_strlit("0");
        reveal_strlit("1");
        reveal_strlit("2");
        reveal_strlit("3");
        reveal_strlit("4");
        reveal_strlit("5");
        reveal_strlit("6");
        reveal_strlit("7");
        reveal_strlit("8");
        reveal_strlit("9");
    }
    match d {
        0 => "0",
        1 => "1",
        2 => "2",
        3 => "3",
        4 => "4",
        5 => "5",
        6 => "6",
        7 => "7",
        8 => "8",
        _ => "9",
    }
}

fn digits_text(n: u64) -> (r: String)
    ensures
        r@ == decimal_digits(n as nat),
    decreases n,
{
    if n < 10 {
        String::from_str(digit_text(n))
    } else {
        let high = digits_text(n / 10);
        high.concat(digit_text(n % 10))
    }
}

/// The number in decimal.
fn int_text(v: i64) -> (r: String)
    ensures
        r@ == decimal_text(v as int),
{
    if v < 0 {
        let magnitude = (0i128 - v as i128) as u64;
        proof {
            reveal_strlit("-");
        }
        String::from_str("-").concat(digits_text(magnitude).as_str())
    } else {
        digits_text(v as u64)
    }
}

/// The error of a message that could not reach an actor.
pub fn mailbox_io_error() -> (r: Error)
    ensures
        r.kind == ErrorKind::Other,
        r.severity == ErrorSeverity::MediumHigh,
        r.message@ == "mailbox error"@,
{
    Error::new(ErrorKind::Other, ErrorSeverity::MediumHigh, "mailbox error")
}

/// The error of an operation that the transport `name` does not support.
pub fn unsupported_error(name: &str) -> (r: Error)
    ensures
        r.kind == ErrorKind::Other,
        r.severity == ErrorSeverity::Medium,
        r.message@ == name@ + " is not supported"@,
{
    let message = String::from_str(name).concat(" is not supported");
    Error { kind: ErrorKind::Other, severity: ErrorSeverity::Medium, message }
}

/// The error of a command for the transport `name`, which is not listening.
pub fn not_listening_error(name: &str) -> (r: Error)
    ensures
        r.kind == ErrorKind::Network,
        r.severity == ErrorSeverity::Medium,
        r.message@ == name@ + " is not listening"@,
{
    let message = String::from_str(name).concat(" is not listening");
    Error { kind: ErrorKind::Network, severity: ErrorSeverity::Medium, message }
}

/// The error of an address that cannot be used.
pub fn invalid_address(host: &String, port: i64) -> (r: Error)
    ensures
        r.kind == ErrorKind::Other,
        r.severity == ErrorSeverity::Low,
        r.message@ == "Invalid address: "@ + host@ + ":"@ + decimal_text(port as int),
{
    let port_text = int_text(port);
    let message = String::from_str("Invalid address: ").concat(host.as_str()).concat(":").concat(
        port_text.as_str(),
    );
    Error { kind: ErrorKind::Other, severity: ErrorSeverity::Low, message }
}

} // verus!
