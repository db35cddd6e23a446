use vstd::prelude::*;
use crate::errors::ErrorType;
use crate::text::{parse_u64, parsed_u64, string_of};

verus! {

/// The port the server listens on when none is given.
pub const DEFAULT_PORT: u16 = 7878;

/// The address the server listens on when none is given.
pub const DEFAULT_IP: &'static str = "127.0.0.1";

/// The outcome of reading a port argument: `Some(Ok(p))` for a usable port,
/// `Some(Err(()))` for a number out of range, `None` for text that is no
/// 16-bit number.
pub open spec fn port_reading(s: Seq<char>) -> Option<Result<u16, ()>> {
    match parsed_u64(s) {
        Some(v) => if v <= 65535 {
            if 0 < v && v < 65535 {
                Some(Ok(v as u16))
            } else {
                Some(Err(()))
            }
        } else {
            None
        },
        None => None,
    }
}

/// Reads a port number argument. Ports 1 to 65534 are accepted.
pub fn parse_port(port: String) -> (r: Result<u16, ErrorType>)
    ensures
        match port_reading(port@) {
            Some(Ok(p)) => r == Ok::<u16, ErrorType>(p),
            Some(Err(())) => r matches Err(e) && e is InvalidPort,
            None => r matches Err(e) && e is ParseError,
        },
{
    match parse_u64(port.as_str()) {
        Some(value) => {
            if value > 65535 {
                return Err(ErrorType::ParseError(string_of("Port number was not a number")));
            }
            if value > 0 && value < 65535 {
                Ok(value as u16)
            } else {
                Err(ErrorType::InvalidPort(string_of("Port number must be between 1 and 65535")))
            }
        },
        None => Err(ErrorType::ParseError(string_of("Port number was not a number"))),
    }
}

} // verus!
