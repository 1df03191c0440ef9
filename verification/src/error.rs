use vstd::prelude::*;

verus! {

/// Errors raised while normalizing one received payload.
///
/// `SerdeError` stands for a payload that is not well-formed JSON;
/// `FormatError` for well-formed JSON that lacks a field the message shape
/// requires.
#[derive(Clone, Copy, Debug, PartialEq, Eq, Structural)]
pub enum ConnectorError {
    SerdeError,
    FormatError,
}

} // verus!
