//! What a reply of the agent is: a report of an error in the agent's own
//! words, or a payload to decode.

use crate::text::{begins, starts_with};
use vstd::prelude::*;

verus! {

/// Why a reply gave no records.
#[derive(Debug, PartialEq, Eq)]
pub enum DecodeError {
    /// The agent answered with an error: the reply as it came.
    Agent(String),
    /// The payload is not what was asked for: what the decoder said of it.
    Malformed(String),
}

/// Whether a reply is an error report: it begins with `ERROR`.
pub open spec fn is_agent_error(raw: Seq<char>) -> bool {
    begins(raw, "ERROR"@)
}

/// Whether a reply is an error report of the agent.
pub fn reports_error(raw: &str) -> (b: bool)
    ensures
        b == is_agent_error(raw@),
{
    starts_with(raw, "ERROR")
}

/// Decodes a reply. An error report is handed back whole and the decoder
/// is not asked; any other reply is what the decoder makes of it.
pub fn decode<T, F: FnOnce(&str) -> Result<T, String>>(raw: &str, decoder: F) -> (r: Result<
    T,
    DecodeError,
>)
    requires
        !is_agent_error(raw@) ==> decoder.requires((raw,)),
    ensures
        is_agent_error(raw@) ==> (r matches Err(DecodeError::Agent(text)) && text@ == raw@),
        !is_agent_error(raw@) ==> (match r {
            Ok(records) => decoder.ensures((raw,), Ok(records)),
            Err(DecodeError::Malformed(detail)) => decoder.ensures((raw,), Err(detail)),
            Err(DecodeError::Agent(_)) => false,
        }),
{
    if reports_error(raw) {
        Err(DecodeError::Agent(raw.to_owned()))
    } else {
        match decoder(raw) {
            Ok(records) => Ok(records),
            Err(detail) => Err(DecodeError::Malformed(detail)),
        }
    }
}

} // verus!
