//! What can go wrong between a location and its summaries.

use crate::text::decimal;
use crate::text::to_decimal;
use vstd::prelude::*;

verus! {

#[derive(Clone, Copy, Debug, PartialEq, Eq, Structural)]
pub enum Error {
    /// A request kept failing until its retries were used up.
    FetchExhausted,
    /// A response did not have the expected shape.
    Decode,
    /// The lookup of a location answered without a location identifier.
    LocationNotFound,
    /// A price came with a frequency that is none of the known ones.
    UnrecognisedPriceFrequency,
    /// A date came in a form that cannot be read.
    UnreadableDate,
}

/// What is said of a response that could not be decoded: why not, then
/// where it came from, its status code, its body as it came, and what was
/// being asked, each on lines of its own.
pub open spec fn decode_error_message_of(
    cause: Seq<char>,
    url: Seq<char>,
    status_code: u16,
    body: Seq<char>,
    context: Seq<char>,
) -> Seq<char> {
    cause + "\nURL: "@ + url + "\nStatus code: "@ + decimal(status_code as nat) + "\nResponse body:\n"@ + body
        + "\nContext: "@ + context
}

/// What is said of a response that could not be decoded. It carries the
/// address and the whole body of the response.
pub fn decode_error_message(cause: &str, url: &str, status_code: u16, body: &str, context: &str) -> (message:
    String)
    ensures
        message@ == decode_error_message_of(cause@, url@, status_code, body@, context@),
{
    let status = to_decimal(status_code as u64);
    cause.to_owned().concat("\nURL: ").concat(url).concat("\nStatus code: ").concat(status.as_str()).concat(
        "\nResponse body:\n",
    ).concat(body).concat("\nContext: ").concat(context)
}

} // verus!
