use crate::error::FetchError;
use crate::markup::{strip_tags, stripped};
use crate::response::{response_of_bytes, ParsedResponse};
use vstd::prelude::*;

verus! {

/// The text that a page shows, given the bytes of its response: the body
/// of the parsed response without its markup.
pub open spec fn page_text_of(raw: Seq<u8>) -> Result<Seq<char>, FetchError> {
    match response_of_bytes(raw) {
        Ok(response) => Ok(stripped(response.body)),
        Err(e) => Err(e),
    }
}

/// Parses the bytes that a fetch has collected and reduces the body to its
/// visible text.
pub fn page_text(raw: &[u8]) -> (r: Result<String, FetchError>)
    ensures
        match r {
            Ok(text) => page_text_of(raw@) == Ok::<Seq<char>, FetchError>(text@),
            Err(e) => page_text_of(raw@) == Err::<Seq<char>, FetchError>(e),
        },
{
    match ParsedResponse::parse(raw) {
        Ok(response) => Ok(strip_tags(response.body())),
        Err(e) => Err(e),
    }
}

} // verus!
