//! What other code computes for this library, and what is taken on trust of it.

use crate::text::{decimal, digit};
use vstd::prelude::*;
use vstd::utf8::{decode_utf8, valid_utf8};

verus! {

/// The name that `alloy_chains` displays for the chain with a given EIP-155 id.
pub uninterp spec fn chain_name(id: u64) -> Seq<char>;

/// Calls `alloy_chains::Chain::from_id` and displays the chain it gives. The name depends on the
/// id alone; of the chains whose names decide something here, the id and the name belong
/// together one to one. The names of the other chains are left unsaid.
#[verifier::external_body]
pub(crate) fn display_chain(id: u64) -> (name: String)
    ensures
        name@ == chain_name(id),
        (name@ == "mainnet"@) == (id == 1),
        (name@ == "sepolia"@) == (id == 11155111),
        (name@ == "holesky"@) == (id == 17000),
        (name@ == "goerli"@) == (id == 5),
{
    alloy_chains::Chain::from_id(id).to_string()
}

/// Calls `alloy_chains::Chain::from_id_unchecked` and displays the chain it gives, which is
/// never looked up among the named ones: the name is the id in decimal.
#[verifier::external_body]
pub(crate) fn display_unchecked_chain(id: u64) -> (name: String)
    ensures
        name@ == decimal(id as nat),
{
    alloy_chains::Chain::from_id_unchecked(id).to_string()
}

/// Two lower-case hexadecimal digits for each byte, the high one first.
pub open spec fn hex_digits(bytes: Seq<u8>) -> Seq<char> {
    Seq::new(
        2 * bytes.len(),
        |i: int|
            digit(
                if i % 2 == 0 {
                    bytes[i / 2] as nat / 16
                } else {
                    bytes[i / 2] as nat % 16
                },
            ),
    )
}

/// Calls `hex::encode`, which writes each byte as two lower-case hexadecimal digits.
#[verifier::external_body]
pub(crate) fn hex_encode(bytes: &[u8; 32]) -> (text: String)
    ensures
        text@ == hex_digits(bytes@),
{
    hex::encode(bytes)
}

/// The text that `String::from_utf8_lossy` makes of bytes.
pub uninterp spec fn lossy_text(bytes: Seq<u8>) -> Seq<char>;

/// Calls `String::from_utf8_lossy`: bytes that are valid UTF-8 become the text that they encode.
/// Where the replacement character stands for other bytes is left unsaid.
#[verifier::external_body]
pub(crate) fn from_utf8_lossy(bytes: &[u8]) -> (text: String)
    ensures
        text@ == lossy_text(bytes@),
        valid_utf8(bytes@) ==> text@ == decode_utf8(bytes@),
{
    String::from_utf8_lossy(bytes).into_owned()
}

/// The text that `{:?}` gives for a path.
pub uninterp spec fn quoted_path(path: Seq<char>) -> Seq<char>;

/// Formats a path with `{:?}`, as `std::path::Path` does it: in quotes, with escapes. Which
/// characters are escaped is left unsaid.
#[verifier::external_body]
pub(crate) fn quote_path(path: &str) -> (text: String)
    ensures
        text@ == quoted_path(path@),
{
    format!("{:?}", std::path::Path::new(path))
}

/// What is wrong with a text as a URL, in the words of the `url` crate. `None` where it is one.
pub uninterp spec fn url_fault(text: Seq<char>) -> Option<Seq<char>>;

/// Parses a text as `url::Url` does it, and displays the `url::ParseError` that comes. Whether one
/// comes, and its words, depend on the text alone. Which texts are URLs is left unsaid.
#[verifier::external_body]
pub(crate) fn parse_url(text: &str) -> (fault: Option<String>)
    ensures
        fault is Some == url_fault(text@) is Some,
        fault matches Some(reason) ==> reason@ == url_fault(text@)->0,
{
    match text.parse::<url::Url>() {
        Ok(_) => None,
        Err(error) => Some(error.to_string()),
    }
}

} // verus!
