//! The addresses of RPC servers.

use crate::error::{law_start_failure_words, ClientError, ClientKind};
use crate::outside::{parse_url, url_fault};
use vstd::prelude::*;

verus! {

/// Checks that the address of an RPC server is a URL.
pub fn check_rpc_url(url: &str) -> (checked: Result<(), ClientError>)
    ensures
        checked is Ok == url_fault(url@) is None,
        checked matches Err(error) ==> (error matches ClientError::InvalidRpcUrl {
            url: named,
            reason,
        } && named@ == url@ && reason@ == url_fault(url@)->0),
{
    url_verdict(url, parse_url(url))
}

/// What is made of an address in which this fault was found, if any.
pub fn url_verdict(url: &str, fault: Option<String>) -> (checked: Result<(), ClientError>)
    ensures
        checked is Ok == fault is None,
        checked matches Err(error) ==> (error matches ClientError::InvalidRpcUrl {
            url: named,
            reason,
        } && named@ == url@ && fault == Some(reason)),
{
    match fault {
        None => Ok(()),
        Some(reason) => Err(ClientError::InvalidRpcUrl { url: url.to_owned(), reason }),
    }
}

/// An address is refused exactly when it is no URL. The refusal repeats the address and says what
/// is wrong with it.
pub proof fn law_refusal_names_address(
    url: &str,
    checked: Result<(), ClientError>,
    kind: ClientKind,
    message: Option<String>,
)
    requires
        call_ensures(check_rpc_url, (url,), checked),
        checked matches Err(error) ==> call_ensures(ClientError::message, (&error, kind), message),
    ensures
        checked is Err <==> url_fault(url@) is Some,
        checked is Err ==> (message matches Some(words) && words@ == "Invalid RPC URL '"@ + url@
            + "': "@ + url_fault(url@)->0),
{
    match checked {
        Ok(_) => {},
        Err(error) => law_start_failure_words(error, kind, message),
    }
}

/// An address passes exactly when no fault was found in it, and a fault is passed on with it.
pub proof fn law_fault_decides(
    url: &str,
    fault: Option<String>,
    checked: Result<(), ClientError>,
)
    requires
        call_ensures(url_verdict, (url, fault), checked),
    ensures
        checked is Ok <==> fault is None,
        checked matches Err(error) ==> (error matches ClientError::InvalidRpcUrl {
            url: named,
            reason,
        } && named@ == url@ && fault == Some(reason)),
{
}

} // verus!
