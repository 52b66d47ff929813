//! Where the document store is reached.

use vstd::prelude::*;
use vstd::string::*;

verus! {

/// The address of the document store for the service's account with the
/// given password.
pub open spec fn mongo_uri_of(pwd: Seq<char>) -> Seq<char> {
    "mongodb://globchat:"@ + pwd + "@localhost:27017/globchat?retryWrites=true"@
}

pub fn mongo_uri(pwd: &str) -> (uri: String)
    ensures
        uri@ == mongo_uri_of(pwd@),
{
    String::from_str("mongodb://globchat:").concat(pwd).concat(
        "@localhost:27017/globchat?retryWrites=true",
    )
}

} // verus!
