//! Building the verification link that accompanies an issued credential.

use vstd::prelude::*;
use vstd::string::StringExecFns;

verus! {

/// The URL of the verification page for `account`: the base URL with the
/// account identifier appended.
pub fn verification_url(base_url: &str, account: &str) -> (r: String)
    ensures
        r@ == base_url@ + account@,
{
    let mut url = String::new();
    url.append(base_url);
    url.append(account);
    proof {
        assert(url@ =~= base_url@ + account@);
    }
    url
}

} // verus!
