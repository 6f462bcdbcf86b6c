//! Declarations of the outside types that the library carries through.

use vstd::prelude::*;
use url::Url;

verus! {

/// `url::Url`, the webhook address.
#[verifier::external_type_specification]
#[verifier::external_body]
pub struct ExUrl(url::Url);

/// `reqwest_middleware::ClientWithMiddleware`, the HTTP client that sends requests.
#[verifier::external_type_specification]
#[verifier::external_body]
pub struct ExClientWithMiddleware(reqwest_middleware::ClientWithMiddleware);

/// `reqwest_middleware::Error`, a failure of the HTTP client.
#[verifier::external_type_specification]
#[verifier::external_body]
pub struct ExMiddlewareError(reqwest_middleware::Error);

/// `Clone` of `url::Url`, which the url crate derives: the copy holds the
/// same fields, so it is the same value.
pub assume_specification[ <Url as Clone>::clone ](value: &Url) -> (res: Url)
    ensures
        res == *value,
;

} // verus!
