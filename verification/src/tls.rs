//! What comes of making a TLS configuration.

use vstd::prelude::*;
use vstd::string::StringExecFns;

use crate::error::{Error, ErrorView, Result};

verus! {

/// The configuration, or the error for a provider that does not support the
/// default protocol versions.
pub fn configured<C>(config: std::result::Result<C, String>) -> (r: Result<C>)
    ensures
        match (config, r) {
            (Ok(config), Ok(given)) => given == config,
            (Err(detail), Err(error)) => error@ == ErrorView::Internal(
                "aws-lc-rs provider rejected default protocol versions: "@ + detail@,
            ),
            _ => false,
        },
{
    match config {
        Ok(config) => Ok(config),
        Err(detail) => Err(
            Error::Internal(
                "aws-lc-rs provider rejected default protocol versions: ".to_owned().concat(
                    detail.as_str(),
                ),
            ),
        ),
    }
}

} // verus!
