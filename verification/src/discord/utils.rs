//! Error text shared by the delivery paths.
use vstd::prelude::*;
use crate::text::{contains_seq, str_contains};

verus! {

/// The error of a delivery target with neither a channel nor a webhook.
pub const MISSING_TARGET_ERROR: &'static str =
    "missing discord target: set discord_channel_id or discord_webhook_url";

/// Whether a delivery error is the missing-target error.
pub fn is_missing_target_error(error: &str) -> (r: bool)
    ensures
        r == contains_seq(error@, MISSING_TARGET_ERROR@),
{
    str_contains(error, MISSING_TARGET_ERROR)
}

/// The HTTP status answered for any other delivery error: 502 Bad Gateway.
pub fn bad_gateway_from_error(_error: &str) -> (r: u16)
    ensures
        r == 502,
{
    502
}

} // verus!
