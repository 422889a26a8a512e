//! A verified client library for a remote text and image generation service.
//!
//! The library holds the logic of the client: building the JSON request
//! bodies for the two operations, decoding the JSON responses, mapping
//! HTTP status codes to errors, and formatting the output. The network
//! round-trip itself is performed by the surrounding binary, which hands
//! this library plain values (status codes and response bodies) and takes
//! plain values back.

use vstd::prelude::*;

pub mod client;
pub mod commands;
pub mod json;
pub mod services;

verus! {

/// The fixed endpoint for text completion requests.
pub fn completions_url() -> (r: String)
    ensures
        r@ == "https://api.openai.com/v1/completions"@,
{
    String::from_str("https://api.openai.com/v1/completions")
}

/// The fixed endpoint for image generation requests.
pub fn images_url() -> (r: String)
    ensures
        r@ == "https://api.openai.com/v1/images/generations"@,
{
    String::from_str("https://api.openai.com/v1/images/generations")
}

} // verus!

