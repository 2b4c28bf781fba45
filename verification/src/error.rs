//! The library's errors.

use vstd::prelude::*;

verus! {

/// What can go wrong in the library.
///
/// Errors that come from I/O, HTTP or deserialisation are reported by the
/// program around the library, which carries their text in `Custom`.
#[derive(Debug)]
pub enum Error {
    /// The provided raw Id does not match any known Id-pattern.
    BadIdFormat,
    /// The video contains no streams.
    NoStreams,
    /// YouTube returned an unexpected response.
    UnexpectedResponse(String),
    /// The `url` crate could not parse an address.
    UrlParseError(url::ParseError),
    /// The itag returned by YouTube is not in the known collection of itags.
    UnknownItag(u64),
    /// A free-form error.
    Custom(String),
    /// A potentially dangerous error occurred.
    Fatal(String),
    /// Used for internal communication only; never meant to reach the public API.
    Internal(String),
    /// The channel that reports download progress was closed.
    ChannelClosed,
}

} // verus!
