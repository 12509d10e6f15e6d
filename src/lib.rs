//! Endpoint schemas for a request/response HTTP API: field placements, validation of a
//! schema, path templates, and the conversion of typed values to and from a wire message.

pub mod api;
pub mod codec;
pub mod incoming;
pub mod json;
pub mod path;
pub mod reading;
pub mod schema;
pub mod round_trip;
pub mod template;
pub mod wire;

use vstd::prelude::*;

verus! {

/// A type that can be sent to another party; `Incoming` is the form it takes when received.
pub trait Outgoing {
    /// The 'Incoming' variant of `Self`.
    type Incoming;
}

/// An API endpoint: the request type, the response type connected to it, and its metadata.
pub trait Endpoint: Outgoing {
    /// Data returned in a successful response from the endpoint.
    type Response: Outgoing;

    /// Metadata about the endpoint.
    fn metadata() -> api::Metadata;
}

} // verus!
