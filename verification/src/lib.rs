//! A verified host/guest bridge for HTTP-shaped exchanges over byte channels.
//!
//! A host process hands the guest one request per exchange: structured
//! metadata on one channel, raw body bytes on another.  The guest decodes the
//! metadata, dispatches to one of a closed set of handlers, and writes the
//! response metadata followed by the response body back out.  This crate
//! holds the verified core of that bridge: the wire data model, the binary
//! metadata codec, the dispatcher and handler set, the chunk-wise streaming
//! body transform, and the exchange sequencing that guarantees metadata is
//! written before any body byte.

pub mod bridge;
pub mod codec;
pub mod dispatch;
pub mod transform;
pub mod wire;
