//! Wire contract between WebAssembly guest modules (actors) and the native
//! host runtime that hosts pluggable capability providers.
//!
//! The crate defines a canonical, self-describing binary codec, the record
//! schemas of each capability domain, the operation registry that resolves
//! flat and namespaced operation names, the chunked-transfer bookkeeping of
//! the blob store, and the dispatch traits shared by hosts and providers.

pub mod blobstore;
pub mod capabilities;
pub mod codec;
pub mod lifecycle;
pub mod error;
pub mod eventstreams;
pub mod extras;
pub mod http;
pub mod keyvalue;
pub mod logging;
pub mod messaging;
pub mod registry;
pub mod value;
