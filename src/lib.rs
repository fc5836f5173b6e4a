//! Persistence of application state across reloads and from server to client.
//!
//! A value's encoded bytes are compressed and written as hexadecimal text so
//! that they can live in a markup attribute; an ordered store of such payloads
//! carries server-side state to the client, read back in insertion order.
pub mod codec;
pub mod compression;
pub mod framer;
pub mod store;
pub mod transport;

pub use codec::{decode_entries, encode_entries};
pub use compression::{compress, decompress};
pub use framer::{frame, unframe};
pub use store::{
    get_data, type_fingerprint, PersistantStorage, PersistantStorageContext, Phase,
    PersistentStorageContext, StoreError,
};
pub use transport::{decode_from_transport, encode_for_transport, PipelineError};
