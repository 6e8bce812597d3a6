pub mod bytes;
pub mod cbor;
pub mod cli;
pub mod client;
pub mod entry;
pub mod error;
pub mod ipns;
pub mod keys;
pub mod laws;
pub mod name;
pub mod payload;
pub mod revision;
pub mod time;
pub mod varint;

pub use crate::entry::IpnsEntry;
pub use crate::name::{Name, WritableName};
pub use crate::revision::Revision;
