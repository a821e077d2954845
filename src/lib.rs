pub mod block;
pub mod codec;
pub mod meta;
pub mod position;
pub mod store;
pub mod world;

pub use block::{Block, DecodeError, NameEntry, Node};
pub use codec::{CodecError, Serialize};
pub use meta::{MetaError, WorldMeta};
pub use position::{BlockPos3, NodePos3};
pub use store::{Backend, SqliteBackend, StoreError};
pub use world::{BackendKind, World, WorldError};
