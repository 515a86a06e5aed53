//! An in-memory, account-addressed storage engine: per account it keeps
//! published code modules (keyed by name) and typed data resources (keyed
//! by a structured type tag), applies batched change sets under strict
//! existence invariants, and serves read-only lookups.

pub mod payload;
pub mod keys;
pub mod tags;
pub mod kv;
pub mod changes;
pub mod account;
pub mod store;
pub mod laws;

pub use payload::Payload;
pub use keys::{Address, ModuleName, ModuleId, ADDRESS_LEN};
pub use tags::{TypeTag, TypeArgs, StructTag};
pub use changes::{ChangeOp, OpKind, ChangeKey, AccountChangeSet, ChangeSet, AccountViolation, StorageInvariantViolation};
pub use account::AccountStorage;
pub use store::{MockStorage, Metadata};
