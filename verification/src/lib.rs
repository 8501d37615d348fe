//! An authorization engine that gates execution of named operations behind
//! per-operation permission grants, with a privileged admin bypass.
//!
//! A resource is a `(pallet, extrinsic)` pair of byte identifiers. Each
//! resource/permission pair may be registered with a set of granted accounts;
//! an admin set bypasses every check. The admission gate decides, before a
//! call runs, whether its signer may execute it.

pub mod engine;
pub mod gate;
pub mod laws;
pub mod names;
pub mod pallet;
pub mod store;
pub mod traits;
pub mod types;

pub use gate::Authorize;
pub use pallet::GenesisConfig;
pub use pallet::Pallet;

pub use types::AccessControl;
pub use types::AccountId;
pub use types::DispatchError;
pub use types::Error;
pub use types::Event;
pub use types::Origin;
pub use types::Permission;
