//! Value types of the authorization engine: permissions, resource keys,
//! dispatch origins, errors, and audit events.

use vstd::prelude::*;

verus! {

/// Identifier of an authenticated caller. The engine never constructs one;
/// it only compares them and stores them in grant sets.
pub type AccountId = u64;

/// The two permissions a grant can carry. `Execute` authorizes invoking the
/// guarded extrinsic; `Manage` authorizes changing who holds `Execute` or
/// `Manage` on it. Neither implies the other.
#[derive(Clone, Copy, PartialEq, Eq, Structural, Debug)]
pub enum Permission {
    Execute,
    Manage,
}

impl Default for Permission {
    fn default() -> (r: Self)
        ensures
            r == Permission::Execute,
    {
        Permission::Execute
    }
}

/// A resource/permission key: which permission on which `(pallet, extrinsic)`
/// pair a grant set is attached to.
#[derive(Clone, PartialEq, Eq, Debug)]
pub struct AccessControl {
    pub pallet: Vec<u8>,
    pub extrinsic: Vec<u8>,
    pub permission: Permission,
}

/// Mathematical value of an [`AccessControl`] key.
pub struct AcKey {
    pub pallet: Seq<u8>,
    pub extrinsic: Seq<u8>,
    pub permission: Permission,
}

impl View for AccessControl {
    type V = AcKey;

    open spec fn view(&self) -> AcKey {
        AcKey { pallet: self.pallet@, extrinsic: self.extrinsic@, permission: self.permission }
    }
}

/// The key for `permission` on the resource `(pallet, extrinsic)`.
pub open spec fn key(pallet: Seq<u8>, extrinsic: Seq<u8>, permission: Permission) -> AcKey {
    AcKey { pallet, extrinsic, permission }
}

/// The Manage key on the same resource as `k`.
pub open spec fn manage_key(k: AcKey) -> AcKey {
    AcKey { pallet: k.pallet, extrinsic: k.extrinsic, permission: Permission::Manage }
}

/// The missing-entry policy an Execute check carries: `Some(true)` demands a
/// registered control (closed); `Some(false)` and `None` admit unregistered
/// resources (open).
pub open spec fn policy_closed(requires_access_control: Option<bool>) -> bool {
    match requires_access_control {
        Some(b) => b,
        None => false,
    }
}

/// The provenance of a dispatched call: the distinguished super-authority,
/// a signed account, or neither.
#[derive(Clone, Copy, PartialEq, Eq, Structural, Debug)]
pub enum Origin {
    Root,
    Signed(AccountId),
    Unsigned,
}

/// Errors of the engine itself: a failed permission check, or a mutation
/// aimed at a resource that was never registered.
#[derive(Clone, Copy, PartialEq, Eq, Structural, Debug)]
pub enum Error {
    AccessDenied,
    AccessControlNotFound,
}

/// What a dispatched mutation can fail with: a malformed origin, or an
/// engine error.
#[derive(Clone, Copy, PartialEq, Eq, Structural, Debug)]
pub enum DispatchError {
    BadOrigin,
    Module(Error),
}

/// Result of a dispatched mutation.
pub type DispatchResult = Result<(), DispatchError>;

/// Why the admission gate rejected a call before execution.
#[derive(Clone, Copy, PartialEq, Eq, Structural, Debug)]
pub enum InvalidTransaction {
    Call,
}

/// Audit record emitted by a successful mutation, carrying the affected
/// account and, for grant changes, the resource identifiers.
#[derive(Clone, PartialEq, Eq, Debug)]
pub enum Event {
    AccessRevoked(AccountId, Vec<u8>, Vec<u8>),
    AccessGranted(AccountId, Vec<u8>, Vec<u8>),
    AdminAdded(AccountId),
    AdminRevoked(AccountId),
}

/// Mathematical value of an [`Event`].
pub enum EventValue {
    AccessRevoked(AccountId, Seq<u8>, Seq<u8>),
    AccessGranted(AccountId, Seq<u8>, Seq<u8>),
    AdminAdded(AccountId),
    AdminRevoked(AccountId),
}

impl View for Event {
    type V = EventValue;

    open spec fn view(&self) -> EventValue {
        match self {
            Event::AccessRevoked(a, p, e) => EventValue::AccessRevoked(*a, p@, e@),
            Event::AccessGranted(a, p, e) => EventValue::AccessGranted(*a, p@, e@),
            Event::AdminAdded(a) => EventValue::AdminAdded(*a),
            Event::AdminRevoked(a) => EventValue::AdminRevoked(*a),
        }
    }
}

} // verus!
