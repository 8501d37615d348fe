//! The cross-pallet face of the engine: a trait other pallets call to gate
//! their own operations. Through this trait the check is always closed — an
//! operation without a registered control is denied.

use vstd::prelude::*;

use crate::pallet::Pallet;
use crate::types::key;
use crate::types::Permission;

verus! {

/// The only failure the trait surfaces.
#[derive(Clone, Copy, PartialEq, Eq, Structural, Debug)]
pub enum TraitError {
    AccessDenied,
}

/// Verification of execute access, for other pallets to consume. Unlike the
/// gate's own open-policy check, access through this trait is denied when no
/// control is registered for the operation.
pub trait VerifyAccess<AccountId> {
    /// Validity of the implementor's state.
    spec fn valid(&self) -> bool;

    /// Whether `account_id` may execute `function` on `pallet`.
    spec fn execute_allowed(&self, account_id: AccountId, pallet: Seq<u8>, function: Seq<u8>)
        -> bool;

    /// Verify that `account_id` can execute `function` on `pallet`; denied
    /// whenever the operation has no registered control.
    fn verify_execute_access(&self, account_id: AccountId, pallet: Vec<u8>, function: Vec<u8>)
        -> (r: Result<(), TraitError>)
        requires
            self.valid(),
        ensures
            r is Ok <==> self.execute_allowed(account_id, pallet@, function@),
            r is Err ==> r == Err::<(), TraitError>(TraitError::AccessDenied),
    ;
}

impl VerifyAccess<crate::types::AccountId> for Pallet {
    open spec fn valid(&self) -> bool {
        self.wf()
    }

    open spec fn execute_allowed(
        &self,
        account_id: crate::types::AccountId,
        pallet: Seq<u8>,
        function: Seq<u8>,
    ) -> bool {
        self.store.spec_authorize(account_id, key(pallet, function, Permission::Execute), true)
    }

    fn verify_execute_access(
        &self,
        account_id: crate::types::AccountId,
        pallet: Vec<u8>,
        function: Vec<u8>,
    ) -> (r: Result<(), TraitError>) {
        match Pallet::verify_execute_access(self, account_id, pallet, function, Some(true)) {
            Ok(()) => Ok(()),
            Err(_e) => Err(TraitError::AccessDenied),
        }
    }
}

} // verus!
