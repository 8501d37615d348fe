//! The admission gate: the pre-execution hook the host pipeline invokes for
//! every inbound call, before the call's handler runs. It checks Execute on
//! the call's `(pallet, extrinsic)` under the open missing-entry policy, so
//! an operation nobody registered stays unrestricted; a denied call is to be
//! rejected before any of its effects, including re-propagation.

use vstd::prelude::*;

use crate::pallet::Pallet;
use crate::types::key;
use crate::types::AccountId;
use crate::types::InvalidTransaction;
use crate::types::Permission;

verus! {

/// The admission hook. It carries no state of its own; each check reads the
/// pallet it is handed.
pub struct Authorize;

impl Authorize {
    /// A fresh admission hook.
    pub fn new() -> (r: Authorize) {
        Authorize
    }

    /// Decides whether `who` may execute `function_name` on `pallet_name`:
    /// admins always may, a registered control admits exactly its grant set,
    /// and an unregistered operation is unrestricted.
    pub fn validate(
        &self,
        pallet: &Pallet,
        who: AccountId,
        pallet_name: &Vec<u8>,
        function_name: &Vec<u8>,
    ) -> (r: Result<(), InvalidTransaction>)
        requires
            pallet.wf(),
        ensures
            r is Ok <==> pallet.store.spec_authorize(
                who,
                key(pallet_name@, function_name@, Permission::Execute),
                false,
            ),
            r is Err ==> r == Err::<(), InvalidTransaction>(InvalidTransaction::Call),
    {
        if pallet.store.is_admin(who) {
            return Ok(());
        }
        if pallet.store.authorize(who, pallet_name, function_name, Permission::Execute, false) {
            Ok(())
        } else {
            Err(InvalidTransaction::Call)
        }
    }

    /// The hook run right before dispatch: the same decision as
    /// [`Authorize::validate`].
    pub fn pre_dispatch(
        self,
        pallet: &Pallet,
        who: AccountId,
        pallet_name: &Vec<u8>,
        function_name: &Vec<u8>,
    ) -> (r: Result<(), InvalidTransaction>)
        requires
            pallet.wf(),
        ensures
            r is Ok <==> pallet.store.spec_authorize(
                who,
                key(pallet_name@, function_name@, Permission::Execute),
                false,
            ),
            r is Err ==> r == Err::<(), InvalidTransaction>(InvalidTransaction::Call),
    {
        self.validate(pallet, who, pallet_name, function_name)
    }
}

} // verus!
