//! The authorization engine: the admission decision, taken from the grant
//! store. An admin is always allowed; otherwise a registered key admits
//! exactly its granted accounts, and an unregistered key falls back to the
//! caller's missing-entry policy.

use vstd::prelude::*;

use crate::store::contains_account;
use crate::store::GrantStore;
use crate::types::key;
use crate::types::AcKey;
use crate::types::AccountId;
use crate::types::Permission;

verus! {

impl GrantStore {
    /// The admission decision for `account_id` on `k`. With
    /// `requires_control` set, a key with no entry denies (closed policy);
    /// without it, such a key admits everyone (open policy). Admins are
    /// admitted unconditionally either way.
    pub open spec fn spec_authorize(
        &self,
        account_id: AccountId,
        k: AcKey,
        requires_control: bool,
    ) -> bool {
        ||| self.spec_is_admin(account_id)
        ||| (self.spec_registered(k) && self.spec_grants(k).contains(account_id))
        ||| (!self.spec_registered(k) && !requires_control)
    }

    /// Decides admission for `account_id` on `permission` over the resource
    /// `(pallet, extrinsic)`; `true` is Allow. `requires_control` selects the
    /// missing-entry policy: `true` denies when no entry is registered,
    /// `false` allows then.
    pub fn authorize(
        &self,
        account_id: AccountId,
        pallet: &Vec<u8>,
        extrinsic: &Vec<u8>,
        permission: Permission,
        requires_control: bool,
    ) -> (r: bool)
        requires
            self.wf(),
        ensures
            r == self.spec_authorize(
                account_id,
                key(pallet@, extrinsic@, permission),
                requires_control,
            ),
    {
        if self.is_admin(account_id) {
            return true;
        }
        match self.find_index(pallet, extrinsic, permission) {
            Some(i) => contains_account(&self.controls[i].accounts, account_id),
            None => !requires_control,
        }
    }
}

} // verus!
