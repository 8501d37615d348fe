//! The mutation API around the grant store: registering controls, granting
//! and revoking access, and managing the admin set, each gated by the
//! authorization engine and recorded in the event log.

use vstd::prelude::*;

use crate::names;
use crate::store::copy_bytes;
use crate::store::granted_transition;
use crate::store::registered_transition;
use crate::store::revoked_transition;
use crate::store::GrantStore;
use crate::types::key;
use crate::types::manage_key;
use crate::types::policy_closed;
use crate::types::AccessControl;
use crate::types::AccountId;
use crate::types::DispatchError;
use crate::types::DispatchResult;
use crate::types::Error;
use crate::types::Event;
use crate::types::EventValue;
use crate::types::Origin;
use crate::types::Permission;

verus! {

/// The authorization pallet: the grant store it decides from, and the audit
/// events its mutations have emitted, oldest first.
pub struct Pallet {
    pub store: GrantStore,
    pub events: Vec<Event>,
}

impl Pallet {
    /// Well-formedness of the underlying store.
    pub open spec fn wf(&self) -> bool {
        self.store.wf()
    }

    /// The audit log as mathematical values, oldest first.
    pub open spec fn events_view(&self) -> Seq<EventValue> {
        self.events@.map_values(|e: Event| e@)
    }

    /// Verifies that `account_id` may execute `extrinsic` on `pallet`.
    /// `requires_access_control` picks the missing-entry policy: `Some(true)`
    /// denies on an unregistered resource, `Some(false)` or `None` allows.
    pub fn verify_execute_access(
        &self,
        account_id: AccountId,
        pallet: Vec<u8>,
        extrinsic: Vec<u8>,
        requires_access_control: Option<bool>,
    ) -> (r: Result<(), Error>)
        requires
            self.wf(),
        ensures
            r == (if self.store.spec_authorize(
                account_id,
                key(pallet@, extrinsic@, Permission::Execute),
                policy_closed(requires_access_control),
            ) {
                Ok::<(), Error>(())
            } else {
                Err::<(), Error>(Error::AccessDenied)
            }),
    {
        let access_control = AccessControl {
            pallet,
            extrinsic,
            permission: Permission::Execute,
        };
        self.verify_access(account_id, &access_control, requires_access_control)
    }

    /// Verifies that `account_id` may manage who holds access to
    /// `extrinsic` on `pallet`. Manage checks are always closed: an
    /// unregistered Manage control admits no one but admins.
    pub fn verify_manage_access(&self, account_id: AccountId, pallet: Vec<u8>, extrinsic: Vec<u8>)
        -> (r: Result<(), Error>)
        requires
            self.wf(),
        ensures
            r == (if self.store.spec_authorize(
                account_id,
                key(pallet@, extrinsic@, Permission::Manage),
                true,
            ) {
                Ok::<(), Error>(())
            } else {
                Err::<(), Error>(Error::AccessDenied)
            }),
    {
        let access_control = AccessControl {
            pallet,
            extrinsic,
            permission: Permission::Manage,
        };
        self.verify_access(account_id, &access_control, Some(true))
    }

    /// The engine's decision as a result: `Ok` on Allow, `AccessDenied` on
    /// Deny.
    fn verify_access(
        &self,
        account_id: AccountId,
        access_control: &AccessControl,
        requires_access_control: Option<bool>,
    ) -> (r: Result<(), Error>)
        requires
            self.wf(),
        ensures
            r == (if self.store.spec_authorize(
                account_id,
                access_control@,
                policy_closed(requires_access_control),
            ) {
                Ok::<(), Error>(())
            } else {
                Err::<(), Error>(Error::AccessDenied)
            }),
    {
        let requires_control: bool = match requires_access_control {
            Some(b) => b,
            None => false,
        };
        if self.store.authorize(
            account_id,
            &access_control.pallet,
            &access_control.extrinsic,
            access_control.permission,
            requires_control,
        ) {
            Ok(())
        } else {
            Err(Error::AccessDenied)
        }
    }

    /// Registers a control for `pallet_extrinsic` on `pallet_name` with an
    /// empty grant set. Registration is itself gated, closed, on the
    /// engine's own resource; the super-authority bypasses that check.
    /// Re-registering an already registered key clears its grants.
    pub fn create_access_control(
        &mut self,
        origin: Origin,
        pallet_name: Vec<u8>,
        pallet_extrinsic: Vec<u8>,
        permission: Permission,
    ) -> (r: DispatchResult)
        requires
            old(self).wf(),
        ensures
            final(self).wf(),
            r is Ok <==> (origin is Root || (origin matches Origin::Signed(who) && old(
                self,
            ).store.spec_authorize(who, names::self_resource(), true))),
            (r == Err::<(), DispatchError>(DispatchError::BadOrigin)) <==> origin is Unsigned,
            (r == Err::<(), DispatchError>(DispatchError::Module(Error::AccessDenied))) <==> (origin
                matches Origin::Signed(who) && !old(self).store.spec_authorize(
                who,
                names::self_resource(),
                true,
            )),
            r is Ok ==> registered_transition(
                old(self).store,
                final(self).store,
                key(pallet_name@, pallet_extrinsic@, permission),
            ) && final(self).events@ == old(self).events@,
            r is Err ==> *final(self) == *old(self),
    {
        match origin {
            Origin::Unsigned => {
                return Err(DispatchError::BadOrigin);
            },
            Origin::Signed(who) => {
                let own_pallet = names::pallet_name();
                let own_extrinsic = names::create_access_control_name();
                if !self.store.authorize(who, &own_pallet, &own_extrinsic, Permission::Execute, true)
                {
                    return Err(DispatchError::Module(Error::AccessDenied));
                }
            },
            Origin::Root => {},
        }
        self.store.register(
            AccessControl { pallet: pallet_name, extrinsic: pallet_extrinsic, permission },
        );
        Ok(())
    }

    /// Grants `account_id` the `access_control` key, provided the caller is
    /// the super-authority, an admin, or holds Manage on that resource, and
    /// the key is registered. Emits `AccessGranted` on success.
    pub fn assign_access_control(
        &mut self,
        origin: Origin,
        account_id: AccountId,
        access_control: AccessControl,
    ) -> (r: DispatchResult)
        requires
            old(self).wf(),
        ensures
            final(self).wf(),
            r is Ok <==> ((origin is Root || (origin matches Origin::Signed(who) && old(
                self,
            ).store.spec_authorize(who, manage_key(access_control@), true))) && old(
                self,
            ).store.spec_registered(access_control@)),
            (r == Err::<(), DispatchError>(DispatchError::BadOrigin)) <==> origin is Unsigned,
            (r == Err::<(), DispatchError>(DispatchError::Module(Error::AccessDenied))) <==> (origin
                matches Origin::Signed(who) && !old(self).store.spec_authorize(
                who,
                manage_key(access_control@),
                true,
            )),
            (r == Err::<(), DispatchError>(DispatchError::Module(Error::AccessControlNotFound)))
                <==> ((origin is Root || (origin matches Origin::Signed(who) && old(
                self,
            ).store.spec_authorize(who, manage_key(access_control@), true))) && !old(
                self,
            ).store.spec_registered(access_control@)),
            r is Ok ==> granted_transition(
                old(self).store,
                final(self).store,
                access_control@,
                account_id,
            ) && final(self).events_view() == old(self).events_view().push(
                EventValue::AccessGranted(account_id, access_control@.pallet, access_control@.extrinsic),
            ),
            r is Err ==> *final(self) == *old(self),
    {
        match origin {
            Origin::Unsigned => {
                return Err(DispatchError::BadOrigin);
            },
            Origin::Signed(who) => {
                if !self.store.authorize(
                    who,
                    &access_control.pallet,
                    &access_control.extrinsic,
                    Permission::Manage,
                    true,
                ) {
                    return Err(DispatchError::Module(Error::AccessDenied));
                }
            },
            Origin::Root => {},
        }
        match self.store.grant(&access_control, account_id) {
            Ok(()) => {
                let AccessControl { pallet, extrinsic, permission: _ } = access_control;
                let ghost pre_events = self.events_view();
                self.events.push(Event::AccessGranted(account_id, pallet, extrinsic));
                proof {
                    assert(self.events_view() =~= pre_events.push(
                        EventValue::AccessGranted(
                            account_id,
                            access_control@.pallet,
                            access_control@.extrinsic,
                        ),
                    ));
                }
                Ok(())
            },
            Err(e) => Err(DispatchError::Module(e)),
        }
    }

    /// Revokes the `access_control` key from `account_id`, under the same
    /// gate as granting; revoking an account that holds no grant succeeds
    /// and changes no grant. Emits `AccessRevoked` on success.
    pub fn revoke_access(
        &mut self,
        origin: Origin,
        account_id: AccountId,
        access_control: AccessControl,
    ) -> (r: DispatchResult)
        requires
            old(self).wf(),
        ensures
            final(self).wf(),
            r is Ok <==> ((origin is Root || (origin matches Origin::Signed(who) && old(
                self,
            ).store.spec_authorize(who, manage_key(access_control@), true))) && old(
                self,
            ).store.spec_registered(access_control@)),
            (r == Err::<(), DispatchError>(DispatchError::BadOrigin)) <==> origin is Unsigned,
            (r == Err::<(), DispatchError>(DispatchError::Module(Error::AccessDenied))) <==> (origin
                matches Origin::Signed(who) && !old(self).store.spec_authorize(
                who,
                manage_key(access_control@),
                true,
            )),
            (r == Err::<(), DispatchError>(DispatchError::Module(Error::AccessControlNotFound)))
                <==> ((origin is Root || (origin matches Origin::Signed(who) && old(
                self,
            ).store.spec_authorize(who, manage_key(access_control@), true))) && !old(
                self,
            ).store.spec_registered(access_control@)),
            r is Ok ==> revoked_transition(
                old(self).store,
                final(self).store,
                access_control@,
                account_id,
            ) && final(self).events_view() == old(self).events_view().push(
                EventValue::AccessRevoked(account_id, access_control@.pallet, access_control@.extrinsic),
            ),
            r is Err ==> *final(self) == *old(self),
    {
        match origin {
            Origin::Unsigned => {
                return Err(DispatchError::BadOrigin);
            },
            Origin::Signed(who) => {
                if !self.store.authorize(
                    who,
                    &access_control.pallet,
                    &access_control.extrinsic,
                    Permission::Manage,
                    true,
                ) {
                    return Err(DispatchError::Module(Error::AccessDenied));
                }
            },
            Origin::Root => {},
        }
        match self.store.revoke(&access_control, account_id) {
            Ok(()) => {
                let AccessControl { pallet, extrinsic, permission: _ } = access_control;
                let ghost pre_events = self.events_view();
                self.events.push(Event::AccessRevoked(account_id, pallet, extrinsic));
                proof {
                    assert(self.events_view() =~= pre_events.push(
                        EventValue::AccessRevoked(
                            account_id,
                            access_control@.pallet,
                            access_control@.extrinsic,
                        ),
                    ));
                }
                Ok(())
            },
            Err(e) => Err(DispatchError::Module(e)),
        }
    }

    /// Puts `account_id` into the admin set. Only the super-authority may;
    /// admins sit outside the Manage graph and cannot mint admins. Emits
    /// `AdminAdded` on success.
    pub fn add_super_admin(&mut self, origin: Origin, account_id: AccountId) -> (r: DispatchResult)
        requires
            old(self).wf(),
        ensures
            final(self).wf(),
            r is Ok <==> origin is Root,
            r is Err ==> *final(self) == *old(self) && r == Err::<(), DispatchError>(
                DispatchError::BadOrigin,
            ),
            r is Ok ==> final(self).store.admins_set() == old(self).store.admins_set().insert(
                account_id,
            ) && (forall|x: AccountId|
                #[trigger] final(self).store.spec_is_admin(x) <==> (old(self).store.spec_is_admin(x)
                    || x == account_id)) && final(self).store.controls@ == old(self).store.controls@
                && final(self).events_view() == old(self).events_view().push(
                EventValue::AdminAdded(account_id),
            ),
    {
        match origin {
            Origin::Root => {
                self.store.add_admin(account_id);
                let ghost pre_events = self.events_view();
                self.events.push(Event::AdminAdded(account_id));
                proof {
                    assert(self.events_view() =~= pre_events.push(
                        EventValue::AdminAdded(account_id),
                    ));
                }
                Ok(())
            },
            _ => Err(DispatchError::BadOrigin),
        }
    }

    /// Takes `account_id` out of the admin set. Only the super-authority
    /// may; removing a non-admin succeeds and changes nothing. Emits
    /// `AdminRevoked` on success.
    pub fn revoke_super_admin(&mut self, origin: Origin, account_id: AccountId) -> (r:
        DispatchResult)
        requires
            old(self).wf(),
        ensures
            final(self).wf(),
            r is Ok <==> origin is Root,
            r is Err ==> *final(self) == *old(self) && r == Err::<(), DispatchError>(
                DispatchError::BadOrigin,
            ),
            r is Ok ==> final(self).store.admins_set() == old(self).store.admins_set().remove(
                account_id,
            ) && (forall|x: AccountId|
                #[trigger] final(self).store.spec_is_admin(x) <==> (old(self).store.spec_is_admin(x)
                    && x != account_id)) && final(self).store.controls@ == old(self).store.controls@
                && final(self).events_view() == old(self).events_view().push(
                EventValue::AdminRevoked(account_id),
            ),
    {
        match origin {
            Origin::Root => {
                self.store.remove_admin(account_id);
                let ghost pre_events = self.events_view();
                self.events.push(Event::AdminRevoked(account_id));
                proof {
                    assert(self.events_view() =~= pre_events.push(
                        EventValue::AdminRevoked(account_id),
                    ));
                }
                Ok(())
            },
            _ => Err(DispatchError::BadOrigin),
        }
    }

    /// Whether `account_id` is an admin, as the storage getter reports it.
    pub fn admins(&self, account_id: AccountId) -> (r: Option<()>)
        ensures
            r == (if self.store.spec_is_admin(account_id) {
                Option::Some(())
            } else {
                Option::None::<()>
            }),
    {
        if self.store.is_admin(account_id) {
            Some(())
        } else {
            None
        }
    }

    /// The grant set stored under `access_control`, if registered.
    pub fn access_controls(&self, access_control: AccessControl) -> (r: Option<Vec<AccountId>>)
        requires
            self.wf(),
        ensures
            r is Some <==> self.store.spec_registered(access_control@),
            r matches Some(v) ==> v@ == self.store.controls@[self.store.index_of(
                access_control@,
            )].accounts@,
    {
        self.store.query(&access_control)
    }
}

/// A deep copy of an access-control key.
fn clone_control(access_control: &AccessControl) -> (r: AccessControl)
    ensures
        r@ == access_control@,
{
    AccessControl {
        pallet: copy_bytes(&access_control.pallet),
        extrinsic: copy_bytes(&access_control.extrinsic),
        permission: access_control.permission,
    }
}

/// The bootstrap state: the initial admins and the initial controls with
/// their grant sets, loaded once before any call is admitted.
pub struct GenesisConfig {
    pub admins: Vec<AccountId>,
    pub access_controls: Vec<(AccessControl, Vec<AccountId>)>,
}

impl Default for GenesisConfig {
    /// An empty bootstrap: no admins, nothing registered.
    fn default() -> (r: Self)
        ensures
            r.admins@ == Seq::<AccountId>::empty(),
            r.access_controls@ == Seq::<(AccessControl, Vec<AccountId>)>::empty(),
    {
        GenesisConfig { admins: Vec::new(), access_controls: Vec::new() }
    }
}

impl GenesisConfig {
    /// No key occurs twice among the initial controls.
    pub open spec fn distinct_keys(&self) -> bool {
        forall|i: int, j: int|
            0 <= i < j < self.access_controls@.len() ==> self.access_controls@[i].0@
                != self.access_controls@[j].0@
    }

    /// Builds the bootstrap state: every listed admin is an admin, every
    /// listed key is registered, and (when no key repeats) each key's grant
    /// set is exactly its listed accounts. Nothing else is registered, and
    /// no event is emitted.
    pub fn build(&self) -> (r: Pallet)
        ensures
            r.wf(),
            r.store.admins_set() == self.admins@.to_set(),
            forall|x: AccountId| #[trigger] r.store.spec_is_admin(x) <==> self.admins@.contains(x),
            r.events@ == Seq::<Event>::empty(),
            forall|i: int|
                0 <= i < self.access_controls@.len() ==> r.store.spec_registered(
                    #[trigger] self.access_controls@[i].0@,
                ),
            self.distinct_keys() ==> forall|i: int|
                0 <= i < self.access_controls@.len() ==> r.store.spec_grants(
                    #[trigger] self.access_controls@[i].0@,
                ) == self.access_controls@[i].1@.to_set(),
            forall|k: crate::types::AcKey|
                #[trigger] r.store.spec_registered(k) ==> exists|i: int|
                    0 <= i < self.access_controls@.len() && self.access_controls@[i].0@ == k,
    {
        let mut pallet = Pallet { store: GrantStore::new(), events: Vec::new() };
        let mut a: usize = 0;
        while a < self.admins.len()
            invariant
                a <= self.admins@.len(),
                pallet.wf(),
                pallet.store.admins_set() == self.admins@.subrange(0, a as int).to_set(),
                forall|x: AccountId|
                    #[trigger] pallet.store.spec_is_admin(x) <==> self.admins@.subrange(
                        0,
                        a as int,
                    ).contains(x),
                pallet.store.controls@.len() == 0,
                pallet.events@.len() == 0,
            decreases self.admins@.len() - a,
        {
            let ghost pre = self.admins@.subrange(0, a as int);
            pallet.store.add_admin(self.admins[a]);
            proof {
                assert(pre.push(self.admins@[a as int]) =~= self.admins@.subrange(0, a as int + 1));
                crate::store::lemma_push_to_set(pre, self.admins@[a as int]);
                assert forall|x: AccountId| #[trigger]
                    pallet.store.spec_is_admin(x) <==> self.admins@.subrange(
                    0,
                    a as int + 1,
                ).contains(x) by {
                    crate::store::lemma_push_contains(pre, self.admins@[a as int], x);
                }
            }
            a += 1;
        }
        proof {
            assert(self.admins@.subrange(0, self.admins@.len() as int) =~= self.admins@);
        }
        let mut n: usize = 0;
        while n < self.access_controls.len()
            invariant
                n <= self.access_controls@.len(),
                pallet.wf(),
                pallet.store.admins_set() == self.admins@.to_set(),
                forall|x: AccountId|
                    #[trigger] pallet.store.spec_is_admin(x) <==> self.admins@.contains(x),
                pallet.events@.len() == 0,
                forall|i: int|
                    0 <= i < n ==> pallet.store.spec_registered(
                        #[trigger] self.access_controls@[i].0@,
                    ),
                self.distinct_keys() ==> forall|i: int|
                    0 <= i < n ==> pallet.store.spec_grants(#[trigger] self.access_controls@[i].0@)
                        == self.access_controls@[i].1@.to_set(),
                forall|k: crate::types::AcKey|
                    #[trigger] pallet.store.spec_registered(k) ==> exists|i: int|
                        0 <= i < n && self.access_controls@[i].0@ == k,
            decreases self.access_controls@.len() - n,
        {
            let pair = &self.access_controls[n];
            let ghost k = pair.0@;
            let ghost pre_store = pallet.store;
            let control = clone_control(&pair.0);
            pallet.store.register(control);
            proof {
                assert(registered_transition(pre_store, pallet.store, k));
                assert forall|x: AccountId| #[trigger]
                    pallet.store.spec_is_admin(x) <==> self.admins@.contains(x) by {
                    assert(pre_store.spec_is_admin(x) <==> self.admins@.contains(x));
                }
            }
            let mut p: usize = 0;
            while p < pair.1.len()
                invariant
                    p <= pair.1@.len(),
                    pallet.wf(),
                    pallet.store.admins_set() == self.admins@.to_set(),
                    forall|x: AccountId|
                        #[trigger] pallet.store.spec_is_admin(x) <==> self.admins@.contains(x),
                    pallet.events@.len() == 0,
                    pallet.store.spec_registered(k),
                    k == pair.0@,
                    pallet.store.spec_grants(k) == pair.1@.subrange(0, p as int).to_set(),
                    forall|k2: crate::types::AcKey|
                        k2 != k ==> #[trigger] pallet.store.spec_registered(k2)
                            == pre_store.spec_registered(k2),
                    forall|k2: crate::types::AcKey|
                        k2 != k && pre_store.spec_registered(k2) ==> #[trigger] pallet.store.spec_grants(
                            k2,
                        ) == pre_store.spec_grants(k2),
                decreases pair.1@.len() - p,
            {
                let ghost mid_store = pallet.store;
                let ghost granted = pair.1@.subrange(0, p as int);
                let res = pallet.store.grant(&pair.0, pair.1[p]);
                proof {
                    assert(res is Ok);
                    assert(granted_transition(mid_store, pallet.store, k, pair.1@[p as int]));
                    assert(granted.push(pair.1@[p as int]) =~= pair.1@.subrange(0, p as int + 1));
                    crate::store::lemma_push_to_set(granted, pair.1@[p as int]);
                    assert forall|x: AccountId| #[trigger]
                        pallet.store.spec_is_admin(x) <==> self.admins@.contains(x) by {
                        assert(mid_store.spec_is_admin(x) <==> self.admins@.contains(x));
                    }
                }
                p += 1;
            }
            proof {
                assert(pair.1@.subrange(0, pair.1@.len() as int) =~= pair.1@);
                assert(pallet.store.spec_grants(k) == pair.1@.to_set());
                assert forall|k2: crate::types::AcKey| #[trigger]
                    pallet.store.spec_registered(k2) implies (k2 == k || pre_store.spec_registered(
                    k2,
                )) by {}
            }
            n += 1;
        }
        proof {
            assert(pallet.events@ =~= Seq::<Event>::empty());
        }
        pallet
    }
}

} // verus!
