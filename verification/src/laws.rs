//! Laws of the authorization engine, stated over the store's mathematical
//! model and proved once for every store, account, and resource.

use vstd::prelude::*;

use crate::store::granted_transition;
use crate::store::registered_transition;
use crate::store::revoked_transition;
use crate::store::GrantStore;
use crate::types::AcKey;
use crate::types::AccountId;

verus! {

/// Admin bypass: an admin is allowed on every resource and permission,
/// under either missing-entry policy, whatever the grant store holds.
pub proof fn lemma_admin_bypass(
    store: GrantStore,
    admin: AccountId,
    k: AcKey,
    requires_control: bool,
)
    requires
        store.spec_is_admin(admin),
    ensures
        store.spec_authorize(admin, k, requires_control),
{
}

/// Closed-policy default deny: on an unregistered key, a closed check
/// denies every account that is not an admin. Manage checks and the
/// registration gate are always closed.
pub proof fn lemma_closed_default_deny(store: GrantStore, account_id: AccountId, k: AcKey)
    requires
        !store.spec_is_admin(account_id),
        !store.spec_registered(k),
    ensures
        !store.spec_authorize(account_id, k, true),
{
}

/// Open-policy default allow: on an unregistered key, an open check allows
/// every account. The admission gate's Execute check is open.
pub proof fn lemma_open_default_allow(store: GrantStore, account_id: AccountId, k: AcKey)
    requires
        !store.spec_registered(k),
    ensures
        store.spec_authorize(account_id, k, false),
{
}

/// Grant/revoke round trip: once a key is registered and granted to an
/// account, that account is allowed under either policy; after the grant is
/// revoked, the account is denied again — provided it is not an admin, whom
/// the bypass always admits.
pub proof fn lemma_grant_revoke_round_trip(
    s0: GrantStore,
    s1: GrantStore,
    s2: GrantStore,
    s3: GrantStore,
    k: AcKey,
    account_id: AccountId,
)
    requires
        registered_transition(s0, s1, k),
        granted_transition(s1, s2, k, account_id),
        revoked_transition(s2, s3, k, account_id),
        !s3.spec_is_admin(account_id),
    ensures
        s2.spec_authorize(account_id, k, true),
        s2.spec_authorize(account_id, k, false),
        !s3.spec_authorize(account_id, k, true),
        !s3.spec_authorize(account_id, k, false),
{
    assert(s2.spec_grants(k).contains(account_id));
    assert(!s3.spec_grants(k).contains(account_id));
}

/// Idempotent revoke: revoking an account that holds no grant on the key
/// leaves every registration, every grant set, and the admin set as they
/// were.
pub proof fn lemma_idempotent_revoke(
    pre: GrantStore,
    post: GrantStore,
    k: AcKey,
    account_id: AccountId,
)
    requires
        revoked_transition(pre, post, k, account_id),
        !pre.spec_grants(k).contains(account_id),
    ensures
        forall|k2: AcKey| #[trigger] post.spec_registered(k2) == pre.spec_registered(k2),
        forall|k2: AcKey|
            pre.spec_registered(k2) ==> #[trigger] post.spec_grants(k2) == pre.spec_grants(k2),
        post.admins_set() == pre.admins_set(),
{
    assert(post.spec_grants(k) =~= pre.spec_grants(k));
}

} // verus!
