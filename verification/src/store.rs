//! The grant store: which accounts hold which permission on which resource,
//! plus the admin set. Pure data with invariants; every operation states
//! exactly how it changes the store.

use vstd::prelude::*;

use crate::types::AcKey;
use crate::types::AccessControl;
use crate::types::AccountId;
use crate::types::Error;
use crate::types::Permission;

verus! {

/// One registered resource/permission key together with the accounts
/// currently granted it. An empty account list is a meaningful state,
/// distinct from the key not being registered at all.
pub struct ControlEntry {
    pub control: AccessControl,
    pub accounts: Vec<AccountId>,
}

/// The persistent state the authorization engine decides from: the admin
/// set and the registered grant entries.
pub struct GrantStore {
    pub admins: Vec<AccountId>,
    pub controls: Vec<ControlEntry>,
}

impl GrantStore {
    /// Each key is registered at most once.
    pub open spec fn keys_unique(&self) -> bool {
        forall|i: int, j: int|
            0 <= i < j < self.controls@.len() ==> self.controls@[i].control@
                != self.controls@[j].control@
    }

    /// Well-formedness: each key is registered at most once, and both the
    /// admin list and every grant list are sets (no duplicates).
    pub open spec fn wf(&self) -> bool {
        &&& self.keys_unique()
        &&& self.admins@.no_duplicates()
        &&& forall|i: int|
            0 <= i < self.controls@.len() ==> (#[trigger] self.controls@[i]).accounts@.no_duplicates()
    }

    /// The admin set.
    pub open spec fn admins_set(&self) -> Set<AccountId> {
        self.admins@.to_set()
    }

    /// Whether `account_id` is an admin.
    pub open spec fn spec_is_admin(&self, account_id: AccountId) -> bool {
        self.admins@.contains(account_id)
    }

    /// Whether an entry is registered under `k`.
    pub open spec fn spec_registered(&self, k: AcKey) -> bool {
        exists|i: int| 0 <= i < self.controls@.len() && (#[trigger] self.controls@[i]).control@ == k
    }

    /// The index of the entry registered under `k` (meaningful only when
    /// `spec_registered(k)` holds; unique by well-formedness).
    pub open spec fn index_of(&self, k: AcKey) -> int {
        choose|i: int| 0 <= i < self.controls@.len() && (#[trigger] self.controls@[i]).control@ == k
    }

    /// The set of accounts granted `k` (meaningful only when registered).
    pub open spec fn spec_grants(&self, k: AcKey) -> Set<AccountId> {
        self.controls@[self.index_of(k)].accounts@.to_set()
    }

    /// An entry registered under `k` sits exactly at index `i`.
    pub proof fn lemma_key_at(&self, k: AcKey, i: int)
        requires
            self.keys_unique(),
            0 <= i < self.controls@.len(),
            self.controls@[i].control@ == k,
        ensures
            self.spec_registered(k),
            self.index_of(k) == i,
            self.spec_grants(k) == self.controls@[i].accounts@.to_set(),
    {
        assert(self.spec_registered(k));
        let j = self.index_of(k);
        if j != i {
            assert(self.controls@[j].control@ == self.controls@[i].control@);
        }
    }
}

/// When only the entry at index `i` changed, and its key stayed `k`, the
/// registration of every key and the grants of every other key carry over.
proof fn lemma_entry_replaced(pre: GrantStore, post: GrantStore, i: int, k: AcKey)
    requires
        pre.wf(),
        0 <= i < pre.controls@.len(),
        post.controls@.len() == pre.controls@.len(),
        pre.controls@[i].control@ == k,
        post.controls@[i].control@ == k,
        forall|j: int|
            0 <= j < pre.controls@.len() && j != i ==> post.controls@[j] == pre.controls@[j],
    ensures
        post.keys_unique(),
        forall|k2: AcKey| #[trigger] post.spec_registered(k2) == pre.spec_registered(k2),
        forall|k2: AcKey|
            k2 != k && pre.spec_registered(k2) ==> #[trigger] post.spec_grants(k2)
                == pre.spec_grants(k2),
        pre.spec_registered(k),
        post.spec_registered(k),
        post.index_of(k) == i,
        post.spec_grants(k) == post.controls@[i].accounts@.to_set(),
{
    assert(forall|j: int|
        0 <= j < pre.controls@.len() ==> (#[trigger] post.controls@[j]).control@
            == pre.controls@[j].control@);
    assert(post.keys_unique());
    assert forall|k2: AcKey| #[trigger]
        post.spec_registered(k2) == pre.spec_registered(k2) by {
        if pre.spec_registered(k2) {
            let j = choose|j: int|
                0 <= j < pre.controls@.len() && (#[trigger] pre.controls@[j]).control@ == k2;
            assert(post.controls@[j].control@ == k2);
        }
        if post.spec_registered(k2) {
            let j = choose|j: int|
                0 <= j < post.controls@.len() && (#[trigger] post.controls@[j]).control@ == k2;
            assert(pre.controls@[j].control@ == k2);
        }
    }
    pre.lemma_key_at(k, i);
    post.lemma_key_at(k, i);
    assert forall|k2: AcKey| k2 != k && pre.spec_registered(k2) implies #[trigger] post.spec_grants(
        k2,
    ) == pre.spec_grants(k2) by {
        let j = choose|j: int|
            0 <= j < pre.controls@.len() && (#[trigger] pre.controls@[j]).control@ == k2;
        pre.lemma_key_at(k2, j);
        assert(post.controls@[j].control@ == k2);
        post.lemma_key_at(k2, j);
    }
}

/// The store changed only by registering `k` with an empty grant set:
/// `k` is registered and empty afterwards, every other key keeps its
/// registration and grants, and the admin set is untouched.
pub open spec fn registered_transition(pre: GrantStore, post: GrantStore, k: AcKey) -> bool {
    &&& post.spec_registered(k)
    &&& post.spec_grants(k) == Set::<AccountId>::empty()
    &&& forall|k2: AcKey| k2 != k ==> #[trigger] post.spec_registered(k2) == pre.spec_registered(k2)
    &&& forall|k2: AcKey|
        k2 != k && pre.spec_registered(k2) ==> #[trigger] post.spec_grants(k2) == pre.spec_grants(
            k2,
        )
    &&& post.admins@ == pre.admins@
}

/// The store changed only by granting `k` to `account_id`.
pub open spec fn granted_transition(
    pre: GrantStore,
    post: GrantStore,
    k: AcKey,
    account_id: AccountId,
) -> bool {
    &&& pre.spec_registered(k)
    &&& post.spec_registered(k)
    &&& post.spec_grants(k) == pre.spec_grants(k).insert(account_id)
    &&& forall|k2: AcKey| k2 != k ==> #[trigger] post.spec_registered(k2) == pre.spec_registered(k2)
    &&& forall|k2: AcKey|
        k2 != k && pre.spec_registered(k2) ==> #[trigger] post.spec_grants(k2) == pre.spec_grants(
            k2,
        )
    &&& post.admins@ == pre.admins@
}

/// The store changed only by revoking `k` from `account_id`.
pub open spec fn revoked_transition(
    pre: GrantStore,
    post: GrantStore,
    k: AcKey,
    account_id: AccountId,
) -> bool {
    &&& pre.spec_registered(k)
    &&& post.spec_registered(k)
    &&& post.spec_grants(k) == pre.spec_grants(k).remove(account_id)
    &&& forall|k2: AcKey| k2 != k ==> #[trigger] post.spec_registered(k2) == pre.spec_registered(k2)
    &&& forall|k2: AcKey|
        k2 != k && pre.spec_registered(k2) ==> #[trigger] post.spec_grants(k2) == pre.spec_grants(
            k2,
        )
    &&& post.admins@ == pre.admins@
}

/// Pushing an element onto a duplicate-free grant list adds it to the set
/// and keeps the list duplicate-free when it was absent.
pub(crate) proof fn lemma_push_to_set(s: Seq<AccountId>, a: AccountId)
    ensures
        s.push(a).to_set() == s.to_set().insert(a),
        s.no_duplicates() && !s.contains(a) ==> s.push(a).no_duplicates(),
{
    assert(s.push(a).to_set() =~= s.to_set().insert(a)) by {
        assert forall|x: AccountId| s.push(a).contains(x) implies s.contains(x) || x == a by {
            let j = choose|j: int| 0 <= j < s.push(a).len() && s.push(a)[j] == x;
            if j < s.len() {
                assert(s[j] == x);
            }
        }
        assert forall|x: AccountId| s.contains(x) implies s.push(a).contains(x) by {
            let j = choose|j: int| 0 <= j < s.len() && s[j] == x;
            assert(s.push(a)[j] == x);
        }
        assert(s.push(a)[s.len() as int] == a);
    }
    if s.no_duplicates() && !s.contains(a) {
        assert forall|p: int, q: int|
            0 <= p < s.push(a).len() && 0 <= q < s.push(a).len() && p != q implies s.push(a)[p]
            != s.push(a)[q] by {
            if p < s.len() && q < s.len() {
            } else if p < s.len() {
                assert(s[p] == s.push(a)[p]);
            } else {
                assert(s[q] == s.push(a)[q]);
            }
        }
    }
}

/// Removing position `i` from a duplicate-free list takes exactly its
/// element out of the set and keeps the list duplicate-free.
proof fn lemma_remove_at_to_set(s: Seq<AccountId>, i: int)
    requires
        s.no_duplicates(),
        0 <= i < s.len(),
    ensures
        s.remove(i).to_set() == s.to_set().remove(s[i]),
        s.remove(i).no_duplicates(),
{
    let t = s.remove(i);
    assert forall|p: int, q: int|
        0 <= p < t.len() && 0 <= q < t.len() && p != q implies t[p] != t[q] by {
        let p0: int = if p < i { p } else { p + 1 };
        let q0: int = if q < i { q } else { q + 1 };
        assert(t[p] == s[p0]);
        assert(t[q] == s[q0]);
    }
    assert(t.to_set() =~= s.to_set().remove(s[i])) by {
        assert forall|x: AccountId| t.contains(x) implies s.contains(x) && x != s[i] by {
            let j = choose|j: int| 0 <= j < t.len() && t[j] == x;
            let j0: int = if j < i { j } else { j + 1 };
            assert(t[j] == s[j0]);
        }
        assert forall|x: AccountId| s.contains(x) && x != s[i] implies t.contains(x) by {
            let j = choose|j: int| 0 <= j < s.len() && s[j] == x;
            if j < i {
                assert(t[j] == x);
            } else {
                assert(t[j - 1] == x);
            }
        }
    }
}

/// A set does not change when a member is inserted again, nor when a
/// non-member is removed.
proof fn lemma_to_set_stable(s: Seq<AccountId>, a: AccountId)
    ensures
        s.contains(a) ==> s.to_set().insert(a) == s.to_set(),
        !s.contains(a) ==> s.to_set().remove(a) == s.to_set(),
{
    if s.contains(a) {
        assert(s.to_set().insert(a) =~= s.to_set());
    } else {
        assert(s.to_set().remove(a) =~= s.to_set());
    }
}

/// Membership in a pushed list: the old members and the new element.
pub(crate) proof fn lemma_push_contains(s: Seq<AccountId>, a: AccountId, x: AccountId)
    ensures
        s.push(a).contains(x) <==> (s.contains(x) || x == a),
{
    if s.contains(x) {
        let j = choose|j: int| 0 <= j < s.len() && s[j] == x;
        assert(s.push(a)[j] == x);
    }
    if s.push(a).contains(x) {
        let j = choose|j: int| 0 <= j < s.push(a).len() && s.push(a)[j] == x;
        if j < s.len() {
            assert(s[j] == x);
        }
    }
    assert(s.push(a)[s.len() as int] == a);
}

/// Membership after removing position `i` from a duplicate-free list: the
/// old members except the removed element.
pub(crate) proof fn lemma_remove_at_contains(s: Seq<AccountId>, i: int, x: AccountId)
    requires
        s.no_duplicates(),
        0 <= i < s.len(),
    ensures
        s.remove(i).contains(x) <==> (s.contains(x) && x != s[i]),
{
    let t = s.remove(i);
    if t.contains(x) {
        let j = choose|j: int| 0 <= j < t.len() && t[j] == x;
        let j0: int = if j < i {
            j
        } else {
            j + 1
        };
        assert(s[j0] == x);
    }
    if s.contains(x) && x != s[i] {
        let j = choose|j: int| 0 <= j < s.len() && s[j] == x;
        if j < i {
            assert(t[j] == x);
        } else {
            assert(t[j - 1] == x);
        }
    }
}

/// Whether two byte identifiers are equal.
pub fn bytes_equal(a: &Vec<u8>, b: &Vec<u8>) -> (r: bool)
    ensures
        r == (a@ == b@),
{
    if a.len() != b.len() {
        return false;
    }
    let mut i: usize = 0;
    while i < a.len()
        invariant
            i <= a.len(),
            a@.len() == b@.len(),
            forall|j: int| 0 <= j < i ==> a@[j] == b@[j],
        decreases a.len() - i,
    {
        if a[i] != b[i] {
            return false;
        }
        i += 1;
    }
    proof {
        assert(a@ =~= b@);
    }
    true
}

/// Whether `account_id` occurs in `accounts`.
pub fn contains_account(accounts: &Vec<AccountId>, account_id: AccountId) -> (r: bool)
    ensures
        r == accounts@.contains(account_id),
{
    let mut i: usize = 0;
    while i < accounts.len()
        invariant
            i <= accounts.len(),
            forall|j: int| 0 <= j < i ==> accounts@[j] != account_id,
        decreases accounts.len() - i,
    {
        if accounts[i] == account_id {
            return true;
        }
        i += 1;
    }
    false
}

/// A copy of a byte identifier.
pub(crate) fn copy_bytes(bytes: &Vec<u8>) -> (r: Vec<u8>)
    ensures
        r@ == bytes@,
{
    let mut r: Vec<u8> = Vec::new();
    let mut i: usize = 0;
    while i < bytes.len()
        invariant
            i <= bytes.len(),
            r@ =~= bytes@.subrange(0, i as int),
        decreases bytes.len() - i,
    {
        r.push(bytes[i]);
        i += 1;
    }
    proof {
        assert(r@ =~= bytes@);
    }
    r
}

/// A copy of a grant list.
fn copy_accounts(accounts: &Vec<AccountId>) -> (r: Vec<AccountId>)
    ensures
        r@ == accounts@,
{
    let mut r: Vec<AccountId> = Vec::new();
    let mut i: usize = 0;
    while i < accounts.len()
        invariant
            i <= accounts.len(),
            r@ =~= accounts@.subrange(0, i as int),
        decreases accounts.len() - i,
    {
        r.push(accounts[i]);
        i += 1;
    }
    proof {
        assert(r@ =~= accounts@);
    }
    r
}

impl GrantStore {
    /// An empty store: no admins, nothing registered.
    pub fn new() -> (r: GrantStore)
        ensures
            r.wf(),
            r.admins@ =~= Seq::<AccountId>::empty(),
            r.controls@ =~= Seq::<ControlEntry>::empty(),
    {
        GrantStore { admins: Vec::new(), controls: Vec::new() }
    }

    /// The index of the entry registered under the given key, if any.
    pub(crate) fn find_index(&self, pallet: &Vec<u8>, extrinsic: &Vec<u8>, permission: Permission) -> (r:
        Option<usize>)
        requires
            self.wf(),
        ensures
            match r {
                Some(i) => {
                    &&& i < self.controls@.len()
                    &&& self.controls@[i as int].control@ == crate::types::key(
                        pallet@,
                        extrinsic@,
                        permission,
                    )
                    &&& self.index_of(crate::types::key(pallet@, extrinsic@, permission)) == i
                    &&& self.spec_registered(crate::types::key(pallet@, extrinsic@, permission))
                },
                None => !self.spec_registered(crate::types::key(pallet@, extrinsic@, permission)),
            },
    {
        let ghost k = crate::types::key(pallet@, extrinsic@, permission);
        let mut i: usize = 0;
        while i < self.controls.len()
            invariant
                self.wf(),
                i <= self.controls@.len(),
                k == crate::types::key(pallet@, extrinsic@, permission),
                forall|j: int| 0 <= j < i ==> (#[trigger] self.controls@[j]).control@ != k,
            decreases self.controls@.len() - i,
        {
            let entry = &self.controls[i];
            if bytes_equal(&entry.control.pallet, pallet) && bytes_equal(
                &entry.control.extrinsic,
                extrinsic,
            ) && entry.control.permission == permission {
                proof {
                    self.lemma_key_at(k, i as int);
                }
                return Some(i);
            }
            i += 1;
        }
        None
    }

    /// Whether `account_id` is an admin.
    pub fn is_admin(&self, account_id: AccountId) -> (r: bool)
        ensures
            r == self.spec_is_admin(account_id),
    {
        contains_account(&self.admins, account_id)
    }

    /// Puts `account_id` into the admin set; idempotent.
    pub fn add_admin(&mut self, account_id: AccountId)
        requires
            old(self).wf(),
        ensures
            final(self).wf(),
            final(self).admins_set() == old(self).admins_set().insert(account_id),
            forall|x: AccountId|
                #[trigger] final(self).spec_is_admin(x) <==> (old(self).spec_is_admin(x) || x
                    == account_id),
            final(self).controls@ == old(self).controls@,
    {
        if !self.is_admin(account_id) {
            self.admins.push(account_id);
            proof {
                lemma_push_to_set(old(self).admins@, account_id);
                assert forall|x: AccountId| #[trigger]
                    self.spec_is_admin(x) <==> (old(self).spec_is_admin(x) || x
                    == account_id) by {
                    lemma_push_contains(old(self).admins@, account_id, x);
                }
            }
        } else {
            proof {
                assert(self.admins@.to_set() =~= old(self).admins@.to_set().insert(account_id));
            }
        }
    }

    /// Takes `account_id` out of the admin set; idempotent.
    pub fn remove_admin(&mut self, account_id: AccountId)
        requires
            old(self).wf(),
        ensures
            final(self).wf(),
            final(self).admins_set() == old(self).admins_set().remove(account_id),
            forall|x: AccountId|
                #[trigger] final(self).spec_is_admin(x) <==> (old(self).spec_is_admin(x) && x
                    != account_id),
            final(self).controls@ == old(self).controls@,
    {
        let mut i: usize = 0;
        while i < self.admins.len()
            invariant
                self == old(self),
                self.wf(),
                i <= self.admins@.len(),
                forall|j: int| 0 <= j < i ==> self.admins@[j] != account_id,
            decreases self.admins@.len() - i,
        {
            if self.admins[i] == account_id {
                self.admins.remove(i);
                proof {
                    assert(self.admins@ == old(self).admins@.remove(i as int));
                    lemma_remove_at_to_set(old(self).admins@, i as int);
                    assert forall|x: AccountId| #[trigger]
                        self.spec_is_admin(x) <==> (old(self).spec_is_admin(x) && x
                        != account_id) by {
                        lemma_remove_at_contains(old(self).admins@, i as int, x);
                    }
                }
                return ;
            }
            i += 1;
        }
        proof {
            assert(!self.admins@.contains(account_id));
            assert(self.admins@.to_set() =~= old(self).admins@.to_set().remove(account_id));
        }
    }

    /// Registers `access_control` with an empty grant set. Re-registering an
    /// already registered key overwrites its grant set with the empty set.
    pub fn register(&mut self, access_control: AccessControl)
        requires
            old(self).wf(),
        ensures
            final(self).wf(),
            registered_transition(*old(self), *final(self), access_control@),
    {
        let ghost k = access_control@;
        match self.find_index(
            &access_control.pallet,
            &access_control.extrinsic,
            access_control.permission,
        ) {
            Some(i) => {
                let ghost i0 = i as int;
                let mut entry = self.controls.remove(i);
                entry.accounts = Vec::new();
                self.controls.insert(i, entry);
                proof {
                    assert forall|j: int|
                        0 <= j < old(self).controls@.len() && j != i0 implies self.controls@[j]
                        == old(self).controls@[j] by {
                        if j < i0 {
                        } else {
                            assert(self.controls@[j] == old(self).controls@.remove(i0)[j - 1]);
                        }
                    }
                    lemma_entry_replaced(*old(self), *self, i0, k);
                    assert(self.spec_grants(k) =~= Set::<AccountId>::empty());
                }
            },
            None => {
                let ghost n = self.controls@.len() as int;
                self.controls.push(ControlEntry { control: access_control, accounts: Vec::new() });
                proof {
                    assert(forall|j: int|
                        0 <= j < n ==> #[trigger] self.controls@[j] == old(self).controls@[j]);
                    assert(self.controls@[n].control@ == k);
                    assert(self.keys_unique()) by {
                        assert forall|p: int, q: int|
                            0 <= p < q < self.controls@.len() implies self.controls@[p].control@
                            != self.controls@[q].control@ by {
                            if q < n {
                                assert(old(self).controls@[p].control@ != old(
                                    self,
                                ).controls@[q].control@);
                            } else {
                                assert(self.controls@[p] == old(self).controls@[p]);
                                if self.controls@[p].control@ == k {
                                    assert(old(self).spec_registered(k));
                                }
                            }
                        }
                    }
                    self.lemma_key_at(k, n);
                    assert(self.spec_grants(k) =~= Set::<AccountId>::empty());
                    assert forall|k2: AcKey|
                        k2 != k implies #[trigger] self.spec_registered(k2) == old(
                        self,
                    ).spec_registered(k2) by {
                        if old(self).spec_registered(k2) {
                            let j = choose|j: int|
                                0 <= j < old(self).controls@.len() && (#[trigger] old(
                                    self,
                                ).controls@[j]).control@ == k2;
                            assert(self.controls@[j].control@ == k2);
                        }
                        if self.spec_registered(k2) {
                            let j = choose|j: int|
                                0 <= j < self.controls@.len() && (#[trigger] self.controls@[j]).control@
                                    == k2;
                            assert(j != n);
                            assert(old(self).controls@[j].control@ == k2);
                        }
                    }
                    assert forall|k2: AcKey|
                        k2 != k && old(self).spec_registered(k2) implies #[trigger] self.spec_grants(
                        k2,
                    ) == old(self).spec_grants(k2) by {
                        let j = choose|j: int|
                            0 <= j < old(self).controls@.len() && (#[trigger] old(
                                self,
                            ).controls@[j]).control@ == k2;
                        old(self).lemma_key_at(k2, j);
                        assert(self.controls@[j].control@ == k2);
                        self.lemma_key_at(k2, j);
                    }
                }
            },
        }
    }

    /// Adds `account_id` to the grant set registered under `access_control`;
    /// idempotent when already granted. Fails when the key is unregistered.
    pub fn grant(&mut self, access_control: &AccessControl, account_id: AccountId) -> (r: Result<
        (),
        Error,
    >)
        requires
            old(self).wf(),
        ensures
            final(self).wf(),
            r is Ok <==> old(self).spec_registered(access_control@),
            r is Ok ==> granted_transition(*old(self), *final(self), access_control@, account_id),
            r is Err ==> *final(self) == *old(self) && r == Err::<(), Error>(
                Error::AccessControlNotFound,
            ),
    {
        let ghost k = access_control@;
        match self.find_index(
            &access_control.pallet,
            &access_control.extrinsic,
            access_control.permission,
        ) {
            Some(i) => {
                let ghost i0 = i as int;
                let ghost pre_accounts = self.controls@[i0].accounts@;
                let mut entry = self.controls.remove(i);
                if !contains_account(&entry.accounts, account_id) {
                    entry.accounts.push(account_id);
                    proof {
                        lemma_push_to_set(pre_accounts, account_id);
                    }
                } else {
                    proof {
                        lemma_to_set_stable(pre_accounts, account_id);
                    }
                }
                self.controls.insert(i, entry);
                proof {
                    assert forall|j: int|
                        0 <= j < old(self).controls@.len() && j != i0 implies self.controls@[j]
                        == old(self).controls@[j] by {
                        if j < i0 {
                        } else {
                            assert(self.controls@[j] == old(self).controls@.remove(i0)[j - 1]);
                        }
                    }
                    lemma_entry_replaced(*old(self), *self, i0, k);
                    old(self).lemma_key_at(k, i0);
                    assert(self.spec_grants(k) == old(self).spec_grants(k).insert(account_id));
                }
                Ok(())
            },
            None => Err(Error::AccessControlNotFound),
        }
    }

    /// Removes `account_id` from the grant set registered under
    /// `access_control`; a no-op when not granted. Fails when the key is
    /// unregistered.
    pub fn revoke(&mut self, access_control: &AccessControl, account_id: AccountId) -> (r: Result<
        (),
        Error,
    >)
        requires
            old(self).wf(),
        ensures
            final(self).wf(),
            r is Ok <==> old(self).spec_registered(access_control@),
            r is Ok ==> revoked_transition(*old(self), *final(self), access_control@, account_id),
            r is Err ==> *final(self) == *old(self) && r == Err::<(), Error>(
                Error::AccessControlNotFound,
            ),
    {
        let ghost k = access_control@;
        match self.find_index(
            &access_control.pallet,
            &access_control.extrinsic,
            access_control.permission,
        ) {
            Some(i) => {
                let ghost i0 = i as int;
                let ghost pre_accounts = self.controls@[i0].accounts@;
                let mut entry = self.controls.remove(i);
                match position_of_account(&entry.accounts, account_id) {
                    Some(p) => {
                        entry.accounts.remove(p);
                        proof {
                            lemma_remove_at_to_set(pre_accounts, p as int);
                        }
                    },
                    None => {
                        proof {
                            lemma_to_set_stable(pre_accounts, account_id);
                        }
                    },
                }
                self.controls.insert(i, entry);
                proof {
                    assert forall|j: int|
                        0 <= j < old(self).controls@.len() && j != i0 implies self.controls@[j]
                        == old(self).controls@[j] by {
                        if j < i0 {
                        } else {
                            assert(self.controls@[j] == old(self).controls@.remove(i0)[j - 1]);
                        }
                    }
                    lemma_entry_replaced(*old(self), *self, i0, k);
                    old(self).lemma_key_at(k, i0);
                    assert(self.spec_grants(k) == old(self).spec_grants(k).remove(account_id));
                }
                Ok(())
            },
            None => Err(Error::AccessControlNotFound),
        }
    }

    /// The grant set registered under `access_control`, if any; an absent
    /// key and a registered-but-empty grant set are distinguished.
    pub fn query(&self, access_control: &AccessControl) -> (r: Option<Vec<AccountId>>)
        requires
            self.wf(),
        ensures
            r is Some <==> self.spec_registered(access_control@),
            r matches Some(v) ==> v@ == self.controls@[self.index_of(access_control@)].accounts@,
    {
        match self.find_index(
            &access_control.pallet,
            &access_control.extrinsic,
            access_control.permission,
        ) {
            Some(i) => Some(copy_accounts(&self.controls[i].accounts)),
            None => None,
        }
    }
}

/// The position of `account_id` in `accounts`, if present.
fn position_of_account(accounts: &Vec<AccountId>, account_id: AccountId) -> (r: Option<usize>)
    ensures
        match r {
            Some(p) => p < accounts@.len() && accounts@[p as int] == account_id,
            None => !accounts@.contains(account_id),
        },
{
    let mut i: usize = 0;
    while i < accounts.len()
        invariant
            i <= accounts.len(),
            forall|j: int| 0 <= j < i ==> accounts@[j] != account_id,
        decreases accounts.len() - i,
    {
        if accounts[i] == account_id {
            return Some(i);
        }
        i += 1;
    }
    None
}

} // verus!
