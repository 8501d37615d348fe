//! The pallet's dispatchable operations, driven as the host runtime would:
//! a bootstrap state with one admin and the registration operation under
//! control, then mutations by signed accounts, by the super-authority, and
//! by accounts that must be turned away.

use access_control::types::AccessControl;
use access_control::types::DispatchError;
use access_control::types::Error;
use access_control::types::Origin;
use access_control::types::Permission;
use access_control::GenesisConfig;
use access_control::Pallet;

fn pallet_name() -> Vec<u8> {
    access_control::names::pallet_name()
}

fn create_access_control() -> Vec<u8> {
    access_control::names::create_access_control_name()
}

fn fake_extrinsic() -> Vec<u8> {
    access_control::names::fake_extrinsic()
}

const ADMIN: u64 = 1;
const MANAGER: u64 = 2;

/// Bootstrap mirroring the reference runtime: one admin, and the
/// registration operation registered with `manager` granted Execute and
/// Manage on it.
fn new_test_ext(manager: u64) -> Pallet {
    let execute_access_control = AccessControl {
        pallet: pallet_name(),
        extrinsic: create_access_control(),
        permission: Permission::Execute,
    };
    let manage_access_control = AccessControl {
        pallet: pallet_name(),
        extrinsic: create_access_control(),
        permission: Permission::Manage,
    };
    let genesis = GenesisConfig {
        admins: vec![ADMIN],
        access_controls: vec![
            (execute_access_control, vec![manager]),
            (manage_access_control, vec![manager]),
        ],
    };
    genesis.build()
}

#[test]
fn authorized_execution_of_an_extrinsic() {
    let mut pallet = new_test_ext(ADMIN);
    let expected_access_control = AccessControl {
        pallet: pallet_name(),
        extrinsic: fake_extrinsic(),
        permission: Permission::Execute,
    };

    assert!(pallet
        .create_access_control(
            Origin::Signed(ADMIN),
            expected_access_control.pallet.clone(),
            expected_access_control.extrinsic.clone(),
            expected_access_control.permission,
        )
        .is_ok());

    assert_eq!(pallet.access_controls(expected_access_control), Some(vec![]));
}

#[test]
fn deny_execution_of_an_extrinsic() {
    let mut pallet = new_test_ext(ADMIN);
    let another_account = 42;

    assert_eq!(
        pallet.create_access_control(
            Origin::Signed(another_account),
            pallet_name(),
            fake_extrinsic(),
            Permission::Execute,
        ),
        Err(DispatchError::Module(Error::AccessDenied))
    );

    let untouched = AccessControl {
        pallet: pallet_name(),
        extrinsic: fake_extrinsic(),
        permission: Permission::Execute,
    };
    assert_eq!(pallet.access_controls(untouched), None);
}

#[test]
fn sudo_override_create_access_control() {
    let mut pallet = new_test_ext(ADMIN);
    let expected_access_control = AccessControl {
        pallet: pallet_name(),
        extrinsic: fake_extrinsic(),
        permission: Permission::Execute,
    };

    assert!(pallet
        .create_access_control(
            Origin::Root,
            expected_access_control.pallet.clone(),
            expected_access_control.extrinsic.clone(),
            expected_access_control.permission,
        )
        .is_ok());

    assert_eq!(pallet.access_controls(expected_access_control), Some(vec![]));
}

#[test]
fn assign_access_control() {
    let mut pallet = new_test_ext(ADMIN);
    let account_to_add = 42;
    let access_control = AccessControl {
        pallet: pallet_name(),
        extrinsic: create_access_control(),
        permission: Permission::Execute,
    };
    let new_access_control = AccessControl {
        pallet: pallet_name(),
        extrinsic: fake_extrinsic(),
        permission: Permission::Execute,
    };

    // The new account is denied access.
    assert_eq!(
        pallet.create_access_control(
            Origin::Signed(account_to_add),
            new_access_control.pallet.clone(),
            new_access_control.extrinsic.clone(),
            new_access_control.permission,
        ),
        Err(DispatchError::Module(Error::AccessDenied))
    );

    // Add the new account to those who can create access controls.
    assert!(pallet
        .assign_access_control(Origin::Signed(ADMIN), account_to_add, access_control.clone())
        .is_ok());

    assert!(pallet
        .access_controls(access_control.clone())
        .unwrap()
        .contains(&account_to_add));

    // The new account is now able to create access controls.
    assert!(pallet
        .create_access_control(
            Origin::Signed(account_to_add),
            new_access_control.pallet.clone(),
            new_access_control.extrinsic.clone(),
            new_access_control.permission,
        )
        .is_ok());

    assert_eq!(
        pallet.access_controls(new_access_control.clone()),
        Some(vec![])
    );

    // An account with only execution permission cannot make itself a manager.
    assert_eq!(
        pallet.assign_access_control(
            Origin::Signed(account_to_add),
            account_to_add,
            new_access_control,
        ),
        Err(DispatchError::Module(Error::AccessDenied))
    );
}

#[test]
fn sudo_override_assign_access_control() {
    let mut pallet = new_test_ext(ADMIN);
    let account_to_add = 42;
    let access_control = AccessControl {
        pallet: pallet_name(),
        extrinsic: create_access_control(),
        permission: Permission::Execute,
    };

    assert!(pallet
        .assign_access_control(Origin::Root, account_to_add, access_control.clone())
        .is_ok());

    assert!(pallet
        .access_controls(access_control)
        .unwrap()
        .contains(&account_to_add));
}

#[test]
fn revoke_access_for_an_account() {
    // The granted manager is not an admin: the admin bypass would otherwise
    // outweigh the revoked grant.
    let mut pallet = new_test_ext(MANAGER);
    let access_control = AccessControl {
        pallet: pallet_name(),
        extrinsic: create_access_control(),
        permission: Permission::Execute,
    };

    assert!(pallet
        .revoke_access(Origin::Signed(MANAGER), MANAGER, access_control)
        .is_ok());

    assert_eq!(
        pallet.create_access_control(
            Origin::Signed(MANAGER),
            pallet_name(),
            fake_extrinsic(),
            Permission::Execute,
        ),
        Err(DispatchError::Module(Error::AccessDenied))
    );
}

#[test]
fn sudo_override_revoke_access() {
    let mut pallet = new_test_ext(MANAGER);
    let access_control = AccessControl {
        pallet: pallet_name(),
        extrinsic: create_access_control(),
        permission: Permission::Execute,
    };

    assert!(pallet
        .revoke_access(Origin::Root, MANAGER, access_control.clone())
        .is_ok());

    assert!(!pallet
        .access_controls(access_control)
        .unwrap()
        .contains(&MANAGER));

    assert_eq!(
        pallet.create_access_control(
            Origin::Signed(MANAGER),
            pallet_name(),
            fake_extrinsic(),
            Permission::Execute,
        ),
        Err(DispatchError::Module(Error::AccessDenied))
    );
}

#[test]
fn add_admin() {
    let mut pallet = new_test_ext(ADMIN);
    let account_to_add = 42;

    assert!(pallet
        .add_super_admin(Origin::Root, account_to_add)
        .is_ok());

    assert_eq!(pallet.admins(account_to_add), Some(()));
}

#[test]
fn add_admin_is_sudo_only() {
    let mut pallet = new_test_ext(ADMIN);
    let account_to_add = 42;

    assert_eq!(
        pallet.add_super_admin(Origin::Signed(ADMIN), account_to_add),
        Err(DispatchError::BadOrigin)
    );
}

#[test]
fn revoke_admin() {
    let mut pallet = new_test_ext(ADMIN);

    assert!(pallet.revoke_super_admin(Origin::Root, ADMIN).is_ok());

    assert_eq!(pallet.admins(ADMIN), None);
}

#[test]
fn revoke_admin_is_sudo_only() {
    let mut pallet = new_test_ext(ADMIN);

    assert_eq!(
        pallet.revoke_super_admin(Origin::Signed(ADMIN), ADMIN),
        Err(DispatchError::BadOrigin)
    );
}
