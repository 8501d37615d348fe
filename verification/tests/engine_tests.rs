//! The authorization engine and admission gate on concrete stores: the
//! admin bypass, both missing-entry policies, the grant/revoke round trip,
//! idempotency, the audit events, and each error variant.

use access_control::gate::Authorize;
use access_control::traits::TraitError;
use access_control::traits::VerifyAccess;
use access_control::types::AccessControl;
use access_control::types::DispatchError;
use access_control::types::Error;
use access_control::types::Event;
use access_control::types::InvalidTransaction;
use access_control::types::Origin;
use access_control::types::Permission;
use access_control::GenesisConfig;
use access_control::Pallet;

fn empty_pallet() -> Pallet {
    let genesis: GenesisConfig = Default::default();
    genesis.build()
}

fn pallet_with_admin(admin: u64) -> Pallet {
    GenesisConfig { admins: vec![admin], access_controls: vec![] }.build()
}

fn ledger_transfer(permission: Permission) -> AccessControl {
    AccessControl {
        pallet: b"Ledger".to_vec(),
        extrinsic: b"transfer".to_vec(),
        permission,
    }
}

#[test]
fn admin_bypass_allows_everywhere() {
    let mut pallet = pallet_with_admin(5);

    // Unregistered resource, closed Manage check: the admin passes.
    assert!(pallet
        .verify_manage_access(5, b"Ledger".to_vec(), b"transfer".to_vec())
        .is_ok());
    // Unregistered resource, closed Execute check: the admin passes.
    assert!(pallet
        .verify_execute_access(5, b"Ledger".to_vec(), b"transfer".to_vec(), Some(true))
        .is_ok());

    // Registered resource granting nobody: the admin still passes.
    assert!(pallet
        .create_access_control(Origin::Root, b"Ledger".to_vec(), b"transfer".to_vec(), Permission::Execute)
        .is_ok());
    assert!(pallet
        .verify_execute_access(5, b"Ledger".to_vec(), b"transfer".to_vec(), Some(true))
        .is_ok());
    let gate = Authorize::new();
    assert!(gate
        .validate(&pallet, 5, &b"Ledger".to_vec(), &b"transfer".to_vec())
        .is_ok());
}

#[test]
fn closed_policy_denies_on_unregistered() {
    let pallet = pallet_with_admin(5);

    assert_eq!(
        pallet.verify_manage_access(6, b"Ledger".to_vec(), b"transfer".to_vec()),
        Err(Error::AccessDenied)
    );
    assert_eq!(
        pallet.verify_execute_access(6, b"Ledger".to_vec(), b"transfer".to_vec(), Some(true)),
        Err(Error::AccessDenied)
    );
}

#[test]
fn open_policy_allows_on_unregistered() {
    let pallet = pallet_with_admin(5);
    let gate = Authorize::new();

    assert!(gate
        .validate(&pallet, 6, &b"Ledger".to_vec(), &b"transfer".to_vec())
        .is_ok());
    assert!(pallet
        .verify_execute_access(6, b"Ledger".to_vec(), b"transfer".to_vec(), None)
        .is_ok());
    assert!(pallet
        .verify_execute_access(6, b"Ledger".to_vec(), b"transfer".to_vec(), Some(false))
        .is_ok());
}

#[test]
fn grant_revoke_round_trip() {
    let mut pallet = pallet_with_admin(1);
    let account = 9;

    assert!(pallet
        .create_access_control(Origin::Signed(1), b"Ledger".to_vec(), b"transfer".to_vec(), Permission::Execute)
        .is_ok());
    assert!(pallet
        .assign_access_control(Origin::Signed(1), account, ledger_transfer(Permission::Execute))
        .is_ok());
    assert!(pallet
        .verify_execute_access(account, b"Ledger".to_vec(), b"transfer".to_vec(), Some(true))
        .is_ok());

    assert!(pallet
        .revoke_access(Origin::Signed(1), account, ledger_transfer(Permission::Execute))
        .is_ok());
    assert_eq!(
        pallet.verify_execute_access(account, b"Ledger".to_vec(), b"transfer".to_vec(), None),
        Err(Error::AccessDenied)
    );
}

#[test]
fn manage_required_for_mutation() {
    let mut pallet = pallet_with_admin(1);
    assert!(pallet
        .create_access_control(Origin::Root, b"Ledger".to_vec(), b"transfer".to_vec(), Permission::Execute)
        .is_ok());
    assert!(pallet
        .create_access_control(Origin::Root, b"Ledger".to_vec(), b"transfer".to_vec(), Permission::Manage)
        .is_ok());

    // Neither admin nor Manage holder: denied, nothing granted.
    assert_eq!(
        pallet.assign_access_control(Origin::Signed(7), 8, ledger_transfer(Permission::Execute)),
        Err(DispatchError::Module(Error::AccessDenied))
    );
    assert_eq!(
        pallet.access_controls(ledger_transfer(Permission::Execute)),
        Some(vec![])
    );

    // Holding Execute alone does not authorize mutation.
    assert!(pallet
        .assign_access_control(Origin::Root, 7, ledger_transfer(Permission::Execute))
        .is_ok());
    assert_eq!(
        pallet.assign_access_control(Origin::Signed(7), 8, ledger_transfer(Permission::Execute)),
        Err(DispatchError::Module(Error::AccessDenied))
    );

    // A Manage holder may mutate.
    assert!(pallet
        .assign_access_control(Origin::Root, 7, ledger_transfer(Permission::Manage))
        .is_ok());
    assert!(pallet
        .assign_access_control(Origin::Signed(7), 8, ledger_transfer(Permission::Execute))
        .is_ok());
    assert!(pallet
        .access_controls(ledger_transfer(Permission::Execute))
        .unwrap()
        .contains(&8));

    // An admin may mutate without any grant.
    assert!(pallet
        .assign_access_control(Origin::Signed(1), 9, ledger_transfer(Permission::Execute))
        .is_ok());
}

#[test]
fn idempotent_revoke_of_ungranted_account() {
    let mut pallet = pallet_with_admin(1);
    assert!(pallet
        .create_access_control(Origin::Root, b"Ledger".to_vec(), b"transfer".to_vec(), Permission::Execute)
        .is_ok());
    assert!(pallet
        .assign_access_control(Origin::Root, 8, ledger_transfer(Permission::Execute))
        .is_ok());

    // Account 9 was never granted: revoking succeeds and changes nothing.
    let before = pallet.access_controls(ledger_transfer(Permission::Execute));
    assert!(pallet
        .revoke_access(Origin::Root, 9, ledger_transfer(Permission::Execute))
        .is_ok());
    assert_eq!(pallet.access_controls(ledger_transfer(Permission::Execute)), before);

    // Revoking twice is as revoking once.
    assert!(pallet
        .revoke_access(Origin::Root, 8, ledger_transfer(Permission::Execute))
        .is_ok());
    assert!(pallet
        .revoke_access(Origin::Root, 8, ledger_transfer(Permission::Execute))
        .is_ok());
    assert_eq!(
        pallet.access_controls(ledger_transfer(Permission::Execute)),
        Some(vec![])
    );
}

#[test]
fn duplicate_grant_is_idempotent() {
    let mut pallet = pallet_with_admin(1);
    assert!(pallet
        .create_access_control(Origin::Root, b"Ledger".to_vec(), b"transfer".to_vec(), Permission::Execute)
        .is_ok());
    assert!(pallet
        .assign_access_control(Origin::Root, 8, ledger_transfer(Permission::Execute))
        .is_ok());
    assert!(pallet
        .assign_access_control(Origin::Root, 8, ledger_transfer(Permission::Execute))
        .is_ok());
    assert_eq!(
        pallet.access_controls(ledger_transfer(Permission::Execute)),
        Some(vec![8])
    );
}

#[test]
fn reregistration_clears_grants() {
    let mut pallet = pallet_with_admin(1);
    assert!(pallet
        .create_access_control(Origin::Root, b"Ledger".to_vec(), b"transfer".to_vec(), Permission::Execute)
        .is_ok());
    assert!(pallet
        .assign_access_control(Origin::Root, 8, ledger_transfer(Permission::Execute))
        .is_ok());
    assert_eq!(
        pallet.access_controls(ledger_transfer(Permission::Execute)),
        Some(vec![8])
    );

    // Registering the same key again wipes the grant set.
    assert!(pallet
        .create_access_control(Origin::Root, b"Ledger".to_vec(), b"transfer".to_vec(), Permission::Execute)
        .is_ok());
    assert_eq!(
        pallet.access_controls(ledger_transfer(Permission::Execute)),
        Some(vec![])
    );
}

#[test]
fn mutation_on_unregistered_resource_not_found() {
    let mut pallet = pallet_with_admin(1);

    assert_eq!(
        pallet.assign_access_control(Origin::Root, 8, ledger_transfer(Permission::Execute)),
        Err(DispatchError::Module(Error::AccessControlNotFound))
    );
    assert_eq!(
        pallet.revoke_access(Origin::Root, 8, ledger_transfer(Permission::Execute)),
        Err(DispatchError::Module(Error::AccessControlNotFound))
    );
    // Failed mutations emit nothing.
    assert!(pallet.events.is_empty());
}

#[test]
fn unsigned_origin_is_rejected() {
    let mut pallet = pallet_with_admin(1);

    assert_eq!(
        pallet.create_access_control(Origin::Unsigned, b"Ledger".to_vec(), b"transfer".to_vec(), Permission::Execute),
        Err(DispatchError::BadOrigin)
    );
    assert_eq!(
        pallet.assign_access_control(Origin::Unsigned, 8, ledger_transfer(Permission::Execute)),
        Err(DispatchError::BadOrigin)
    );
    assert_eq!(
        pallet.revoke_access(Origin::Unsigned, 8, ledger_transfer(Permission::Execute)),
        Err(DispatchError::BadOrigin)
    );
}

#[test]
fn mutations_emit_audit_events() {
    let mut pallet = pallet_with_admin(1);
    assert!(pallet
        .create_access_control(Origin::Root, b"Ledger".to_vec(), b"transfer".to_vec(), Permission::Execute)
        .is_ok());
    // Registration emits nothing.
    assert!(pallet.events.is_empty());

    assert!(pallet
        .assign_access_control(Origin::Root, 8, ledger_transfer(Permission::Execute))
        .is_ok());
    assert!(pallet
        .revoke_access(Origin::Root, 8, ledger_transfer(Permission::Execute))
        .is_ok());
    assert!(pallet.add_super_admin(Origin::Root, 4).is_ok());
    assert!(pallet.revoke_super_admin(Origin::Root, 4).is_ok());

    assert_eq!(
        pallet.events,
        vec![
            Event::AccessGranted(8, b"Ledger".to_vec(), b"transfer".to_vec()),
            Event::AccessRevoked(8, b"Ledger".to_vec(), b"transfer".to_vec()),
            Event::AdminAdded(4),
            Event::AdminRevoked(4),
        ]
    );
}

#[test]
fn gate_scenario_ledger_transfer() {
    let mut pallet = pallet_with_admin(1);
    let x = 10;
    let y = 11;

    // X, no admin and no grant, may not register a control.
    assert_eq!(
        pallet.create_access_control(Origin::Signed(x), b"Ledger".to_vec(), b"transfer".to_vec(), Permission::Execute),
        Err(DispatchError::Module(Error::AccessDenied))
    );

    // The admin registers it: present with an empty grant set.
    assert!(pallet
        .create_access_control(Origin::Signed(1), b"Ledger".to_vec(), b"transfer".to_vec(), Permission::Execute)
        .is_ok());
    assert_eq!(
        pallet.access_controls(ledger_transfer(Permission::Execute)),
        Some(vec![])
    );

    // The admin grants X Execute.
    assert!(pallet
        .assign_access_control(Origin::Signed(1), x, ledger_transfer(Permission::Execute))
        .is_ok());

    // The admission hook admits X and turns Y away: registered means closed.
    let gate = Authorize::new();
    assert!(gate
        .validate(&pallet, x, &b"Ledger".to_vec(), &b"transfer".to_vec())
        .is_ok());
    assert_eq!(
        gate.validate(&pallet, y, &b"Ledger".to_vec(), &b"transfer".to_vec()),
        Err(InvalidTransaction::Call)
    );
    assert_eq!(
        gate.pre_dispatch(&pallet, y, &b"Ledger".to_vec(), &b"transfer".to_vec()),
        Err(InvalidTransaction::Call)
    );
}

#[test]
fn trait_check_is_closed() {
    let mut pallet = pallet_with_admin(1);

    // Through the trait, an unregistered operation is denied.
    assert_eq!(
        VerifyAccess::verify_execute_access(&pallet, 8, b"Ledger".to_vec(), b"transfer".to_vec()),
        Err(TraitError::AccessDenied)
    );

    assert!(pallet
        .create_access_control(Origin::Root, b"Ledger".to_vec(), b"transfer".to_vec(), Permission::Execute)
        .is_ok());
    assert!(pallet
        .assign_access_control(Origin::Root, 8, ledger_transfer(Permission::Execute))
        .is_ok());
    assert!(
        VerifyAccess::verify_execute_access(&pallet, 8, b"Ledger".to_vec(), b"transfer".to_vec())
            .is_ok()
    );
}

#[test]
fn empty_identifiers_round_trip() {
    let mut pallet = empty_pallet();
    assert!(pallet.add_super_admin(Origin::Root, 1).is_ok());

    let blank = AccessControl {
        pallet: vec![],
        extrinsic: vec![],
        permission: Permission::Execute,
    };
    assert!(pallet
        .create_access_control(Origin::Root, vec![], vec![], Permission::Execute)
        .is_ok());
    assert_eq!(pallet.access_controls(blank.clone()), Some(vec![]));

    let gate = Authorize::new();
    assert_eq!(
        gate.validate(&pallet, 9, &vec![], &vec![]),
        Err(InvalidTransaction::Call)
    );
    assert!(pallet
        .assign_access_control(Origin::Signed(1), 9, blank)
        .is_ok());
    assert!(gate.validate(&pallet, 9, &vec![], &vec![]).is_ok());
}

#[test]
fn default_permission_is_execute() {
    assert_eq!(Permission::default(), Permission::Execute);
}

#[test]
fn genesis_default_is_empty() {
    let pallet = empty_pallet();
    assert_eq!(pallet.admins(1), None);
    assert_eq!(
        pallet.access_controls(ledger_transfer(Permission::Execute)),
        None
    );
    assert!(pallet.events.is_empty());
}

#[test]
fn name_helpers_spell_the_identifiers() {
    assert_eq!(access_control::names::pallet_name(), b"AccessControl".to_vec());
    assert_eq!(
        access_control::names::create_access_control_name(),
        b"create_access_control".to_vec()
    );
    assert_eq!(
        access_control::names::fake_extrinsic(),
        b"fake_extrinsic".to_vec()
    );
}
