//! The byte identifiers of the engine's own operations. Registering a
//! control is itself a controlled operation, guarded under the resource
//! `(pallet_name, create_access_control)`.

use vstd::prelude::*;

use crate::types::key;
use crate::types::AcKey;
use crate::types::Permission;

verus! {

/// The resource guarding registration itself: Execute on
/// `(pallet_name, create_access_control)`, always checked closed.
pub open spec fn self_resource() -> AcKey {
    key(pallet_name_bytes(), create_access_control_bytes(), Permission::Execute)
}

/// The engine's own pallet identifier, the bytes of `AccessControl`.
pub open spec fn pallet_name_bytes() -> Seq<u8> {
    seq![65u8, 99u8, 99u8, 101u8, 115u8, 115u8, 67u8, 111u8, 110u8, 116u8, 114u8, 111u8, 108u8]
}

/// The identifier of the registration operation, the bytes of
/// `create_access_control`.
pub open spec fn create_access_control_bytes() -> Seq<u8> {
    seq![
        99u8,
        114u8,
        101u8,
        97u8,
        116u8,
        101u8,
        95u8,
        97u8,
        99u8,
        99u8,
        101u8,
        115u8,
        115u8,
        95u8,
        99u8,
        111u8,
        110u8,
        116u8,
        114u8,
        111u8,
        108u8,
    ]
}

/// A placeholder extrinsic identifier, the bytes of `fake_extrinsic`.
pub open spec fn fake_extrinsic_bytes() -> Seq<u8> {
    seq![102u8, 97u8, 107u8, 101u8, 95u8, 101u8, 120u8, 116u8, 114u8, 105u8, 110u8, 115u8, 105u8, 99u8]
}

/// The engine's own pallet identifier as a byte vector.
pub fn pallet_name() -> (r: Vec<u8>)
    ensures
        r@ == pallet_name_bytes(),
{
    let r: Vec<u8> = vec![65, 99, 99, 101, 115, 115, 67, 111, 110, 116, 114, 111, 108];
    proof {
        assert(r@ =~= pallet_name_bytes());
    }
    r
}

/// The identifier of the registration operation as a byte vector.
pub fn create_access_control_name() -> (r: Vec<u8>)
    ensures
        r@ == create_access_control_bytes(),
{
    let r: Vec<u8> = vec![
        99,
        114,
        101,
        97,
        116,
        101,
        95,
        97,
        99,
        99,
        101,
        115,
        115,
        95,
        99,
        111,
        110,
        116,
        114,
        111,
        108,
    ];
    proof {
        assert(r@ =~= create_access_control_bytes());
    }
    r
}

/// A placeholder extrinsic identifier as a byte vector, for exercising the
/// engine against an operation of no further meaning.
pub fn fake_extrinsic() -> (r: Vec<u8>)
    ensures
        r@ == fake_extrinsic_bytes(),
{
    let r: Vec<u8> = vec![102, 97, 107, 101, 95, 101, 120, 116, 114, 105, 110, 115, 105, 99];
    proof {
        assert(r@ =~= fake_extrinsic_bytes());
    }
    r
}

} // verus!
