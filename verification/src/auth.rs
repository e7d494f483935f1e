//! Multi-signature approval: at least two authorized entries in the signer
//! list, each distinct authorized address asked once for its authorization.

use vstd::prelude::*;
use crate::contract::TimeLockedUpgradeContract;
use crate::error::{fails_with, ContractError};
use crate::keyed_map::{bytes_eq, copy_bytes, KeyedMap};

verus! {

/// The byte strings of a list of addresses.
pub open spec fn address_views(addresses: Seq<Vec<u8>>) -> Seq<Seq<u8>> {
    addresses.map_values(|a: Vec<u8>| a@)
}

/// `address` may approve: it is a registered signer or the admin.
pub open spec fn is_authorized(address: Seq<u8>, registered: Map<Seq<u8>, ()>, admin: Seq<u8>) -> bool {
    registered.contains_key(address) || admin == address
}

/// Number of list positions that hold an authorized address; an address
/// listed twice counts twice.
pub open spec fn authorized_count(
    signers: Seq<Seq<u8>>,
    registered: Map<Seq<u8>, ()>,
    admin: Seq<u8>,
) -> nat
    decreases signers.len(),
{
    if signers.len() == 0 {
        0
    } else {
        authorized_count(signers.drop_last(), registered, admin) + if is_authorized(
            signers.last(),
            registered,
            admin,
        ) {
            1nat
        } else {
            0nat
        }
    }
}

/// `signers[i]` is asked for its authorization: it is authorized, and no
/// earlier position lists the same address.
pub open spec fn approves(
    signers: Seq<Seq<u8>>,
    i: int,
    registered: Map<Seq<u8>, ()>,
    admin: Seq<u8>,
) -> bool {
    &&& is_authorized(signers[i], registered, admin)
    &&& forall|j: int| 0 <= j < i ==> signers[j] != signers[i]
}

/// The distinct authorized signers, in order of first listing.
pub open spec fn approving_signers(
    signers: Seq<Seq<u8>>,
    registered: Map<Seq<u8>, ()>,
    admin: Seq<u8>,
) -> Seq<Seq<u8>>
    decreases signers.len(),
{
    if signers.len() == 0 {
        Seq::empty()
    } else {
        let earlier = approving_signers(signers.drop_last(), registered, admin);
        if approves(signers, signers.len() - 1, registered, admin) {
            earlier.push(signers.last())
        } else {
            earlier
        }
    }
}

proof fn lemma_approving_prefix(
    signers: Seq<Seq<u8>>,
    registered: Map<Seq<u8>, ()>,
    admin: Seq<u8>,
    i: int,
)
    requires
        0 <= i < signers.len(),
    ensures
        approves(signers.take(i + 1), i, registered, admin) == ((registered.contains_key(signers[i])
            || admin == signers[i]) && forall|k: int| 0 <= k < i ==> signers[k] != signers[i]),
        signers.take(i + 1).drop_last() =~= signers.take(i),
        signers.take(i + 1).last() == signers[i],
{
    let t = signers.take(i + 1);
    assert forall|j: int| 0 <= j <= i implies #[trigger] t[j] == signers[j] by {}
    assert((forall|k: int| 0 <= k < i ==> t[k] != t[i]) <==> (forall|k: int|
        0 <= k < i ==> signers[k] != signers[i])) by {
        if forall|k: int| 0 <= k < i ==> t[k] != t[i] {
            assert forall|k: int| 0 <= k < i implies signers[k] != signers[i] by {
                assert(t[k] != t[i]);
            }
        }
        if forall|k: int| 0 <= k < i ==> signers[k] != signers[i] {
            assert forall|k: int| 0 <= k < i implies t[k] != t[i] by {
                assert(signers[k] != signers[i]);
            }
        }
    }
}

/// Every address is asked for its authorization at most once, however often
/// it is listed, and every address asked is listed.
pub proof fn lemma_approving_signers_distinct(
    signers: Seq<Seq<u8>>,
    registered: Map<Seq<u8>, ()>,
    admin: Seq<u8>,
)
    ensures
        approving_signers(signers, registered, admin).no_duplicates(),
        forall|k: int|
            0 <= k < approving_signers(signers, registered, admin).len() ==> signers.contains(
                #[trigger] approving_signers(signers, registered, admin)[k],
            ),
    decreases signers.len(),
{
    if signers.len() > 0 {
        let earlier = approving_signers(signers.drop_last(), registered, admin);
        lemma_approving_signers_distinct(signers.drop_last(), registered, admin);
        assert forall|k: int| 0 <= k < earlier.len() implies signers.contains(#[trigger] earlier[k]) by {
            let j = choose|j: int| 0 <= j < signers.drop_last().len() && signers.drop_last()[j] == earlier[k];
            assert(signers[j] == earlier[k]);
        }
        if approves(signers, signers.len() - 1, registered, admin) {
            assert forall|k: int| 0 <= k < earlier.len() implies earlier[k] != signers.last() by {
                let j = choose|j: int| 0 <= j < signers.drop_last().len() && signers.drop_last()[j] == earlier[k];
                assert(signers[j] == earlier[k]);
            }
            assert(signers[signers.len() - 1] == signers.last());
        }
    }
}

/// Tally `signers` against the registered signers and `admin`: the distinct
/// authorized addresses in order of first listing, and the number of list
/// positions that hold an authorized address.
fn tally(registered: &KeyedMap<()>, admin: &Vec<u8>, signers: &Vec<Vec<u8>>) -> (tallied: (
    Vec<Vec<u8>>,
    usize,
))
    ensures
        address_views(tallied.0@) == approving_signers(address_views(signers@), registered@, admin@),
        tallied.1 == authorized_count(address_views(signers@), registered@, admin@),
{
    let ghost views = address_views(signers@);
    let mut approved: Vec<Vec<u8>> = Vec::new();
    let mut count: usize = 0;
    let mut i: usize = 0;
    assert(address_views(approved@) =~= Seq::<Seq<u8>>::empty());
    while i < signers.len()
        invariant
            i <= signers.len(),
            views == address_views(signers@),
            count <= i,
            address_views(approved@) == approving_signers(views.take(i as int), registered@, admin@),
            count == authorized_count(views.take(i as int), registered@, admin@),
        decreases signers.len() - i,
    {
        let signer = &signers[i];
        proof {
            lemma_approving_prefix(views, registered@, admin@, i as int);
            assert(views[i as int] == signer@);
        }
        let is_authorized = registered.contains_key(signer) || bytes_eq(admin, signer);
        if is_authorized {
            count = count + 1;
            let mut duplicate = false;
            let mut j: usize = 0;
            while j < i
                invariant_except_break
                    !duplicate,
                invariant
                    j <= i < signers.len(),
                    views == address_views(signers@),
                    signer@ == views[i as int],
                    forall|k: int| 0 <= k < j ==> views[k] != views[i as int],
                ensures
                    duplicate ==> exists|k: int| 0 <= k < i && views[k] == views[i as int],
                    !duplicate ==> forall|k: int| 0 <= k < i ==> views[k] != views[i as int],
                decreases i - j,
            {
                if bytes_eq(&signers[j], signer) {
                    duplicate = true;
                    assert(views[j as int] == views[i as int]);
                    break;
                }
                j = j + 1;
            }
            if !duplicate {
                approved.push(copy_bytes(signer));
                proof {
                    assert(address_views(approved@) =~= approving_signers(
                        views.take(i as int),
                        registered@,
                        admin@,
                    ).push(views[i as int]));
                }
            }
        }
        i = i + 1;
    }
    assert(views.take(signers.len() as int) =~= views);
    (approved, count)
}

/// The addresses whose authorization a multi-signature check asks for: the
/// distinct registered signers and admin among `signers`, in order of first
/// listing. `NotInitialized` before the contract holds an admin.
pub fn multisig_approvals(contract: &TimeLockedUpgradeContract, signers: &Vec<Vec<u8>>) -> (r:
    Result<Vec<Vec<u8>>, ContractError>)
    ensures
        contract.data is None ==> fails_with(r, ContractError::NotInitialized),
        contract.data matches Some(d) ==> (r matches Ok(approved) && address_views(approved@)
            == approving_signers(address_views(signers@), contract.signers@, d.admin@)),
{
    match &contract.data {
        Some(d) => Ok(tally(&contract.signers, &d.admin, signers).0),
        None => Err(ContractError::NotInitialized),
    }
}

/// Check the multi-signature threshold: at least two positions of `signers`
/// hold an authorized address (a registered signer or the admin); an address
/// listed twice counts twice. Returns the distinct authorized addresses, in
/// order of first listing, whose authorization the host must then check.
pub fn require_multisig(contract: &TimeLockedUpgradeContract, signers: &Vec<Vec<u8>>) -> (r: Result<
    Vec<Vec<u8>>,
    ContractError,
>)
    ensures
        contract.data is None ==> fails_with(r, ContractError::NotInitialized),
        r is Ok <==> contract.data is Some && authorized_count(
            address_views(signers@),
            contract.signers@,
            contract.data->Some_0.admin@,
        ) >= 2,
        contract.data is Some && authorized_count(
            address_views(signers@),
            contract.signers@,
            contract.data->Some_0.admin@,
        ) < 2 ==> fails_with(r, ContractError::ThresholdNotReached),
        r matches Ok(approved) ==> address_views(approved@) == approving_signers(
            address_views(signers@),
            contract.signers@,
            contract.data->Some_0.admin@,
        ),
{
    let admin = match &contract.data {
        Some(d) => &d.admin,
        None => {
            return Err(ContractError::NotInitialized);
        },
    };
    let (approved, count) = tally(&contract.signers, admin, signers);
    if count < 2 {
        return Err(ContractError::ThresholdNotReached);
    }
    Ok(approved)
}

} // verus!
