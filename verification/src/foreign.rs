//! The types of other crates that the library holds, declared to the verifier.
use vstd::prelude::*;

verus! {

/// `uuid::Uuid`, an opaque identifier.
#[verifier::external_type_specification]
#[verifier::external_body]
pub struct ExUuid(uuid::Uuid);

/// The hasher that `hashbrown` gives a collection for which none is named.
#[verifier::external_type_specification]
#[verifier::external_body]
pub struct ExDefaultHashBuilder(hashbrown::hash_map::DefaultHashBuilder);

/// `hashbrown::HashMap`.
#[verifier::external_type_specification]
#[verifier::external_body]
#[verifier::reject_recursive_types(K)]
#[verifier::reject_recursive_types(V)]
#[verifier::reject_recursive_types(S)]
pub struct ExHashMap<K, V, S>(hashbrown::HashMap<K, V, S>);

/// `hashbrown::HashSet`.
#[verifier::external_type_specification]
#[verifier::external_body]
#[verifier::reject_recursive_types(T)]
#[verifier::reject_recursive_types(S)]
pub struct ExHashSet<T, S>(hashbrown::HashSet<T, S>);

/// `concread::cowcell::CowCell`.
#[verifier::external_type_specification]
#[verifier::external_body]
#[verifier::reject_recursive_types(T)]
pub struct ExCowCell<T>(concread::cowcell::CowCell<T>);

/// `concread::cowcell::CowCellReadTxn`, what `CowCell::read` hands out.
#[verifier::external_type_specification]
#[verifier::external_body]
#[verifier::reject_recursive_types(T)]
pub struct ExCowCellReadTxn<T>(concread::cowcell::CowCellReadTxn<T>);

/// The number that `Uuid::as_u128` makes of an identifier.
pub uninterp spec fn uuid_number(u: uuid::Uuid) -> u128;

/// The number that an identifier is.
///
/// Trusted: `Uuid::as_u128` packs the bytes of the identifier, first to last, into
/// one number, which depends on the identifier alone; `uuid_number` names it.
#[verifier::external_body]
pub(crate) fn uuid_as_number(u: &uuid::Uuid) -> (r: u128)
    ensures
        r == uuid_number(*u),
{
    u.as_u128()
}

} // verus!
