//! Identifiers of nodes and bundles.
//!
//! An identifier is the 128-bit value of a UUID, most significant byte first.

use vstd::prelude::*;

verus! {

/// The value of a UUID.
pub type Id = u128;

/// The RFC 9562 namespace for domain names, under which node names are hashed.
pub const NAMESPACE_DNS: u128 = 0x6ba7b810_9dad_11d1_80b4_00c04fd430c8;

/// The version number that an identifier carries in its seventh byte.
pub open spec fn version_of(id: u128) -> u128 {
    (id >> 76u128) & 0xf
}

/// Whether the two variant bits of an identifier are those of RFC 9562.
pub open spec fn has_rfc_variant(id: u128) -> bool {
    (id >> 62u128) & 0x3 == 2
}

/// An identifier of the random kind, as bundles have.
pub open spec fn is_random_id(id: u128) -> bool {
    version_of(id) == 4 && has_rfc_variant(id)
}

/// An identifier of the kind that is hashed from a name, as nodes have.
pub open spec fn is_name_based_id(id: u128) -> bool {
    version_of(id) == 5 && has_rfc_variant(id)
}

/// The identifier that the `uuid` crate hashes from a namespace and a name.
pub uninterp spec fn sha1_id(namespace: u128, name: Seq<u8>) -> u128;

/// The identifier that the `uuid` crate reads in a text, if it reads one.
pub uninterp spec fn parsed_id(text: Seq<char>) -> Option<u128>;

/// The error of `uuid::Uuid::parse_str`.
#[verifier::external_type_specification]
#[verifier::external_body]
pub struct ExUuidError(uuid::Error);

/// Calls `uuid::Uuid::new_v4`.
///
/// The value is random; what holds of every one is that it carries version 4
/// and the variant of RFC 9562. That two calls differ is likely, not promised.
#[verifier::external_body]
pub(crate) fn new_v4() -> (id: u128)
    ensures
        is_random_id(id),
{
    uuid::Uuid::new_v4().as_u128()
}

/// Takes the value of the constant `uuid::Uuid::NAMESPACE_DNS` by
/// `uuid::Uuid::as_u128`.
#[verifier::external_body]
pub(crate) fn namespace_dns() -> (namespace: u128)
    ensures
        namespace == NAMESPACE_DNS,
{
    uuid::Uuid::NAMESPACE_DNS.as_u128()
}

/// Calls `uuid::Uuid::new_v5`.
///
/// The value is a SHA-1 hash of the namespace and the name, and of nothing
/// else, in which version 5 and the variant of RFC 9562 are set.
#[verifier::external_body]
pub(crate) fn new_v5(namespace: u128, name: &[u8]) -> (id: u128)
    ensures
        id == sha1_id(namespace, name@),
        is_name_based_id(id),
{
    uuid::Uuid::new_v5(&uuid::Uuid::from_u128(namespace), name).as_u128()
}

/// Calls `uuid::Uuid::parse_str`.
///
/// Whether a text is accepted, and with which value, is fixed by the text.
#[verifier::external_body]
pub(crate) fn parse_str(text: &str) -> (parsed: Result<u128, uuid::Error>)
    ensures
        match parsed {
            Ok(id) => parsed_id(text@) == Some(id),
            Err(_) => parsed_id(text@) is None,
        },
{
    uuid::Uuid::parse_str(text).map(|id| id.as_u128())
}

/// Whether an identifier is in a list.
pub fn contains_id(ids: &[Id], id: Id) -> (found: bool)
    ensures
        found == ids@.contains(id),
{
    let mut i: usize = 0;
    while i < ids.len()
        invariant
            i <= ids@.len(),
            forall|j: int| 0 <= j < i ==> ids@[j] != id,
        decreases ids@.len() - i,
    {
        if ids[i] == id {
            return true;
        }
        i += 1;
    }
    false
}

/// An identifier hashed from a name is never one drawn at random: node and
/// bundle identifiers cannot be mistaken for one another.
pub proof fn name_based_and_random_ids_differ(node: u128, bundle: u128)
    requires
        is_name_based_id(node),
        is_random_id(bundle),
    ensures
        node != bundle,
{
}

} // verus!
