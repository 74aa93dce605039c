//! The secret store: where the expected API key and the address of each
//! apartment's calendar feed are kept.

use crate::text::{decimal, push_decimal};
use shuttle_runtime::SecretStore;
use vstd::prelude::*;

verus! {

/// The store of shuttle_runtime, taken as it is: a value of it is opaque here
/// and read only through [`SecretStore::get`].
#[verifier::external_type_specification]
#[verifier::external_body]
pub struct ExSecretStore(shuttle_runtime::SecretStore);

/// What a store holds: the value of each secret, by the secret's name.
pub uninterp spec fn secret_entries(store: SecretStore) -> Map<Seq<char>, Seq<char>>;

/// `SecretStore::get` of shuttle_runtime looks the name up in the store's map
/// and hands out a copy of the value: `Some` with the value exactly when the
/// store holds a secret of that name. It does not change the store.
pub assume_specification[ SecretStore::get ](store: &SecretStore, key: &str) -> (value: Option<
    String,
>)
    ensures
        value.deep_view() == lookup(secret_entries(*store), key@),
;

/// The value that `entries` holds under `name`, if any.
pub open spec fn lookup(entries: Map<Seq<char>, Seq<char>>, name: Seq<char>) -> Option<Seq<char>> {
    if entries.contains_key(name) {
        Some(entries[name])
    } else {
        None
    }
}

/// The name of the secret that holds the API key expected of clients.
pub open spec fn api_key_name() -> Seq<char> {
    "x-api-key"@
}

/// The name of the secret that holds the feed address of apartment `id`:
/// `AIRBNB-A` and the number.
pub open spec fn feed_secret_name(id: u8) -> Seq<char> {
    "AIRBNB-A"@ + decimal(id as nat)
}

/// The name of the secret that holds the feed address of apartment `id`.
pub fn secret_name(id: u8) -> (name: String)
    ensures
        name@ == feed_secret_name(id),
{
    let mut name = "AIRBNB-A".to_owned();
    push_decimal(&mut name, id as u32);
    name
}

/// The API key that the store expects of clients, if it holds one.
pub fn expected_api_key(store: &SecretStore) -> (key: Option<String>)
    ensures
        key.deep_view() == lookup(secret_entries(*store), api_key_name()),
{
    store.get("x-api-key")
}

/// The address of the calendar feed of apartment `id`, if the store holds
/// one.
pub fn feed_address(store: &SecretStore, id: u8) -> (address: Option<String>)
    ensures
        address.deep_view() == lookup(secret_entries(*store), feed_secret_name(id)),
{
    let name = secret_name(id);
    store.get(name.as_str())
}

} // verus!
