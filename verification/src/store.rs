//! A built configuration of the `config` crate, as far as records are filled
//! from it.

use vstd::prelude::*;

verus! {

/// `config::Config`, opaque to the verifier.
#[verifier::external_type_specification]
#[verifier::external_body]
pub struct ExConfig(config::Config);

/// `config::ConfigError`, opaque to the verifier.
#[verifier::external_type_specification]
#[verifier::external_body]
pub struct ExConfigError(config::ConfigError);

/// A key that names an entry directly: it holds no `[`, so no part of it is
/// read as a subscript into a list.
pub open spec fn plain_key(key: Seq<char>) -> bool {
    forall|i: int| 0 <= i < key.len() ==> key[i] != '['
}

/// The keys of `store` that can be read as a string, each with that string.
pub uninterp spec fn store_strings(store: config::Config) -> Map<Seq<char>, Seq<char>>;

/// The keys of `store` that can be read as an integer, each with that integer.
pub uninterp spec fn store_ints(store: config::Config) -> Map<Seq<char>, i64>;

/// Calls `config::Config::get_string`.
///
/// Trusted: the call succeeds exactly for the keys that [`store_strings`]
/// maps, and then with the mapped string. A key with a subscript is left
/// out: a negative subscript beyond the length of its list does not come
/// back from the call.
#[verifier::external_body]
pub(crate) fn get_string(store: &config::Config, key: &str) -> (r: Result<String, config::ConfigError>)
    requires
        plain_key(key@),
    ensures
        r matches Ok(value) ==> store_strings(*store).contains_key(key@) && store_strings(*store)[key@]
            == value@,
        r is Err ==> !store_strings(*store).contains_key(key@),
{
    store.get_string(key)
}

/// Calls `config::Config::get_int`.
///
/// Trusted: the call succeeds exactly for the keys that [`store_ints`] maps,
/// and then with the mapped integer. A key with a subscript is left out, as
/// for [`get_string`].
#[verifier::external_body]
pub(crate) fn get_int(store: &config::Config, key: &str) -> (r: Result<i64, config::ConfigError>)
    requires
        plain_key(key@),
    ensures
        r matches Ok(value) ==> store_ints(*store).contains_key(key@) && store_ints(*store)[key@]
            == value,
        r is Err ==> !store_ints(*store).contains_key(key@),
{
    store.get_int(key)
}

} // verus!
