//! Parsed command-line arguments, as far as the lookup reads them.

use vstd::prelude::*;

verus! {

/// `clap::ArgMatches`, opaque to the verifier.
#[verifier::external_type_specification]
#[verifier::external_body]
pub struct ExArgMatches(clap::ArgMatches);

/// `clap::parser::MatchesError`, opaque to the verifier.
#[verifier::external_type_specification]
#[verifier::external_body]
pub struct ExMatchesError(clap::parser::MatchesError);

/// The string-valued arguments that `matches` holds: argument id to the
/// first value given for it.
pub uninterp spec fn arg_values(matches: clap::ArgMatches) -> Map<Seq<char>, Seq<char>>;

/// Calls `clap::ArgMatches::try_get_one::<String>` and clones the value.
///
/// Trusted: the call yields `Ok(Some(v))` exactly for the ids that
/// `arg_values` maps, and `v` is then the mapped value. An id that the
/// command does not define, an argument of another type and an argument that
/// was not given all come back as something else.
#[verifier::external_body]
pub(crate) fn try_get_string(matches: &clap::ArgMatches, id: &str) -> (r: Result<
    Option<String>,
    clap::parser::MatchesError,
>)
    ensures
        r matches Ok(Some(v)) ==> arg_values(*matches).contains_key(id@) && arg_values(*matches)[id@]
            == v@,
        !(r matches Ok(Some(_))) ==> !arg_values(*matches).contains_key(id@),
{
    matches.try_get_one::<String>(id).map(|v| v.cloned())
}

/// The value of argument `id`, if `matches` holds a string for it.
pub fn argument(matches: &clap::ArgMatches, id: &str) -> (value: Option<String>)
    ensures
        crate::json::opt_view(value) == (if arg_values(*matches).contains_key(id@) {
            Some(arg_values(*matches)[id@])
        } else {
            None
        }),
{
    match try_get_string(matches, id) {
        Ok(Some(v)) => Some(v),
        _ => None,
    }
}

} // verus!
