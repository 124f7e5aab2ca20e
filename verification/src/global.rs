//! The operations on the shared, process-wide configuration instance.
//!
//! The instance itself (a `Viperus` behind a mutex) belongs to the program;
//! each operation takes it, locked, as its first argument.
use vstd::prelude::*;

use crate::adapter::ConfigAdapter;
use crate::cli::{opt_str, ClapMatches};
use crate::map::ViperusMap;
use crate::value::{ConfigValue, ValueView};
use crate::viperus::{contents_view, view_opt, Viperus, ViperusView};
use crate::{Format, ViperusError};

verus! {

/// Loads a configuration file into the shared instance (see [`Viperus::load_file`]).
pub fn load_file(instance: &mut Viperus, name: &str, format: Format, content: &[u8]) -> (r:
    Result<(), ViperusError>)
    ensures
        (r is Ok, final(instance)@) == old(instance)@.load_outcome(name@, format, content@),
        format == Format::Auto ==> (r matches Err(ViperusError::Generic(s)) && s@
            == "Format not implemented"@),
{
    instance.load_file(name, format, content)
}

/// Asks the adapter to parse its data and merges its map into the
/// configuration of the shared instance.
pub fn load_adapter<A: ConfigAdapter>(instance: &mut Viperus, adt: &mut A) -> (r: Result<
    (),
    ViperusError,
>)
    ensures
        r is Ok ==> exists|m: ViperusMap|
            call_ensures(A::get_map, (&*final(adt),), m) && final(instance)@ == old(
                instance,
            )@.with_config(old(instance)@.config.union_prefer_right(m@)),
        r is Err ==> final(instance)@ == old(instance)@,
{
    instance.load_adapter(adt)
}

/// Adds an override value to the shared instance; the key is made of
/// components separated by dots.
pub fn add<T: ConfigValue>(instance: &mut Viperus, key: &str, value: T) -> (r: Option<T>)
    requires
        old(instance)@.overrides.contains_key(key@) ==> T::read(
            old(instance)@.overrides[key@],
        ) is Some,
    ensures
        final(instance)@ == (ViperusView {
            overrides: old(instance)@.overrides.insert(key@, T::stored(value@)),
            ..old(instance)@
        }),
        r is Some <==> old(instance)@.overrides.contains_key(key@),
        r matches Some(x) ==> T::read(old(instance)@.overrides[key@]) == Some(x@),
{
    instance.add(key, value)
}

/// Gets a configuration value of type `T` from the shared instance: an
/// override, a command-line argument, the configuration, the environment, the
/// default of a command-line argument, a default, in that order.
pub fn get<T: ConfigValue>(instance: &mut Viperus, key: &str) -> (r: Option<T>)
    requires
        old(instance)@.defined::<T>(key@, old(instance)@.env_value(key@)),
    ensures
        view_opt(r) == old(instance)@.lookup::<T>(key@, old(instance)@.env_value(key@)),
        final(instance)@ == old(instance)@.after_get::<T>(key@, old(instance)@.env_value(key@)),
{
    instance.get(key)
}

/// Adds a default value to the shared instance; the key is made of
/// components separated by dots.
pub fn add_default<T: ConfigValue>(instance: &mut Viperus, key: &str, value: T) -> (r: Option<T>)
    requires
        old(instance)@.defaults.contains_key(key@) ==> T::read(
            old(instance)@.defaults[key@],
        ) is Some,
    ensures
        final(instance)@ == (ViperusView {
            defaults: old(instance)@.defaults.insert(key@, T::stored(value@)),
            ..old(instance)@
        }),
        r is Some <==> old(instance)@.defaults.contains_key(key@),
        r matches Some(x) ==> T::read(old(instance)@.defaults[key@]) == Some(x@),
{
    instance.add_default(key, value)
}

/// Brings the command-line arguments into the shared instance.
pub fn load_clap(instance: &mut Viperus, matches: ClapMatches) -> (r: Result<(), ViperusError>)
    ensures
        r is Ok,
        final(instance)@ == (ViperusView {
            clap: matches@,
            bonds: old(instance)@.bonds.union_prefer_right(
                Map::new(|k: Seq<char>| matches@.contains_key(k), |k: Seq<char>| k),
            ),
            ..old(instance)@
        }),
{
    instance.load_clap(matches)
}

/// Binds configuration key `dst` to command-line argument `src` in the shared
/// instance; returns the argument it was bound to before.
pub fn bond_clap(instance: &mut Viperus, src: &str, dst: &str) -> (r: Option<String>)
    ensures
        final(instance)@ == (ViperusView {
            bonds: old(instance)@.bonds.insert(dst@, src@),
            ..old(instance)@
        }),
        opt_str(r) == (if old(instance)@.bonds.contains_key(dst@) {
            Some(old(instance)@.bonds[dst@])
        } else {
            None
        }),
{
    instance.bond_clap(src, dst)
}

/// Reloads the configuration files of the shared instance from `contents`
/// (see [`Viperus::reload`]).
pub fn reload(instance: &mut Viperus, contents: &Vec<Option<Vec<u8>>>) -> (r: Result<
    (),
    ViperusError,
>)
    requires
        contents@.len() == old(instance)@.loaded.len(),
    ensures
        ({
            let outcome = old(instance)@.reload_from(
                old(instance)@.loaded,
                contents_view(contents@),
                contents@.len(),
            );
            &&& r is Ok == outcome.0
            &&& final(instance)@ == old(instance)@.cleared().with_config(outcome.1)
        }),
{
    instance.reload(contents)
}

/// Turns the caching of lookups of the shared instance on or off (turning it
/// on empties the cache); returns whether it was on.
pub fn cache(instance: &mut Viperus, enable: bool) -> (was: bool)
    ensures
        was == old(instance)@.cache_use,
        final(instance)@ == (ViperusView {
            cache_use: enable,
            cache: if enable {
                Map::empty()
            } else {
                old(instance)@.cache
            },
            ..old(instance)@
        }),
{
    let was = instance.cache_enabled();
    instance.cache(enable);
    was
}

/// When enabled, `get` looks for an environment variable named as the key in
/// upper case, after the prefix set by [`set_env_prefix`].
pub fn automatic_env(instance: &mut Viperus, enable: bool)
    ensures
        final(instance)@ == (ViperusView { auto_env: enable, ..old(instance)@ }),
{
    instance.automatic_env(enable)
}

/// Sets the prefix of the environment variables that `get` looks for.
pub fn set_env_prefix(instance: &mut Viperus, prefix: &str)
    ensures
        final(instance)@ == (ViperusView { env_prefix: prefix@, ..old(instance)@ }),
{
    instance.set_env_prefix(prefix)
}

} // verus!
