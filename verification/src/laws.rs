//! What holds of the configuration across its operations.
use vstd::prelude::*;

use crate::depth::{dot_count, law_toml_depth_bounded, opener_count};
use crate::parse::{toml_document, toml_table, TOML_DEPTH_LIMIT};
use crate::value::{ConfigRef, ConfigValue, ValueView};
use vstd::utf8::encode_utf8;
use crate::viperus::ViperusView;
use crate::Format;

verus! {

/// A value added as an override is what a lookup of its key gives, whatever
/// the other layers hold, as long as the cache holds no value for the key.
pub proof fn law_get_after_add<T: ConfigValue>(
    v: ViperusView,
    key: Seq<char>,
    x: T::V,
    env: Option<Seq<char>>,
)
    requires
        !(v.cache_use && v.cache.contains_key(key)),
    ensures
        (ViperusView { overrides: v.overrides.insert(key, T::stored(x)), ..v }).lookup::<T>(
            key,
            env,
        ) == Some(x),
{
    T::lemma_read_stored(x);
}

/// A value added as a default is what a lookup of its key gives when no other
/// source holds the key and the cache holds no value for it.
pub proof fn law_get_default<T: ConfigValue>(
    v: ViperusView,
    key: Seq<char>,
    x: T::V,
    env: Option<Seq<char>>,
)
    requires
        !(v.cache_use && v.cache.contains_key(key)),
        v.source(key, env) is Missing,
    ensures
        (ViperusView { defaults: v.defaults.insert(key, T::stored(x)), ..v }).lookup::<T>(
            key,
            env,
        ) == Some(x),
{
    T::lemma_read_stored(x);
}

/// An override hides every other source: two states with the same override
/// for a key look it up alike, whatever their configuration, command line,
/// environment and defaults, as long as neither caches the key.
pub proof fn law_override_first<T: ConfigValue>(
    v: ViperusView,
    w: ViperusView,
    key: Seq<char>,
    env_v: Option<Seq<char>>,
    env_w: Option<Seq<char>>,
)
    requires
        v.overrides.contains_key(key),
        w.overrides.contains_key(key),
        v.overrides[key] == w.overrides[key],
        !(v.cache_use && v.cache.contains_key(key)),
        !(w.cache_use && w.cache.contains_key(key)),
    ensures
        v.lookup::<T>(key, env_v) == w.lookup::<T>(key, env_w),
{
}

/// A configuration value hides the environment and the defaults: as long as
/// no override and no command-line argument given holds the key, two states
/// with the same configuration value look it up alike.
pub proof fn law_config_before_env_and_defaults<T: ConfigValue>(
    v: ViperusView,
    key: Seq<char>,
    defaults: Map<Seq<char>, ValueView>,
    env_v: Option<Seq<char>>,
    env_w: Option<Seq<char>>,
)
    requires
        !v.overrides.contains_key(key),
        v.config.contains_key(key),
        !v.cache_use,
        v.source(key, env_v) is Config,
    ensures
        (ViperusView { defaults, ..v }).lookup::<T>(key, env_w) == v.lookup::<T>(key, env_v),
{
}

/// The environment comes before the defaults: with the automatic environment
/// on, a set variable decides a lookup that no override, command-line
/// argument given or configuration value decides.
pub proof fn law_env_before_defaults<T: ConfigValue>(
    v: ViperusView,
    key: Seq<char>,
    text: Seq<char>,
)
    requires
        v.auto_env,
        !v.cache_use,
        v.source(key, None) is ClapDefault || v.source(key, None) is Default || v.source(
            key,
            None,
        ) is Missing,
    ensures
        v.lookup::<T>(key, Some(text)) == T::parse(text),
{
}

/// Caching is transparent: a lookup that the cache does not answer gives what
/// the same lookup gives without caching.
pub proof fn law_cache_transparent<T: ConfigValue>(
    v: ViperusView,
    key: Seq<char>,
    env: Option<Seq<char>>,
)
    requires
        !v.cache.contains_key(key),
    ensures
        v.lookup::<T>(key, env) == (ViperusView { cache_use: false, ..v }).lookup::<T>(key, env),
{
}

/// With caching on, looking a key up again gives what the first lookup gave,
/// whatever the environment then holds.
pub proof fn law_cached_lookup_repeats<T: ConfigValue>(
    v: ViperusView,
    key: Seq<char>,
    env1: Option<Seq<char>>,
    env2: Option<Seq<char>>,
)
    requires
        v.cache_use,
        v.lookup::<T>(key, env1) is Some,
        v.cache.contains_key(key) ==> T::read(v.cache[key]) is Some,
    ensures
        v.after_get::<T>(key, env1).lookup::<T>(key, env2) == v.lookup::<T>(key, env1),
{
    if !v.cache.contains_key(key) {
        T::lemma_read_stored(v.lookup::<T>(key, env1)->0);
    }
}

/// A lookup changes nothing but the cache.
pub proof fn law_get_changes_only_cache<T: ConfigValue>(
    v: ViperusView,
    key: Seq<char>,
    env: Option<Seq<char>>,
)
    ensures
        (ViperusView { cache: v.cache, ..v.after_get::<T>(key, env) }) == v,
{
}

/// In a map, a value added under a key is what reading the key gives back
/// (the view that `ViperusMap::add` leaves, read as `ViperusMap::get` reads).
pub proof fn law_map_get_after_add<T: ConfigValue>(
    m: Map<Seq<char>, ValueView>,
    key: Seq<char>,
    x: T::V,
)
    ensures
        m.insert(key, T::stored(x)).contains_key(key),
        T::read(m.insert(key, T::stored(x))[key]) == Some(x),
{
    T::lemma_read_stored(x);
}

/// Merging a map into another (`ViperusMap::merge`): a key of the merged map
/// takes its value from there; any other key keeps its old value, and no key
/// comes from nowhere.
pub proof fn law_map_merge(
    dst: Map<Seq<char>, ValueView>,
    src: Map<Seq<char>, ValueView>,
    key: Seq<char>,
)
    ensures
        src.contains_key(key) ==> dst.union_prefer_right(src)[key] == src[key],
        !src.contains_key(key) && dst.contains_key(key) ==> dst.union_prefer_right(src)[key]
            == dst[key],
        dst.union_prefer_right(src).contains_key(key) <==> (dst.contains_key(key)
            || src.contains_key(key)),
{
}

/// The value a lookup of `key` as `T` gives with caching off, the
/// environment variable of the key read as `get` reads it.
pub open spec fn uncached<T: ConfigValue>(v: ViperusView, key: Seq<char>) -> Option<T::V> {
    (ViperusView { cache_use: false, ..v }).lookup::<T>(key, v.env_value(key))
}

/// Every cached value reads as `T` as the uncached lookup of its key.
pub open spec fn cache_agrees<T: ConfigValue>(v: ViperusView) -> bool {
    forall|k: Seq<char>| #[trigger]
        v.cache.contains_key(k) ==> T::read(v.cache[k]) == uncached::<T>(v, k)
}

/// The state after getting the keys of `keys` as `T` with `get`, in order.
pub open spec fn after_gets<T: ConfigValue>(v: ViperusView, keys: Seq<Seq<char>>) -> ViperusView
    decreases keys.len(),
{
    if keys.len() == 0 {
        v
    } else {
        let w = after_gets::<T>(v, keys.drop_last());
        w.after_get::<T>(keys.last(), w.env_value(keys.last()))
    }
}

/// One `get` keeps the uncached lookups and the agreement of the cache.
proof fn lemma_get_keeps_agreement<T: ConfigValue>(v: ViperusView, key: Seq<char>)
    requires
        v.cache_use,
        cache_agrees::<T>(v),
    ensures
        cache_agrees::<T>(v.after_get::<T>(key, v.env_value(key))),
        forall|k: Seq<char>|
            #[trigger] uncached::<T>(v.after_get::<T>(key, v.env_value(key)), k) == uncached::<T>(
                v,
                k,
            ),
{
    let w = v.after_get::<T>(key, v.env_value(key));
    assert forall|k: Seq<char>| #[trigger] uncached::<T>(w, k) == uncached::<T>(v, k) by {}
    if !v.cache.contains_key(key) && v.lookup::<T>(key, v.env_value(key)) is Some {
        T::lemma_read_stored(v.lookup::<T>(key, v.env_value(key))->0);
    }
    assert forall|k: Seq<char>| #[trigger] w.cache.contains_key(k) implies T::read(w.cache[k])
        == uncached::<T>(w, k) by {
        if k != key || v.cache.contains_key(key) {
            assert(v.cache.contains_key(k));
        }
    }
}

/// Gets after gets: the cache agrees with the uncached lookups all along.
proof fn lemma_gets_keep_agreement<T: ConfigValue>(v: ViperusView, keys: Seq<Seq<char>>)
    requires
        v.cache_use,
        cache_agrees::<T>(v),
    ensures
        after_gets::<T>(v, keys).cache_use,
        cache_agrees::<T>(after_gets::<T>(v, keys)),
        forall|k: Seq<char>|
            #[trigger] uncached::<T>(after_gets::<T>(v, keys), k) == uncached::<T>(v, k),
    decreases keys.len(),
{
    if keys.len() > 0 {
        lemma_gets_keep_agreement::<T>(v, keys.drop_last());
        let w = after_gets::<T>(v, keys.drop_last());
        lemma_get_keeps_agreement::<T>(w, keys.last());
        assert forall|k: Seq<char>|
            #[trigger] uncached::<T>(after_gets::<T>(v, keys), k) == uncached::<T>(v, k) by {
            assert(uncached::<T>(w, k) == uncached::<T>(v, k));
        }
    }
}

/// Caching changes no answer: after `cache(true)` (or a reload with caching
/// on), as long as only `get` with one type `T` is called, every `get`
/// gives what the same `get` gives with caching off.
pub proof fn law_cached_gets_agree<T: ConfigValue>(
    v: ViperusView,
    keys: Seq<Seq<char>>,
    key: Seq<char>,
)
    requires
        v.cache_use,
        v.cache == Map::<Seq<char>, ValueView>::empty(),
    ensures
        ({
            let w = after_gets::<T>(v, keys);
            w.lookup::<T>(key, w.env_value(key)) == uncached::<T>(v, key)
        }),
{
    lemma_gets_keep_agreement::<T>(v, keys);
    let w = after_gets::<T>(v, keys);
    assert(uncached::<T>(w, key) == uncached::<T>(v, key));
}

/// A write to a map: one value stored under one key (`ViperusMap::add_value`,
/// or `ViperusMap::add` with the stored form of its value), or a map merged
/// in (`ViperusMap::merge`).
pub enum MapWrite {
    Put(Seq<char>, ValueView),
    Merge(Map<Seq<char>, ValueView>),
}

/// The map after one write, as the writing operations state it.
pub open spec fn apply_write(m: Map<Seq<char>, ValueView>, w: MapWrite) -> Map<Seq<char>, ValueView> {
    match w {
        MapWrite::Put(k, x) => m.insert(k, x),
        MapWrite::Merge(src) => m.union_prefer_right(src),
    }
}

/// The map after the writes of `ws`, in order.
pub open spec fn apply_writes(m: Map<Seq<char>, ValueView>, ws: Seq<MapWrite>) -> Map<
    Seq<char>,
    ValueView,
>
    decreases ws.len(),
{
    if ws.len() == 0 {
        m
    } else {
        apply_write(apply_writes(m, ws.drop_last()), ws.last())
    }
}

/// The value that write `w` writes to key `k`, if it writes one.
pub open spec fn written(w: MapWrite, k: Seq<char>) -> Option<ValueView> {
    match w {
        MapWrite::Put(k2, x) => if k2 == k {
            Some(x)
        } else {
            None
        },
        MapWrite::Merge(src) => if src.contains_key(k) {
            Some(src[k])
        } else {
            None
        },
    }
}

/// The value of the latest write of `ws` to key `k`, if any writes it.
pub open spec fn latest_write(ws: Seq<MapWrite>, k: Seq<char>) -> Option<ValueView>
    decreases ws.len(),
{
    if ws.len() == 0 {
        None
    } else {
        match written(ws.last(), k) {
            Some(x) => Some(x),
            None => latest_write(ws.drop_last(), k),
        }
    }
}

/// In a map that starts empty, reading a key (`ViperusMap::get_value`) gives
/// the value of the latest write to it, and nothing if it was never written.
pub proof fn law_map_latest_write(ws: Seq<MapWrite>, k: Seq<char>)
    ensures
        apply_writes(Map::empty(), ws).contains_key(k) <==> latest_write(ws, k) is Some,
        latest_write(ws, k) matches Some(x) ==> apply_writes(Map::empty(), ws)[k] == x,
    decreases ws.len(),
{
    if ws.len() > 0 {
        law_map_latest_write(ws.drop_last(), k);
    }
}

/// Reloading keeps the loaded files, the overrides, the defaults, the
/// command line, the bonds and the environment: the state a reload leaves
/// (`Viperus::reload`) differs from the one before only in the
/// configuration and, with caching on, in an emptied cache.
pub proof fn law_reload_keeps_layers(v: ViperusView, config: Map<Seq<char>, ValueView>)
    ensures
        ({
            let w = v.cleared().with_config(config);
            &&& w.loaded == v.loaded
            &&& w.overrides == v.overrides
            &&& w.defaults == v.defaults
            &&& w.clap == v.clap
            &&& w.bonds == v.bonds
            &&& w.env == v.env
            &&& w.cache_use == v.cache_use
            &&& w.config == config
            &&& v.cache_use ==> w.cache == Map::<Seq<char>, ValueView>::empty()
        }),
{
}

/// After a reload with caching on, every lookup gives what it gives with
/// caching off: the reload left the cache empty.
pub proof fn law_reload_invalidates_cache<T: ConfigValue>(
    v: ViperusView,
    config: Map<Seq<char>, ValueView>,
    key: Seq<char>,
    env: Option<Seq<char>>,
)
    requires
        v.cache_use,
    ensures
        ({
            let w = v.cleared().with_config(config);
            &&& w.cache_use
            &&& w.lookup::<T>(key, env) == (ViperusView { cache_use: false, ..w }).lookup::<T>(
                key,
                env,
            )
        }),
{
    law_cache_transparent::<T>(v.cleared().with_config(config), key, env);
}

/// A value stored from a `bool`, an `i32` or a text reads back, by
/// reference too (`ConfigRef`), as that value; so does the text a `&str`
/// gives (`ViperusValue::from`).
pub proof fn law_round_trip_by_ref(b: bool, i: i32, s: Seq<char>)
    ensures
        <bool as ConfigValue>::read(<bool as ConfigValue>::stored(b)) == Some(b),
        <bool as ConfigRef>::read_ref(<bool as ConfigValue>::stored(b)) == Some(b),
        <i32 as ConfigValue>::read(<i32 as ConfigValue>::stored(i)) == Some(i),
        <i32 as ConfigRef>::read_ref(<i32 as ConfigValue>::stored(i)) == Some(i),
        <String as ConfigValue>::read(<String as ConfigValue>::stored(s)) == Some(s),
        <String as ConfigRef>::read_ref(<String as ConfigValue>::stored(s)) == Some(s),
        <&str as ConfigRef>::read_ref(ValueView::Str(s)) == Some(s),
{
    <bool as ConfigValue>::lemma_read_stored(b);
    <i32 as ConfigValue>::lemma_read_stored(i);
    <String as ConfigValue>::lemma_read_stored(s);
}

/// The digit character of `d`, below ten.
pub open spec fn digit_char(d: nat) -> char {
    if d == 0 {
        '0'
    } else if d == 1 {
        '1'
    } else if d == 2 {
        '2'
    } else if d == 3 {
        '3'
    } else if d == 4 {
        '4'
    } else if d == 5 {
        '5'
    } else if d == 6 {
        '6'
    } else if d == 7 {
        '7'
    } else if d == 8 {
        '8'
    } else {
        '9'
    }
}

/// The decimal writing of `n`, most significant digit first, with no
/// leading zero.
pub open spec fn decimal(n: nat) -> Seq<char>
    decreases n,
{
    if n < 10 {
        seq![digit_char(n)]
    } else {
        decimal(n / 10).push(digit_char(n % 10))
    }
}

/// The decimal writing of an `i32`, with a `-` before a negative one.
pub open spec fn i32_text(i: i32) -> Seq<char> {
    if i < 0 {
        seq!['-'] + decimal((-i) as nat)
    } else {
        decimal(i as nat)
    }
}

proof fn lemma_decimal_value(n: nat)
    ensures
        crate::value::all_digits(decimal(n)),
        decimal(n).len() > 0,
        crate::value::digits_value(decimal(n)) == n,
    decreases n,
{
    if n >= 10 {
        lemma_decimal_value(n / 10);
        let s = decimal(n / 10).push(digit_char(n % 10));
        assert(decimal(n) == s);
        assert(s.drop_last() =~= decimal(n / 10));
        assert(s.last() == digit_char((n % 10) as nat));
        assert((digit_char((n % 10) as nat) as int) - 48 == n % 10);
        assert(crate::value::digits_value(s) == crate::value::digits_value(decimal(n / 10)) * 10
            + (n % 10));
        assert(n == (n / 10) * 10 + n % 10);
    } else {
        let s = seq![digit_char(n)];
        assert(decimal(n) == s);
        assert(s.drop_last() =~= Seq::<char>::empty());
        assert(s.last() == digit_char(n));
        assert((digit_char(n) as int) - 48 == n);
        assert(crate::value::digits_value(s) == crate::value::digits_value(Seq::<char>::empty())
            * 10 + n);
    }
}

/// Reading the decimal writing of any `i32` as an `i32` (`parse_i32`, and
/// so `get::<i32>` on a text value) gives that `i32` back: every digit,
/// `0` included, counts at its place.
pub proof fn law_parse_i32_round_trip(i: i32)
    ensures
        crate::value::spec_parse_i32(i32_text(i)) == Some(i),
{
    if i < 0 {
        lemma_decimal_value((-i) as nat);
        assert((seq!['-'] + decimal((-i) as nat)).drop_first() =~= decimal((-i) as nat));
    } else {
        lemma_decimal_value(i as nat);
        assert(decimal(i as nat)[0] != '-' && decimal(i as nat)[0] != '+') by {
            assert(crate::value::is_digit(decimal(i as nat)[0]));
        }
    }
}

/// A TOML text with few brackets, braces and dots is never refused for its
/// nesting: what a TOML file gives (`TomlAdapter::parse`, `load_file`) is
/// then exactly what toml parses from it.
pub proof fn law_toml_small_nesting_loads(text: Seq<char>)
    requires
        1 + 2 * opener_count(encode_utf8(text)) + 3 * dot_count(encode_utf8(text))
            <= TOML_DEPTH_LIMIT,
    ensures
        toml_document(text) == toml_table(text),
{
    law_toml_depth_bounded(encode_utf8(text));
}

/// Loading a file (`Viperus::load_file`) that loads succeeds and records
/// it; a key the file gives takes the file's value, whatever the
/// configuration held before; every other key keeps its value; no key comes
/// from elsewhere.
pub proof fn law_load_file_later_wins(
    v: ViperusView,
    name: Seq<char>,
    format: Format,
    content: Seq<u8>,
    k: Seq<char>,
)
    requires
        v.content_map(format, content) is Some,
    ensures
        ({
            let m = v.content_map(format, content)->0;
            let (ok, w) = v.load_outcome(name, format, content);
            &&& ok
            &&& w.loaded == v.loaded.push((name, format))
            &&& m.contains_key(k) ==> w.config.contains_key(k) && w.config[k] == m[k]
            &&& !m.contains_key(k) ==> (w.config.contains_key(k) == v.config.contains_key(k))
            &&& !m.contains_key(k) && v.config.contains_key(k) ==> w.config[k] == v.config[k]
        }),
{
}

} // verus!
