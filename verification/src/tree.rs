//! Nested documents (JSON, TOML, YAML) and their flattening into dotted keys.
use vstd::prelude::*;

use crate::map::ViperusMap;
use crate::pairs::{insert_all, lemma_insert_all_append, lemma_insert_all_push};
use crate::value::{ValueView, ViperusValue};

verus! {

/// A parsed document node, as plain values.
///
/// `Number` holds the integer a number denotes, or `None` where the number
/// has no `i64` form (a float, or an integer out of range).
#[derive(Debug)]
pub enum ConfigTree {
    Null,
    Bool(bool),
    Number(Option<i64>),
    Str(String),
    List(Vec<ConfigTree>),
    Table(Vec<(ConfigTree, ConfigTree)>),
    Other,
}

/// The flattening rules of one document format.
#[derive(Debug, Clone, Copy, PartialEq, Eq, Structural)]
pub enum Dialect {
    Json,
    Toml,
    Yaml,
}

/// `prefix.key`
pub open spec fn dotted(prefix: Seq<char>, key: Seq<char>) -> Seq<char> {
    prefix + seq!['.'] + key
}

/// The value a leaf node is stored as, if the format keeps it.
///
/// JSON keeps strings and booleans; TOML also integers, truncated to `i32`;
/// YAML keeps every number, one without an `i64` form as 0, truncated to `i32`.
pub open spec fn leaf_value(d: Dialect, t: ConfigTree) -> Option<ValueView> {
    match t {
        ConfigTree::Str(s) => Some(ValueView::Str(s@)),
        ConfigTree::Bool(b) => Some(ValueView::Bool(b)),
        ConfigTree::Number(n) => match d {
            Dialect::Json => None,
            Dialect::Toml => match n {
                Some(i) => Some(ValueView::I32(i as i32)),
                None => None,
            },
            Dialect::Yaml => match n {
                Some(i) => Some(ValueView::I32(i as i32)),
                None => Some(ValueView::I32(0)),
            },
        },
        _ => None,
    }
}

/// The insertions, in order, that flattening node `t` under key `key` makes.
pub open spec fn emit(d: Dialect, key: Seq<char>, t: ConfigTree) -> Seq<(Seq<char>, ValueView)>
    decreases t, 0nat,
{
    match t {
        ConfigTree::Table(es) => emit_table(d, Some(key), es@, es@.len()),
        ConfigTree::List(items) => if d == Dialect::Yaml {
            emit_list(d, key, items@, items@.len())
        } else {
            Seq::empty()
        },
        _ => match leaf_value(d, t) {
            Some(v) => seq![(key, v)],
            None => Seq::empty(),
        },
    }
}

/// The insertions of the first `n` entries of a table; an entry whose key is
/// not a string is skipped. At the top level (`prefix` is `None`) a key is
/// used as it is, below it is appended to the prefix with a dot.
pub open spec fn emit_table(
    d: Dialect,
    prefix: Option<Seq<char>>,
    es: Seq<(ConfigTree, ConfigTree)>,
    n: nat,
) -> Seq<(Seq<char>, ValueView)>
    decreases es, n,
{
    if n == 0 || n > es.len() {
        Seq::empty()
    } else {
        let before = emit_table(d, prefix, es, (n - 1) as nat);
        match es[n - 1].0 {
            ConfigTree::Str(k) => before + emit(
                d,
                match prefix {
                    Some(p) => dotted(p, k@),
                    None => k@,
                },
                es[n - 1].1,
            ),
            _ => before,
        }
    }
}

/// The insertions of the first `n` items of a sequence, all under `key`.
pub open spec fn emit_list(d: Dialect, key: Seq<char>, items: Seq<ConfigTree>, n: nat) -> Seq<
    (Seq<char>, ValueView),
>
    decreases items, n,
{
    if n == 0 || n > items.len() {
        Seq::empty()
    } else {
        emit_list(d, key, items, (n - 1) as nat) + emit(d, key, items[n - 1])
    }
}

/// The map that flattening the top-level entries `es` gives.
pub open spec fn flat_map(d: Dialect, es: Seq<(ConfigTree, ConfigTree)>) -> Map<
    Seq<char>,
    ValueView,
> {
    insert_all(Map::empty(), emit_table(d, None, es, es.len()))
}

/// Builds `prefix.key`.
pub fn join_key(prefix: &str, key: &str) -> (r: String)
    ensures
        r@ == dotted(prefix@, key@),
{
    let mut r: String = prefix.to_owned();
    r.append(".");
    proof {
        reveal_strlit(".");
    }
    r.append(key);
    r
}

/// Stores the value of a leaf, if the format keeps it.
fn store_leaf(d: Dialect, config_map: &mut ViperusMap, kpath: &str, v: &ConfigTree)
    requires
        !(v is Table),
        !(v is List),
    ensures
        final(config_map)@ == insert_all(old(config_map)@, emit(d, kpath@, *v)),
{
    let ghost start = old(config_map)@;
    match v {
        ConfigTree::Str(s) => {
            config_map.add_value(kpath, ViperusValue::Str(s.clone()));
        },
        ConfigTree::Bool(b) => {
            config_map.add_value(kpath, ViperusValue::BOOL(*b));
        },
        ConfigTree::Number(n) => {
            match d {
                Dialect::Json => {},
                Dialect::Toml => {
                    match n {
                        Some(i) => {
                            config_map.add_value(kpath, ViperusValue::I32(*i as i32));
                        },
                        None => {},
                    }
                },
                Dialect::Yaml => {
                    let i: i64 = match n {
                        Some(i) => *i,
                        None => 0,
                    };
                    config_map.add_value(kpath, ViperusValue::I32(i as i32));
                },
            }
        },
        _ => {},
    }
    proof {
        let e = emit(d, kpath@, *v);
        assert(e.len() == 0 || e.len() == 1);
        if e.len() == 1 {
            assert(e =~= Seq::<(Seq<char>, ValueView)>::empty().push(e[0]));
            lemma_insert_all_push(start, Seq::empty(), e[0].0, e[0].1);
        }
    }
}

/// Flattening the entries of a table one after the other.
proof fn lemma_emit_table_step(
    d: Dialect,
    prefix: Option<Seq<char>>,
    es: Seq<(ConfigTree, ConfigTree)>,
    i: nat,
)
    requires
        i < es.len(),
    ensures
        emit_table(d, prefix, es, i + 1) == emit_table(d, prefix, es, i) + match es[i as int].0 {
            ConfigTree::Str(k) => emit(
                d,
                match prefix {
                    Some(p) => dotted(p, k@),
                    None => k@,
                },
                es[i as int].1,
            ),
            _ => Seq::empty(),
        },
{
    match es[i as int].0 {
        ConfigTree::Str(k) => {},
        _ => {
            assert(emit_table(d, prefix, es, i) + Seq::<(Seq<char>, ValueView)>::empty()
                =~= emit_table(d, prefix, es, i));
        },
    }
}

/// Flattens the entries of a table into `config_map`, under `prefix`.
fn flatten_entries(
    d: Dialect,
    config_map: &mut ViperusMap,
    prefix: Option<&str>,
    es: &Vec<(ConfigTree, ConfigTree)>,
)
    ensures
        final(config_map)@ == insert_all(
            old(config_map)@,
            emit_table(
                d,
                match prefix {
                    Some(p) => Some(p@),
                    None => None,
                },
                es@,
                es@.len(),
            ),
        ),
    decreases es, 1nat,
{
    let ghost start = old(config_map)@;
    let ghost p = match prefix {
        Some(p) => Some(p@),
        None => None,
    };
    let n: usize = es.len();
    let mut i: usize = 0;
    while i < n
        invariant
            n == es@.len(),
            i <= n,
            config_map@ == insert_all(start, emit_table(d, p, es@, i as nat)),
            p == match prefix {
                Some(pp) => Some(pp@),
                None => None,
            },
        decreases n - i,
    {
        let ghost before = config_map@;
        match &es[i].0 {
            ConfigTree::Str(k) => {
                let kk: String = match prefix {
                    Some(pre) => join_key(pre, k.as_str()),
                    None => k.clone(),
                };
                assert(kk@ == match p {
                    Some(pp) => dotted(pp, k@),
                    None => k@,
                });
                assert(es@[i as int].0 == ConfigTree::Str(*k));
                assert(decreases_to!(es => es@[i as int].1));
                flatten_into(d, config_map, kk.as_str(), &es[i].1);
                proof {
                    lemma_insert_all_append(
                        start,
                        emit_table(d, p, es@, i as nat),
                        emit(d, kk@, es@[i as int].1),
                    );
                }
            },
            _ => {},
        }
        proof {
            lemma_emit_table_step(d, p, es@, i as nat);
        }
        i = i + 1;
    }
}

/// Flattens the items of a sequence into `config_map`, all under `kpath`.
fn flatten_items(d: Dialect, config_map: &mut ViperusMap, kpath: &str, items: &Vec<ConfigTree>)
    ensures
        final(config_map)@ == insert_all(
            old(config_map)@,
            emit_list(d, kpath@, items@, items@.len()),
        ),
    decreases items, 1nat,
{
    let ghost start = old(config_map)@;
    let n: usize = items.len();
    let mut i: usize = 0;
    while i < n
        invariant
            n == items@.len(),
            i <= n,
            config_map@ == insert_all(start, emit_list(d, kpath@, items@, i as nat)),
        decreases n - i,
    {
        assert(decreases_to!(items => items@[i as int]));
        flatten_into(d, config_map, kpath, &items[i]);
        proof {
            lemma_insert_all_append(
                start,
                emit_list(d, kpath@, items@, i as nat),
                emit(d, kpath@, items@[i as int]),
            );
        }
        i = i + 1;
    }
}

/// Flattens node `v` into `config_map` under key `kpath` by the rules of `d`.
fn flatten_into(d: Dialect, config_map: &mut ViperusMap, kpath: &str, v: &ConfigTree)
    ensures
        final(config_map)@ == insert_all(old(config_map)@, emit(d, kpath@, *v)),
    decreases v, 2nat,
{
    match v {
        ConfigTree::Table(es) => {
            flatten_entries(d, config_map, Some(kpath), es);
        },
        ConfigTree::List(items) => {
            if d == Dialect::Yaml {
                flatten_items(d, config_map, kpath, items);
            }
        },
        _ => {
            store_leaf(d, config_map, kpath, v);
        },
    }
}

/// Flattens a JSON node: objects nest with dotted keys; strings and booleans
/// are kept; numbers, arrays and nulls are skipped.
pub fn rec_json(config_map: &mut ViperusMap, kpath: &str, v: &ConfigTree)
    ensures
        final(config_map)@ == insert_all(old(config_map)@, emit(Dialect::Json, kpath@, *v)),
{
    flatten_into(Dialect::Json, config_map, kpath, v)
}

/// Flattens a TOML node: tables nest with dotted keys; strings, booleans and
/// integers (truncated to `i32`) are kept; floats, dates and arrays are skipped.
pub fn rec_toml(config_map: &mut ViperusMap, kpath: &str, v: &ConfigTree)
    ensures
        final(config_map)@ == insert_all(old(config_map)@, emit(Dialect::Toml, kpath@, *v)),
{
    flatten_into(Dialect::Toml, config_map, kpath, v)
}

/// Flattens a YAML node: mappings nest with dotted keys (entries with a key
/// that is not a string are skipped); the items of a sequence are all stored
/// under the key of the sequence; strings, booleans and numbers are kept.
pub fn rec_yaml(config_map: &mut ViperusMap, kpath: &str, v: &ConfigTree)
    ensures
        final(config_map)@ == insert_all(old(config_map)@, emit(Dialect::Yaml, kpath@, *v)),
{
    flatten_into(Dialect::Yaml, config_map, kpath, v)
}

/// Flattens the top-level entries of a document into a new map.
pub fn flatten_document(d: Dialect, es: &Vec<(ConfigTree, ConfigTree)>) -> (m: ViperusMap)
    ensures
        m@ == flat_map(d, es@),
{
    let mut m = ViperusMap::new();
    flatten_entries(d, &mut m, None, es);
    m
}

/// A leaf kept by the format is written once, under its own key.
proof fn lemma_leaf_emit(d: Dialect, key: Seq<char>, v: ConfigTree)
    requires
        leaf_value(d, v) is Some,
    ensures
        emit(d, key, v) == seq![(key, leaf_value(d, v)->0)],
{
}

/// The last entry of a table, a leaf under a text key, is what its dotted
/// key holds after the table is flattened.
proof fn lemma_table_last_entry(
    m: Map<Seq<char>, ValueView>,
    d: Dialect,
    p: Seq<char>,
    es: Seq<(ConfigTree, ConfigTree)>,
    k: String,
    v: ConfigTree,
)
    requires
        es.len() > 0,
        es.last() == (ConfigTree::Str(k), v),
        leaf_value(d, v) is Some,
    ensures
        insert_all(m, emit_table(d, Some(p), es, es.len())).contains_key(dotted(p, k@)),
        insert_all(m, emit_table(d, Some(p), es, es.len()))[dotted(p, k@)] == leaf_value(
            d,
            v,
        )->0,
{
    let n = es.len();
    let before = emit_table(d, Some(p), es, (n - 1) as nat);
    assert(es[n - 1] == es.last());
    lemma_leaf_emit(d, dotted(p, k@), v);
    let e = (dotted(p, k@), leaf_value(d, v)->0);
    assert(emit_table(d, Some(p), es, n) =~= before.push(e));
    lemma_insert_all_push(m, before, e.0, e.1);
}

/// What flattening the first `n` items of a YAML sequence writes under the
/// dotted key of the last entry of item `i`, a table, while the later items
/// are leaves.
proof fn lemma_list_table_item(
    m: Map<Seq<char>, ValueView>,
    key: Seq<char>,
    items: Seq<ConfigTree>,
    i: int,
    n: nat,
    es: Vec<(ConfigTree, ConfigTree)>,
    k: String,
    v: ConfigTree,
)
    requires
        0 <= i < n <= items.len(),
        items[i] == ConfigTree::Table(es),
        es@.len() > 0,
        es@.last() == (ConfigTree::Str(k), v),
        leaf_value(Dialect::Yaml, v) is Some,
        forall|j: int| i < j < items.len() ==> !(#[trigger] items[j] is Table) && !(items[j] is List),
    ensures
        insert_all(m, emit_list(Dialect::Yaml, key, items, n)).contains_key(dotted(key, k@)),
        insert_all(m, emit_list(Dialect::Yaml, key, items, n))[dotted(key, k@)] == leaf_value(
            Dialect::Yaml,
            v,
        )->0,
    decreases n,
{
    let d = Dialect::Yaml;
    let before = emit_list(d, key, items, (n - 1) as nat);
    let last = emit(d, key, items[n - 1]);
    lemma_insert_all_append(m, before, last);
    if n == i + 1 {
        lemma_table_last_entry(insert_all(m, before), d, key, es@, k, v);
    } else {
        lemma_list_table_item(m, key, items, i, (n - 1) as nat, es, k, v);
        assert(dotted(key, k@).len() > key.len());
        if leaf_value(d, items[n - 1]) is Some {
            lemma_leaf_emit(d, key, items[n - 1]);
            assert(last =~= Seq::<(Seq<char>, ValueView)>::empty().push(
                (key, leaf_value(d, items[n - 1])->0),
            ));
            lemma_insert_all_push(insert_all(m, before), Seq::empty(), key, leaf_value(
                d,
                items[n - 1],
            )->0);
        } else {
            assert(last =~= Seq::<(Seq<char>, ValueView)>::empty());
            assert(insert_all(insert_all(m, before), last) == insert_all(m, before));
        }
    }
}

/// Flattening a YAML sequence flattens each of its items under the
/// sequence's key: an item that is a mapping gives dotted keys below it, so
/// the last entry of the last mapping item, a leaf under key `k`, is what
/// `key.k` holds (later items being plain values, which are written under
/// `key` itself).
pub proof fn law_yaml_list_keeps_mappings(
    m: Map<Seq<char>, ValueView>,
    key: Seq<char>,
    items: Vec<ConfigTree>,
    i: int,
    es: Vec<(ConfigTree, ConfigTree)>,
    k: String,
    v: ConfigTree,
)
    requires
        0 <= i < items@.len(),
        items@[i] == ConfigTree::Table(es),
        es@.len() > 0,
        es@.last() == (ConfigTree::Str(k), v),
        leaf_value(Dialect::Yaml, v) is Some,
        forall|j: int|
            i < j < items@.len() ==> !(#[trigger] items@[j] is Table) && !(items@[j] is List),
    ensures
        ({
            let r = insert_all(m, emit(Dialect::Yaml, key, ConfigTree::List(items)));
            &&& r.contains_key(dotted(key, k@))
            &&& r[dotted(key, k@)] == leaf_value(Dialect::Yaml, v)->0
        }),
{
    lemma_list_table_item(m, key, items@, i, items@.len(), es, k, v);
}

/// Flattening a YAML sequence whose last item is a plain value kept by the
/// format leaves that value under the sequence's key.
pub proof fn law_yaml_list_last_value(
    m: Map<Seq<char>, ValueView>,
    key: Seq<char>,
    items: Vec<ConfigTree>,
)
    requires
        items@.len() > 0,
        leaf_value(Dialect::Yaml, items@.last()) is Some,
    ensures
        ({
            let r = insert_all(m, emit(Dialect::Yaml, key, ConfigTree::List(items)));
            &&& r.contains_key(key)
            &&& r[key] == leaf_value(Dialect::Yaml, items@.last())->0
        }),
{
    let d = Dialect::Yaml;
    let n = items@.len();
    let before = emit_list(d, key, items@, (n - 1) as nat);
    assert(items@[n - 1] == items@.last());
    lemma_leaf_emit(d, key, items@.last());
    let e = (key, leaf_value(d, items@.last())->0);
    assert(emit_list(d, key, items@, n) =~= before.push(e));
    lemma_insert_all_push(m, before, e.0, e.1);
}

} // verus!
