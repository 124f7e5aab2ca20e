//! The configuration facade: layers of maps, looked up in order of precedence.
use vstd::prelude::*;
use vstd::utf8::{decode_utf8, valid_utf8};

use crate::adapter::{
    decode_text, line_pairs, properties_lines, text_pairs, text_pairs_map, AdapterResult,
    ConfigAdapter, JavaPropertiesAdapter, JsonAdapter, TomlAdapter, YamlAdapter,
};
use crate::cli::{opt_str, text_bond_pairs, ArgView, Bonds, ClapMatches};
use crate::map::ViperusMap;
use crate::pairs::{lemma_insert_all_union, pairs_map};
use crate::parse::{json_object, toml_document, yaml_document};
use crate::tree::{flat_map, Dialect};
use crate::value::{ConfigValue, ValueView, ViperusValue};
use crate::{Format, ViperusError};

verus! {

/// The abstract state of a [`Viperus`].
pub struct ViperusView {
    /// Values set by `add_default`.
    pub defaults: Map<Seq<char>, ValueView>,
    /// Values loaded from configuration sources.
    pub config: Map<Seq<char>, ValueView>,
    /// Values set by `add`.
    pub overrides: Map<Seq<char>, ValueView>,
    /// The command-line arguments.
    pub clap: Map<Seq<char>, ArgView>,
    /// Configuration key to command-line argument name.
    pub bonds: Map<Seq<char>, Seq<char>>,
    /// The files loaded, with their formats, in order.
    pub loaded: Seq<(Seq<char>, Format)>,
    /// The cached results of `get`.
    pub cache: Map<Seq<char>, ValueView>,
    pub cache_use: bool,
    pub auto_env: bool,
    pub env_prefix: Seq<char>,
    /// The variables of the process, as last handed over; each a text.
    pub env: Map<Seq<char>, ValueView>,
}

/// Where a lookup finds its value.
pub enum Source {
    Override(ValueView),
    Clap(Seq<char>),
    Config(ValueView),
    Env(Seq<char>),
    ClapDefault(Seq<char>),
    Default(ValueView),
    Missing,
}

/// The view of an optional plain value.
pub open spec fn view_opt<T: View>(o: Option<T>) -> Option<T::V> {
    match o {
        Some(x) => Some(x@),
        None => None,
    }
}

/// The value a source gives, read as `T`.
pub open spec fn typed<T: ConfigValue>(s: Source) -> Option<T::V> {
    match s {
        Source::Override(v) => T::read(v),
        Source::Clap(t) => T::read(ValueView::Str(t)),
        Source::Config(v) => T::read(v),
        Source::Env(t) => T::parse(t),
        Source::ClapDefault(t) => T::parse(t),
        Source::Default(v) => T::read(v),
        Source::Missing => None,
    }
}

/// The map of a document in a text format, if the text holds one.
pub open spec fn text_document(format: Format, text: Seq<char>) -> Option<
    Map<Seq<char>, ValueView>,
> {
    match format {
        Format::JSON => match json_object(text) {
            Some(es) => Some(flat_map(Dialect::Json, es)),
            None => None,
        },
        Format::TOML => match toml_document(text) {
            Some(es) => Some(flat_map(Dialect::Toml, es)),
            None => None,
        },
        Format::YAML => match yaml_document(text) {
            Some(es) => Some(flat_map(Dialect::Yaml, es)),
            None => None,
        },
        _ => None,
    }
}

/// The contents of files by their bytes.
pub open spec fn contents_view(c: Seq<Option<Vec<u8>>>) -> Seq<Option<Seq<u8>>> {
    c.map_values(|o: Option<Vec<u8>>| match o {
        Some(b) => Some(b@),
        None => None,
    })
}

impl ViperusView {
    pub open spec fn with_config(self, config: Map<Seq<char>, ValueView>) -> ViperusView {
        ViperusView { config, ..self }
    }

    /// Whether the command line gave argument `name`.
    pub open spec fn clap_present(self, name: Seq<char>) -> bool {
        self.clap.contains_key(name) && self.clap[name].0
    }

    /// The value of argument `name`, given or default.
    pub open spec fn clap_value(self, name: Seq<char>) -> Option<Seq<char>> {
        if self.clap.contains_key(name) {
            self.clap[name].1
        } else {
            None
        }
    }

    /// Where a lookup of `key` finds its value, `env` being the value of the
    /// environment variable of the key: an override, a command-line argument
    /// given, the configuration, the environment (when automatic), the
    /// default of a command-line argument, a default, in that order.
    pub open spec fn source(self, key: Seq<char>, env: Option<Seq<char>>) -> Source {
        let bonded = self.bonds.contains_key(key);
        let arg = self.bonds[key];
        if self.overrides.contains_key(key) {
            Source::Override(self.overrides[key])
        } else if bonded && self.clap_present(arg) && self.clap_value(arg) is Some {
            Source::Clap(self.clap_value(arg)->0)
        } else if self.config.contains_key(key) {
            Source::Config(self.config[key])
        } else if self.auto_env && env is Some {
            Source::Env(env->0)
        } else if bonded && !self.clap_present(arg) && self.clap_value(arg) is Some {
            Source::ClapDefault(self.clap_value(arg)->0)
        } else if self.defaults.contains_key(key) {
            Source::Default(self.defaults[key])
        } else {
            Source::Missing
        }
    }

    /// The text of environment variable `name`, if it is set.
    pub open spec fn env_var(self, name: Seq<char>) -> Option<Seq<char>> {
        if self.env.contains_key(name) {
            match self.env[name] {
                ValueView::Str(t) => Some(t),
                _ => None,
            }
        } else {
            None
        }
    }

    /// The environment variable of `key`: the prefix, then the key in upper case.
    pub open spec fn env_value(self, key: Seq<char>) -> Option<Seq<char>> {
        self.env_var(self.env_prefix + upper_key(key))
    }

    /// The lookup of `key` as `T`, with `env` the value of its environment
    /// variable, can be made: a stored value it reaches can be read as `T`,
    /// and so can a default argument value that would be cached.
    pub open spec fn defined<T: ConfigValue>(self, key: Seq<char>, env: Option<Seq<char>>) -> bool {
        if self.cache_use && self.cache.contains_key(key) {
            T::read(self.cache[key]) is Some
        } else {
            match self.source(key, env) {
                Source::Override(v) => T::read(v) is Some,
                Source::Clap(t) => T::read(ValueView::Str(t)) is Some,
                Source::Config(v) => T::read(v) is Some,
                Source::ClapDefault(t) => !self.cache_use || T::parse(t) is Some,
                Source::Default(v) => T::read(v) is Some,
                _ => true,
            }
        }
    }

    /// The result of looking up `key` as `T`: the cached value when caching
    /// holds one, else the value of its source.
    pub open spec fn lookup<T: ConfigValue>(self, key: Seq<char>, env: Option<Seq<char>>) -> Option<
        T::V,
    > {
        if self.cache_use && self.cache.contains_key(key) {
            T::read(self.cache[key])
        } else {
            typed::<T>(self.source(key, env))
        }
    }

    /// The state after looking up `key` as `T`: with caching on, a value
    /// found outside the cache is cached.
    pub open spec fn after_get<T: ConfigValue>(
        self,
        key: Seq<char>,
        env: Option<Seq<char>>,
    ) -> ViperusView {
        if self.cache_use && !self.cache.contains_key(key) && self.lookup::<T>(key, env) is Some {
            ViperusView {
                cache: self.cache.insert(key, T::stored(self.lookup::<T>(key, env)->0)),
                ..self
            }
        } else {
            self
        }
    }

    /// The map that content `content` of a file of format `format` gives,
    /// if it loads: for `ENV` the variables of the process (the file having
    /// been loaded into them), for java properties the pairs of its lines,
    /// for JSON, TOML and YAML the flattened document of its UTF-8 text.
    pub open spec fn content_map(self, format: Format, content: Seq<u8>) -> Option<
        Map<Seq<char>, ValueView>,
    > {
        match format {
            Format::Auto => None,
            Format::ENV => Some(self.env),
            Format::JAVAPROPERTIES => {
                let scan = properties_lines(content);
                if scan.1 {
                    None
                } else {
                    Some(pairs_map(text_pairs(line_pairs(scan.0))))
                }
            },
            _ => if valid_utf8(content) {
                text_document(format, decode_utf8(content))
            } else {
                None
            },
        }
    }

    /// Loading file `name`: whether it succeeds, and the state after it. On
    /// success its map is merged into the configuration, its values winning,
    /// and the file is recorded; on failure nothing changes.
    pub open spec fn load_outcome(self, name: Seq<char>, format: Format, content: Seq<u8>) -> (
        bool,
        ViperusView,
    ) {
        match self.content_map(format, content) {
            Some(m) => (
                true,
                ViperusView {
                    config: self.config.union_prefer_right(m),
                    loaded: self.loaded.push((name, format)),
                    ..self
                },
            ),
            None => (false, self),
        }
    }

    /// The state when a reload starts: no configuration, and an empty cache
    /// when caching is on.
    pub open spec fn cleared(self) -> ViperusView {
        ViperusView {
            config: Map::empty(),
            cache: if self.cache_use {
                Map::empty()
            } else {
                self.cache
            },
            ..self
        }
    }

    /// Reloading the first `n` of `files` from `contents` (a missing file is
    /// skipped): whether every file loaded, and the configuration built from
    /// none by merging the map of each file in order. It stops at the first
    /// file that fails to load.
    pub open spec fn reload_from(
        self,
        files: Seq<(Seq<char>, Format)>,
        contents: Seq<Option<Seq<u8>>>,
        n: nat,
    ) -> (bool, Map<Seq<char>, ValueView>)
        decreases n,
    {
        if n == 0 {
            (true, Map::empty())
        } else {
            let before = self.reload_from(files, contents, (n - 1) as nat);
            if !before.0 {
                before
            } else {
                match contents[n - 1] {
                    Some(c) => match self.content_map(files[n - 1].1, c) {
                        Some(m) => (true, before.1.union_prefer_right(m)),
                        None => (false, before.1),
                    },
                    None => before,
                }
            }
        }
    }
}

/// A failed reload stays failed.
proof fn lemma_reload_failed(
    v: ViperusView,
    files: Seq<(Seq<char>, Format)>,
    contents: Seq<Option<Seq<u8>>>,
    k: nat,
    n: nat,
)
    requires
        k <= n,
        !v.reload_from(files, contents, k).0,
    ensures
        v.reload_from(files, contents, n) == v.reload_from(files, contents, k),
    decreases n,
{
    if k < n {
        lemma_reload_failed(v, files, contents, k, (n - 1) as nat);
    }
}

/// The map that file `j` of `files` gives from its content in `contents`,
/// if the file is there and loads.
pub open spec fn file_map(
    v: ViperusView,
    files: Seq<(Seq<char>, Format)>,
    contents: Seq<Option<Seq<u8>>>,
    j: int,
) -> Option<Map<Seq<char>, ValueView>> {
    match contents[j] {
        Some(c) => v.content_map(files[j].1, c),
        None => None,
    }
}

/// A successful reload of the first `n` files reloaded every file that is
/// there.
proof fn lemma_reload_ok_prefix(
    v: ViperusView,
    files: Seq<(Seq<char>, Format)>,
    contents: Seq<Option<Seq<u8>>>,
    n: nat,
)
    requires
        n > 0,
        v.reload_from(files, contents, n).0,
    ensures
        v.reload_from(files, contents, (n - 1) as nat).0,
        contents[n - 1] is Some ==> file_map(v, files, contents, n - 1) is Some,
{
}

/// After a successful reload, a key takes its value from the last file that
/// holds it, as when the files were loaded one after another, each later
/// file winning over the earlier ones.
pub proof fn law_reload_later_file_wins(
    v: ViperusView,
    files: Seq<(Seq<char>, Format)>,
    contents: Seq<Option<Seq<u8>>>,
    n: nat,
    j: int,
    k: Seq<char>,
)
    requires
        v.reload_from(files, contents, n).0,
        0 <= j < n,
        file_map(v, files, contents, j) is Some,
        file_map(v, files, contents, j)->0.contains_key(k),
        forall|j2: int|
            j < j2 < n && #[trigger] file_map(v, files, contents, j2) is Some ==> !file_map(
                v,
                files,
                contents,
                j2,
            )->0.contains_key(k),
    ensures
        v.reload_from(files, contents, n).1.contains_key(k),
        v.reload_from(files, contents, n).1[k] == file_map(v, files, contents, j)->0[k],
    decreases n,
{
    lemma_reload_ok_prefix(v, files, contents, n);
    if n > j + 1 {
        law_reload_later_file_wins(v, files, contents, (n - 1) as nat, j, k);
        if contents[n - 1] is Some {
            assert(file_map(v, files, contents, n - 1) is Some);
        }
    }
}

/// After a reload, every key of the configuration comes from a file that
/// was reloaded.
pub proof fn law_reload_keys_from_files(
    v: ViperusView,
    files: Seq<(Seq<char>, Format)>,
    contents: Seq<Option<Seq<u8>>>,
    n: nat,
    k: Seq<char>,
)
    requires
        v.reload_from(files, contents, n).1.contains_key(k),
    ensures
        exists|j: int|
            0 <= j < n && #[trigger] file_map(v, files, contents, j) is Some && file_map(
                v,
                files,
                contents,
                j,
            )->0.contains_key(k),
    decreases n,
{
    if n > 0 {
        let before = v.reload_from(files, contents, (n - 1) as nat);
        if before.1.contains_key(k) {
            law_reload_keys_from_files(v, files, contents, (n - 1) as nat, k);
        } else {
            assert(file_map(v, files, contents, n - 1) is Some);
        }
    }
}

/// Whether `c` is an ASCII lower-case letter.
pub open spec fn is_ascii_lower(c: char) -> bool {
    97 <= (c as int) <= 122
}

/// The upper case of an ASCII character: a letter `a` to `z` becomes `A` to
/// `Z`, any other character stays.
pub open spec fn ascii_upper_char(c: char) -> char {
    if is_ascii_lower(c) {
        ((c as int) - 32) as char
    } else {
        c
    }
}

/// The upper case of one character: for ASCII as above, otherwise as
/// `str::to_uppercase` gives it.
pub open spec fn char_upper(c: char) -> Seq<char> {
    if (c as int) < 128 {
        seq![ascii_upper_char(c)]
    } else {
        to_upper(seq![c])
    }
}

/// The upper case of a key, character by character, as `str::to_uppercase`
/// makes it.
pub open spec fn upper_key(k: Seq<char>) -> Seq<char>
    decreases k.len(),
{
    if k.len() == 0 {
        Seq::empty()
    } else {
        upper_key(k.drop_last()) + char_upper(k.last())
    }
}

/// The environment variable of an ASCII key is named by the prefix and the
/// key with each letter `a` to `z` made `A` to `Z` and every other character
/// (`_`, digits, upper-case letters) kept, in place: one character for one.
pub proof fn law_env_name_ascii(v: ViperusView, key: Seq<char>)
    requires
        forall|i: int| 0 <= i < key.len() ==> (#[trigger] key[i] as int) < 128,
    ensures
        v.env_value(key) == v.env_var(v.env_prefix + upper_key(key)),
        upper_key(key).len() == key.len(),
        forall|i: int|
            0 <= i < key.len() ==> (#[trigger] upper_key(key)[i] as int) == if 97 <= (
            key[i] as int) <= 122 {
                (key[i] as int) - 32
            } else {
                key[i] as int
            },
    decreases key.len(),
{
    if key.len() > 0 {
        let k0 = key.drop_last();
        law_env_name_ascii(v, k0);
        assert((key.last() as int) < 128) by {
            assert(key.last() == key[key.len() - 1]);
        }
        assert forall|i: int| 0 <= i < key.len() implies (#[trigger] upper_key(key)[i] as int) == if 97
            <= (key[i] as int) <= 122 {
            (key[i] as int) - 32
        } else {
            key[i] as int
        } by {
            if i < key.len() - 1 {
                assert(key[i] == k0[i]);
                assert(upper_key(key)[i] == upper_key(k0)[i]);
            } else {
                assert(key[i] == key.last());
            }
        }
    }
}

/// The upper-case letter of an ASCII lower-case letter.
fn upper_letter(c: char) -> (r: &'static str)
    requires
        is_ascii_lower(c),
    ensures
        r@ == seq![ascii_upper_char(c)],
{
    match c {
        'a' => {
            proof {
                reveal_strlit("A");
            }
            "A"
        },
        'b' => {
            proof {
                reveal_strlit("B");
            }
            "B"
        },
        'c' => {
            proof {
                reveal_strlit("C");
            }
            "C"
        },
        'd' => {
            proof {
                reveal_strlit("D");
            }
            "D"
        },
        'e' => {
            proof {
                reveal_strlit("E");
            }
            "E"
        },
        'f' => {
            proof {
                reveal_strlit("F");
            }
            "F"
        },
        'g' => {
            proof {
                reveal_strlit("G");
            }
            "G"
        },
        'h' => {
            proof {
                reveal_strlit("H");
            }
            "H"
        },
        'i' => {
            proof {
                reveal_strlit("I");
            }
            "I"
        },
        'j' => {
            proof {
                reveal_strlit("J");
            }
            "J"
        },
        'k' => {
            proof {
                reveal_strlit("K");
            }
            "K"
        },
        'l' => {
            proof {
                reveal_strlit("L");
            }
            "L"
        },
        'm' => {
            proof {
                reveal_strlit("M");
            }
            "M"
        },
        'n' => {
            proof {
                reveal_strlit("N");
            }
            "N"
        },
        'o' => {
            proof {
                reveal_strlit("O");
            }
            "O"
        },
        'p' => {
            proof {
                reveal_strlit("P");
            }
            "P"
        },
        'q' => {
            proof {
                reveal_strlit("Q");
            }
            "Q"
        },
        'r' => {
            proof {
                reveal_strlit("R");
            }
            "R"
        },
        's' => {
            proof {
                reveal_strlit("S");
            }
            "S"
        },
        't' => {
            proof {
                reveal_strlit("T");
            }
            "T"
        },
        'u' => {
            proof {
                reveal_strlit("U");
            }
            "U"
        },
        'v' => {
            proof {
                reveal_strlit("V");
            }
            "V"
        },
        'w' => {
            proof {
                reveal_strlit("W");
            }
            "W"
        },
        'x' => {
            proof {
                reveal_strlit("X");
            }
            "X"
        },
        'y' => {
            proof {
                reveal_strlit("Y");
            }
            "Y"
        },
        'z' => {
            proof {
                reveal_strlit("Z");
            }
            "Z"
        },
        _ => {
            proof {
                reveal_strlit("Z");
            }
            "Z"
        },
    }
}

/// The upper case of `key`, character by character: ASCII characters here,
/// any other through `str::to_uppercase`.
fn key_upper(key: &str) -> (r: String)
    ensures
        r@ == upper_key(key@),
{
    let n: usize = key.unicode_len();
    let mut r: String = String::new();
    let mut i: usize = 0;
    while i < n
        invariant
            n == key@.len(),
            i <= n,
            r@ == upper_key(key@.take(i as int)),
        decreases n - i,
    {
        let c = key.get_char(i);
        let ghost before = r@;
        assert(key@.take(i + 1).drop_last() =~= key@.take(i as int));
        assert(key@.take(i + 1).last() == c);
        if (c as u32) < 128 {
            if (c as u32) >= 97 && (c as u32) <= 122 {
                r.append(upper_letter(c));
            } else {
                let one = key.substring_char(i, i + 1);
                assert(one@ =~= seq![c]);
                r.append(one);
            }
        } else {
            let one = key.substring_char(i, i + 1);
            assert(one@ =~= seq![c]);
            let up = upper_case(one);
            r.append(up.as_str());
        }
        assert(r@ =~= before + char_upper(c));
        i = i + 1;
    }
    assert(key@.take(n as int) =~= key@);
    r
}

/// The upper case of a text, as `str::to_uppercase` gives it.
pub uninterp spec fn to_upper(s: Seq<char>) -> Seq<char>;

/// `str::to_uppercase`: the upper case of `s`, named by [`to_upper`].
#[verifier::external_body]
fn upper_case(s: &str) -> (r: String)
    ensures
        r@ == to_upper(s@),
{
    s.to_uppercase()
}

/// A unified configuration facade.
///
/// Viperus manages configuration from files, the environment and command-line
/// parameters in a unified manner.
#[derive(Debug)]
pub struct Viperus {
    default_map: ViperusMap,
    config_map: ViperusMap,
    override_map: ViperusMap,
    clap_matches: ClapMatches,
    clap_bonds: Bonds,
    loaded_files: Vec<(String, Format)>,
    cache_map: ViperusMap,
    cache_use: bool,
    auto_env: bool,
    env_prefix: String,
    environment: ViperusMap,
}

pub open spec fn loaded_view(files: Seq<(String, Format)>) -> Seq<(Seq<char>, Format)> {
    files.map_values(|e: (String, Format)| (e.0@, e.1))
}

impl View for Viperus {
    type V = ViperusView;

    closed spec fn view(&self) -> ViperusView {
        ViperusView {
            defaults: self.default_map@,
            config: self.config_map@,
            overrides: self.override_map@,
            clap: self.clap_matches@,
            bonds: self.clap_bonds@,
            loaded: loaded_view(self.loaded_files@),
            cache: self.cache_map@,
            cache_use: self.cache_use,
            auto_env: self.auto_env,
            env_prefix: self.env_prefix@,
            env: self.environment@,
        }
    }
}

impl Viperus {
    /// An empty configuration: no layer holds a value, caching and the
    /// automatic environment are off.
    pub fn new() -> (v: Viperus)
        ensures
            v@.defaults == Map::<Seq<char>, ValueView>::empty(),
            v@.config == Map::<Seq<char>, ValueView>::empty(),
            v@.overrides == Map::<Seq<char>, ValueView>::empty(),
            v@.clap == Map::<Seq<char>, ArgView>::empty(),
            v@.bonds == Map::<Seq<char>, Seq<char>>::empty(),
            v@.loaded == Seq::<(Seq<char>, Format)>::empty(),
            v@.cache == Map::<Seq<char>, ValueView>::empty(),
            !v@.cache_use,
            !v@.auto_env,
            v@.env_prefix == Seq::<char>::empty(),
            v@.env == Map::<Seq<char>, ValueView>::empty(),
    {
        let v = Viperus {
            default_map: ViperusMap::new(),
            config_map: ViperusMap::new(),
            override_map: ViperusMap::new(),
            clap_matches: ClapMatches::new(),
            clap_bonds: Bonds::new(),
            loaded_files: Vec::new(),
            cache_map: ViperusMap::new(),
            cache_use: false,
            auto_env: false,
            env_prefix: String::new(),
            environment: ViperusMap::new(),
        };
        assert(loaded_view(v.loaded_files@) =~= Seq::<(Seq<char>, Format)>::empty());
        v
    }

    /// Brings in the command-line arguments; every argument is bound to the
    /// key of its own name.
    pub fn load_clap(&mut self, matches: ClapMatches) -> (r: Result<(), ViperusError>)
        ensures
            r is Ok,
            final(self)@ == (ViperusView {
                clap: matches@,
                bonds: old(self)@.bonds.union_prefer_right(
                    Map::new(|k: Seq<char>| matches@.contains_key(k), |k: Seq<char>| k),
                ),
                ..old(self)@
            }),
    {
        let names = matches.self_bonds();
        self.clap_bonds.extend(&names);
        proof {
            let s = text_bond_pairs(names@);
            lemma_insert_all_union(old(self)@.bonds, s);
            assert forall|k: Seq<char>| #[trigger] pairs_map(s).contains_key(k) implies pairs_map(
                s,
            )[k] == k by {
                lemma_self_pairs(s, k);
            }
            assert(pairs_map(s) =~= Map::new(
                |k: Seq<char>| matches@.contains_key(k),
                |k: Seq<char>| k,
            ));
        }
        self.clap_matches = matches;
        Ok(())
    }

    /// Reloads every loaded file, in order, from `contents` (what each file
    /// holds now; `None` for a file that does not exist any more, which is
    /// skipped; an `ENV` file gives the variables of the process). The
    /// configuration is rebuilt from none, and the cache is emptied when
    /// caching is on; the list of loaded files stays as it is. Stops at the
    /// first file that fails to load.
    pub fn reload(&mut self, contents: &Vec<Option<Vec<u8>>>) -> (r: Result<(), ViperusError>)
        requires
            contents@.len() == old(self)@.loaded.len(),
        ensures
            ({
                let outcome = old(self)@.reload_from(
                    old(self)@.loaded,
                    contents_view(contents@),
                    contents@.len(),
                );
                &&& r is Ok == outcome.0
                &&& final(self)@ == old(self)@.cleared().with_config(outcome.1)
            }),
    {
        let ghost start = self@;
        self.config_map.clear();
        if self.cache_use {
            self.cache_map.clear();
        }
        proof {
            assert(self@ == start.cleared());
        }
        let files = self.loaded_files();
        let n: usize = files.len();
        let mut i: usize = 0;
        while i < n
            invariant
                n == files@.len(),
                n == contents@.len(),
                i <= n,
                loaded_view(files@) == start.loaded,
                start == old(self)@,
                start.reload_from(start.loaded, contents_view(contents@), i as nat).0,
                self@ == start.cleared().with_config(
                    start.reload_from(start.loaded, contents_view(contents@), i as nat).1,
                ),
            decreases n - i,
        {
            assert(loaded_view(files@)[i as int] == (files@[i as int].0@, files@[i as int].1));
            assert(contents_view(contents@)[i as int] == match contents@[i as int] {
                Some(b) => Some(b@),
                None => None::<Seq<u8>>,
            });
            match &contents[i] {
                Some(c) => {
                    let loaded = self.load_content(files[i].1, c.as_slice());
                    match loaded {
                        Ok(()) => {},
                        Err(e) => {
                            proof {
                                lemma_reload_failed(
                                    start,
                                    start.loaded,
                                    contents_view(contents@),
                                    (i + 1) as nat,
                                    n as nat,
                                );
                            }
                            return Err(e);
                        },
                    }
                },
                None => {},
            }
            i = i + 1;
        }
        Ok(())
    }

    /// The loaded files with their formats, in order.
    pub fn loaded_files(&self) -> (r: Vec<(String, Format)>)
        ensures
            loaded_view(r@) == self@.loaded,
    {
        let mut r: Vec<(String, Format)> = Vec::new();
        let n: usize = self.loaded_files.len();
        let mut i: usize = 0;
        while i < n
            invariant
                n == self.loaded_files@.len(),
                i <= n,
                loaded_view(r@) == loaded_view(self.loaded_files@).take(i as int),
            decreases n - i,
        {
            let format: Format = self.loaded_files[i].1;
            r.push((self.loaded_files[i].0.clone(), format));
            proof {
                assert(loaded_view(r@).drop_last() =~= loaded_view(self.loaded_files@).take(i as int));
                assert(loaded_view(r@) =~= loaded_view(self.loaded_files@).take(i + 1));
            }
            i = i + 1;
        }
        assert(loaded_view(self.loaded_files@).take(n as int) =~= loaded_view(
            self.loaded_files@,
        ));
        r
    }

    /// The names of the loaded files, in order.
    pub fn loaded_file_names(&self) -> (r: Vec<String>)
        ensures
            r@.len() == self@.loaded.len(),
            forall|i: int| 0 <= i < r@.len() ==> #[trigger] r@[i]@ == self@.loaded[i].0,
    {
        let mut r: Vec<String> = Vec::new();
        let n: usize = self.loaded_files.len();
        let mut i: usize = 0;
        while i < n
            invariant
                n == self.loaded_files@.len(),
                i <= n,
                r@.len() == i,
                forall|j: int| 0 <= j < i ==> #[trigger] r@[j]@ == self.loaded_files@[j].0@,
            decreases n - i,
        {
            r.push(self.loaded_files[i].0.clone());
            i = i + 1;
        }
        r
    }

    /// Merges the map that `content`, the content of a file of format
    /// `format`, gives into the configuration (see
    /// [`ViperusView::content_map`]); on failure nothing changes.
    fn load_content(&mut self, format: Format, content: &[u8]) -> (r: Result<(), ViperusError>)
        ensures
            match old(self)@.content_map(format, content@) {
                Some(m) => r is Ok && final(self)@ == old(self)@.with_config(
                    old(self)@.config.union_prefer_right(m),
                ),
                None => r is Err && final(self)@ == old(self)@,
            },
            format == Format::Auto ==> (r matches Err(ViperusError::Generic(s)) && s@
                == "Format not implemented"@),
    {
        match format {
            Format::Auto => {
                let message: String = "Format not implemented".to_owned();
                Err(ViperusError::Generic(message))
            },
            Format::JAVAPROPERTIES => {
                let mut adt = JavaPropertiesAdapter::new();
                match adt.load_bytes(content) {
                    Ok(()) => {},
                    Err(e) => {
                        return Err(e);
                    },
                }
                proof {
                    lemma_insert_all_union(
                        Map::empty(),
                        text_pairs(line_pairs(properties_lines(content@).0)),
                    );
                    assert(Map::<Seq<char>, ValueView>::empty().union_prefer_right(
                        pairs_map(text_pairs(line_pairs(properties_lines(content@).0))),
                    ) =~= pairs_map(text_pairs(line_pairs(properties_lines(content@).0))));
                }
                let m = adt.get_map();
                self.config_map.merge(&m);
                Ok(())
            },
            Format::ENV => {
                self.config_map.merge(&self.environment);
                Ok(())
            },
            _ => {
                let text = match decode_text(content) {
                    Ok(t) => t,
                    Err(message) => {
                        return Err(ViperusError::Generic(message));
                    },
                };
                match format {
                    Format::JSON => {
                        let mut adt = JsonAdapter::new();
                        adt.load_str(text.as_str());
                        match adt.parse() {
                            Ok(()) => {},
                            Err(e) => {
                                return Err(e);
                            },
                        }
                        let m = adt.get_map();
                        self.config_map.merge(&m);
                        Ok(())
                    },
                    Format::TOML => {
                        let mut adt = TomlAdapter::new();
                        adt.load_str(text.as_str());
                        match adt.parse() {
                            Ok(()) => {},
                            Err(e) => {
                                return Err(e);
                            },
                        }
                        let m = adt.get_map();
                        self.config_map.merge(&m);
                        Ok(())
                    },
                    _ => {
                        let mut adt = YamlAdapter::new();
                        adt.load_str(text.as_str());
                        match adt.parse() {
                            Ok(()) => {},
                            Err(e) => {
                                return Err(e);
                            },
                        }
                        let m = adt.get_map();
                        self.config_map.merge(&m);
                        Ok(())
                    },
                }
            },
        }
    }

    /// Loads a configuration file of the given format from its content, and
    /// records it for reloading once it has loaded.
    ///
    /// For `ENV` the file must already be loaded into the process environment
    /// and that environment handed over ([`Viperus::set_environment`]);
    /// `content` is not read, and the variables of the process are loaded.
    /// A JSON, TOML or YAML file must be UTF-8; a TOML or YAML text that nests
    /// deeper than its parser can follow without overflowing the stack (see
    /// [`crate::depth`]) is refused. `Auto` is refused with
    /// `Generic("Format not implemented")`.
    pub fn load_file(&mut self, name: &str, format: Format, content: &[u8]) -> (r: Result<
        (),
        ViperusError,
    >)
        ensures
            (r is Ok, final(self)@) == old(self)@.load_outcome(name@, format, content@),
            format == Format::Auto ==> (r matches Err(ViperusError::Generic(s)) && s@
                == "Format not implemented"@),
    {
        let r = self.load_content(format, content);
        if r.is_ok() {
            self.loaded_files.push((name.to_owned(), format));
            proof {
                assert(loaded_view(self.loaded_files@) =~= old(self)@.loaded.push((name@, format)));
            }
        }
        r
    }

    /// Asks the adapter to parse its data, then merges its map into the
    /// configuration, the adapter's values winning. On a parse error nothing
    /// changes.
    pub fn load_adapter<A: ConfigAdapter>(&mut self, adt: &mut A) -> (r: Result<(), ViperusError>)
        ensures
            r is Ok ==> exists|m: ViperusMap|
                call_ensures(A::get_map, (&*final(adt),), m) && final(self)@ == old(
                    self,
                )@.with_config(old(self)@.config.union_prefer_right(m@)),
            r is Err ==> final(self)@ == old(self)@,
    {
        let parsed = adt.parse();
        if parsed.is_err() {
            return parsed;
        }
        let m = adt.get_map();
        self.merge_parsed(parsed, &m)
    }

    /// Completes the loading of an adapter from the result of its `parse` and
    /// its map: on `Ok` the map is merged into the configuration, the map's
    /// values winning; an error is returned as it is and changes nothing.
    pub fn merge_parsed(&mut self, parsed: AdapterResult<()>, map: &ViperusMap) -> (r:
        AdapterResult<()>)
        ensures
            r == parsed,
            parsed is Ok ==> final(self)@ == old(self)@.with_config(
                old(self)@.config.union_prefer_right(map@),
            ),
            parsed is Err ==> final(self)@ == old(self)@,
    {
        if parsed.is_ok() {
            self.config_map.merge(map);
            assert(self@ == old(self)@.with_config(old(self)@.config.union_prefer_right(map@)));
        }
        parsed
    }

    /// The name of the environment variable of `key`: the prefix, then the
    /// key in upper case.
    pub fn env_key(&self, key: &str) -> (r: String)
        ensures
            r@ == self@.env_prefix + upper_key(key@),
    {
        let upper = key_upper(key);
        let mut r: String = self.env_prefix.clone();
        r.append(upper.as_str());
        r
    }

    /// The value of `key` as `T`, by the sources in their order, without the cache.
    fn resolve<T: ConfigValue>(&self, key: &str, env_value: Option<String>) -> (r: Option<T>)
        requires
            match self@.source(key@, opt_str(env_value)) {
                Source::Override(v) => T::read(v) is Some,
                Source::Clap(t) => T::read(ValueView::Str(t)) is Some,
                Source::Config(v) => T::read(v) is Some,
                Source::Default(v) => T::read(v) is Some,
                _ => true,
            },
        ensures
            view_opt(r) == typed::<T>(self@.source(key@, opt_str(env_value))),
    {
        match self.override_map.get_value(key) {
            Some(v) => {
                return Some(T::from_value(v.duplicate()));
            },
            None => {},
        }
        let bond = self.clap_bonds.get(key);
        match &bond {
            Some(arg) => {
                if self.clap_matches.is_present(arg.as_str()) {
                    match self.clap_matches.value_of(arg.as_str()) {
                        Some(text) => {
                            return Some(T::from_value(ViperusValue::Str(text)));
                        },
                        None => {},
                    }
                }
            },
            None => {},
        }
        match self.config_map.get_value(key) {
            Some(v) => {
                return Some(T::from_value(v.duplicate()));
            },
            None => {},
        }
        if self.auto_env {
            match &env_value {
                Some(text) => {
                    return T::parse_text(text.as_str());
                },
                None => {},
            }
        }
        match &bond {
            Some(arg) => {
                if !self.clap_matches.is_present(arg.as_str()) {
                    match self.clap_matches.value_of(arg.as_str()) {
                        Some(text) => {
                            return T::parse_text(text.as_str());
                        },
                        None => {},
                    }
                }
            },
            None => {},
        }
        match self.default_map.get_value(key) {
            Some(v) => Some(T::from_value(v.duplicate())),
            None => None,
        }
    }

    /// Looks up `key` as `T`, `env_value` being the value of the environment
    /// variable of the key (see [`Viperus::env_key`]): the cached value when
    /// caching is on and holds one; else, in this order, an override, a
    /// command-line argument given, the configuration, the environment when
    /// automatic, the default of a command-line argument, a default. With
    /// caching on, a value found outside the cache is cached.
    pub fn get_with_env<T: ConfigValue>(&mut self, key: &str, env_value: Option<String>) -> (r:
        Option<T>)
        requires
            old(self)@.defined::<T>(key@, opt_str(env_value)),
        ensures
            view_opt(r) == old(self)@.lookup::<T>(key@, opt_str(env_value)),
            final(self)@ == old(self)@.after_get::<T>(key@, opt_str(env_value)),
    {
        if self.cache_use {
            match self.cache_map.get_value(key) {
                Some(v) => {
                    return Some(T::from_value(v.duplicate()));
                },
                None => {},
            }
        }
        let r: Option<T> = self.resolve(key, env_value);
        if self.cache_use {
            match &r {
                Some(x) => {
                    self.cache_map.add_value(key, x.as_value());
                },
                None => {},
            }
        }
        r
    }

    /// The text of the environment variable of `key`, if it is set.
    fn env_lookup(&self, key: &str) -> (r: Option<String>)
        ensures
            opt_str(r) == self@.env_value(key@),
    {
        let name = self.env_key(key);
        match self.environment.get_value(name.as_str()) {
            Some(ViperusValue::Str(text)) => Some(text.clone()),
            _ => None,
        }
    }

    /// Gets a configuration value of type `T`: as [`Viperus::get_with_env`],
    /// with the environment variable of the key (see [`Viperus::env_key`])
    /// read from the variables last handed over.
    pub fn get<T: ConfigValue>(&mut self, key: &str) -> (r: Option<T>)
        requires
            old(self)@.defined::<T>(key@, old(self)@.env_value(key@)),
        ensures
            view_opt(r) == old(self)@.lookup::<T>(key@, old(self)@.env_value(key@)),
            final(self)@ == old(self)@.after_get::<T>(key@, old(self)@.env_value(key@)),
    {
        let env_value = self.env_lookup(key);
        self.get_with_env(key, env_value)
    }

    /// Whether `get` can look `key` up as `T` (see [`ViperusView::defined`]).
    pub fn get_allowed<T: ConfigValue>(&self, key: &str) -> (r: bool)
        ensures
            r == self@.defined::<T>(key@, self@.env_value(key@)),
    {
        if self.cache_use {
            match self.cache_map.get_value(key) {
                Some(v) => {
                    return T::readable(v);
                },
                None => {},
            }
        }
        match self.override_map.get_value(key) {
            Some(v) => {
                return T::readable(v);
            },
            None => {},
        }
        let bond = self.clap_bonds.get(key);
        match &bond {
            Some(arg) => {
                if self.clap_matches.is_present(arg.as_str()) {
                    match self.clap_matches.value_of(arg.as_str()) {
                        Some(text) => {
                            return T::readable(&ViperusValue::Str(text));
                        },
                        None => {},
                    }
                }
            },
            None => {},
        }
        match self.config_map.get_value(key) {
            Some(v) => {
                return T::readable(v);
            },
            None => {},
        }
        if self.auto_env {
            match self.env_lookup(key) {
                Some(_) => {
                    return true;
                },
                None => {},
            }
        }
        match &bond {
            Some(arg) => {
                if !self.clap_matches.is_present(arg.as_str()) {
                    match self.clap_matches.value_of(arg.as_str()) {
                        Some(text) => {
                            return !self.cache_use || T::parse_text(text.as_str()).is_some();
                        },
                        None => {},
                    }
                }
            },
            None => {},
        }
        match self.default_map.get_value(key) {
            Some(v) => T::readable(v),
            None => true,
        }
    }

    /// Whether `add` can replace the override of `key` with a `T`: the
    /// override it replaces, if any, can be read as `T`.
    pub fn add_allowed<T: ConfigValue>(&self, key: &str) -> (r: bool)
        ensures
            r == (self@.overrides.contains_key(key@) ==> T::read(self@.overrides[key@]) is Some),
    {
        match self.override_map.get_value(key) {
            Some(v) => T::readable(v),
            None => true,
        }
    }

    /// Whether `add_default` can replace the default of `key` with a `T`:
    /// the default it replaces, if any, can be read as `T`.
    pub fn add_default_allowed<T: ConfigValue>(&self, key: &str) -> (r: bool)
        ensures
            r == (self@.defaults.contains_key(key@) ==> T::read(self@.defaults[key@]) is Some),
    {
        match self.default_map.get_value(key) {
            Some(v) => T::readable(v),
            None => true,
        }
    }

    /// Adds an override value; the key is made of components separated by dots.
    /// Returns the override it replaces, read as `T`.
    pub fn add<T: ConfigValue>(&mut self, key: &str, value: T) -> (r: Option<T>)
        requires
            old(self)@.overrides.contains_key(key@) ==> T::read(old(self)@.overrides[key@]) is Some,
        ensures
            final(self)@ == (ViperusView {
                overrides: old(self)@.overrides.insert(key@, T::stored(value@)),
                ..old(self)@
            }),
            r is Some <==> old(self)@.overrides.contains_key(key@),
            r matches Some(x) ==> T::read(old(self)@.overrides[key@]) == Some(x@),
    {
        self.override_map.add(key, value)
    }

    /// Binds configuration key `dst` to command-line argument `src`; returns
    /// the argument it was bound to before.
    pub fn bond_clap(&mut self, src: &str, dst: &str) -> (r: Option<String>)
        ensures
            final(self)@ == (ViperusView { bonds: old(self)@.bonds.insert(dst@, src@), ..old(self)@ }),
            opt_str(r) == (if old(self)@.bonds.contains_key(dst@) {
                Some(old(self)@.bonds[dst@])
            } else {
                None
            }),
    {
        self.clap_bonds.insert(dst, src)
    }

    /// Adds a default value; the key is made of components separated by dots.
    /// Returns the default it replaces, read as `T`.
    pub fn add_default<T: ConfigValue>(&mut self, key: &str, value: T) -> (r: Option<T>)
        requires
            old(self)@.defaults.contains_key(key@) ==> T::read(old(self)@.defaults[key@]) is Some,
        ensures
            final(self)@ == (ViperusView {
                defaults: old(self)@.defaults.insert(key@, T::stored(value@)),
                ..old(self)@
            }),
            r is Some <==> old(self)@.defaults.contains_key(key@),
            r matches Some(x) ==> T::read(old(self)@.defaults[key@]) == Some(x@),
    {
        self.default_map.add(key, value)
    }

    /// Turns the caching of lookups on or off; turning it on empties the cache.
    pub fn cache(&mut self, enable: bool)
        ensures
            final(self)@ == (ViperusView {
                cache_use: enable,
                cache: if enable {
                    Map::empty()
                } else {
                    old(self)@.cache
                },
                ..old(self)@
            }),
    {
        self.cache_use = enable;
        if enable {
            self.cache_map.clear();
        }
    }

    /// Whether lookups are cached.
    pub fn cache_enabled(&self) -> (r: bool)
        ensures
            r == self@.cache_use,
    {
        self.cache_use
    }

    /// Hands over the variables of the process, as name/value pairs: what
    /// `get` reads with the automatic environment on, and what loading an
    /// `ENV` file merges.
    pub fn set_environment(&mut self, vars: &Vec<(String, String)>)
        ensures
            final(self)@ == (ViperusView { env: pairs_map(text_pairs(vars@)), ..old(self)@ }),
    {
        self.environment = text_pairs_map(vars);
    }

    /// Whether `get` reads environment variables.
    pub fn automatic_env_enabled(&self) -> (r: bool)
        ensures
            r == self@.auto_env,
    {
        self.auto_env
    }

    /// Turns on or off the lookup of environment variables by `get`.
    pub fn automatic_env(&mut self, enable: bool)
        ensures
            final(self)@ == (ViperusView { auto_env: enable, ..old(self)@ }),
    {
        self.auto_env = enable;
    }

    /// Sets the prefix of the environment variables looked up by `get`.
    pub fn set_env_prefix(&mut self, prefix: &str)
        ensures
            final(self)@ == (ViperusView { env_prefix: prefix@, ..old(self)@ }),
    {
        self.env_prefix = prefix.to_owned();
    }
}

impl Default for Viperus {
    fn default() -> (v: Viperus)
        ensures
            v@.defaults == Map::<Seq<char>, ValueView>::empty(),
            v@.config == Map::<Seq<char>, ValueView>::empty(),
            v@.overrides == Map::<Seq<char>, ValueView>::empty(),
            v@.clap == Map::<Seq<char>, ArgView>::empty(),
            v@.bonds == Map::<Seq<char>, Seq<char>>::empty(),
            v@.loaded == Seq::<(Seq<char>, Format)>::empty(),
            v@.cache == Map::<Seq<char>, ValueView>::empty(),
            !v@.cache_use,
            !v@.auto_env,
            v@.env_prefix == Seq::<char>::empty(),
            v@.env == Map::<Seq<char>, ValueView>::empty(),
    {
        Viperus::new()
    }
}

/// In a map built from pairs that bind every key to itself, a key is bound
/// to itself.
proof fn lemma_self_pairs(s: Seq<(Seq<char>, Seq<char>)>, k: Seq<char>)
    requires
        forall|i: int| 0 <= i < s.len() ==> #[trigger] s[i].0 == s[i].1,
        pairs_map(s).contains_key(k),
    ensures
        pairs_map(s)[k] == k,
    decreases s.len(),
{
    if s.len() > 0 {
        assert(s.last() == s[s.len() - 1]);
        if s.last().0 != k {
            assert forall|i: int| 0 <= i < s.drop_last().len() implies #[trigger] s.drop_last()[i].0
                == s.drop_last()[i].1 by {
                assert(s.drop_last()[i] == s[i]);
            }
            lemma_self_pairs(s.drop_last(), k);
        }
    }
}

} // verus!
