//! Adapters: the sources of configuration maps (dotenv, java properties,
//! JSON, TOML, YAML).
use vstd::prelude::*;

use crate::map::ViperusMap;
use crate::pairs::{insert_all, lemma_insert_all_append, lemma_insert_all_push, pairs_map};
use crate::parse::{
    json_object, parse_json_object, parse_toml_table, parse_yaml_mapping, toml_document,
    yaml_document, TOML_DEPTH_LIMIT, YAML_DEPTH_LIMIT,
};
use crate::depth::{toml_depth_within, yaml_depth_within};
use crate::tree::{flat_map, flatten_document, ConfigTree, Dialect};
use crate::value::{ValueView, ViperusValue};
use crate::ViperusError;
use vstd::utf8::{decode_utf8, valid_utf8};

verus! {

/// The result of an adapter operation.
pub type AdapterResult<T> = Result<T, ViperusError>;

/// ConfigAdapter mediates between a configuration format and Viperus.
pub trait ConfigAdapter {
    /// Creates the internal representation of the configuration source.
    fn parse(&mut self) -> (r: AdapterResult<()>);

    /// A key/value map of the configuration.
    fn get_map(&self) -> (m: ViperusMap);
}

/// The pairs of `s` with text values.
pub open spec fn text_pairs(s: Seq<(String, String)>) -> Seq<(Seq<char>, ValueView)> {
    s.map_values(|e: (String, String)| (e.0@, ValueView::Str(e.1@)))
}

/// The map of key/text pairs, a later pair overriding an earlier one.
pub(crate) fn text_pairs_map(data: &Vec<(String, String)>) -> (m: ViperusMap)
    ensures
        m@ == pairs_map(text_pairs(data@)),
{
    let mut m = ViperusMap::new();
    let n: usize = data.len();
    let mut i: usize = 0;
    while i < n
        invariant
            n == data@.len(),
            i <= n,
            m@ == pairs_map(text_pairs(data@.take(i as int))),
        decreases n - i,
    {
        let key = data[i].0.as_str();
        let value = ViperusValue::Str(data[i].1.clone());
        m.add_value(key, value);
        proof {
            assert(text_pairs(data@.take(i + 1)) =~= text_pairs(data@.take(i as int)).push(
                (data@[i as int].0@, ValueView::Str(data@[i as int].1@)),
            ));
            lemma_insert_all_push(
                Map::empty(),
                text_pairs(data@.take(i as int)),
                data@[i as int].0@,
                ValueView::Str(data@[i as int].1@),
            );
        }
        i = i + 1;
    }
    assert(data@.take(n as int) =~= data@);
    m
}

/// `std::str::from_utf8`, copied to a `String`: it succeeds exactly on valid
/// UTF-8 and then gives the decoded characters; an error is carried as its
/// message, which is not stated.
#[verifier::external_body]
pub(crate) fn decode_text(bytes: &[u8]) -> (r: Result<String, String>)
    ensures
        r is Ok <==> valid_utf8(bytes@),
        r matches Ok(s) ==> s@ == decode_utf8(bytes@),
{
    match std::str::from_utf8(bytes) {
        Ok(s) => Ok(s.to_owned()),
        Err(e) => Err(e.to_string()),
    }
}

/// EnvAdapter maps the variables of the process, once a dotenv file has been
/// loaded into them, to keys. The variables are handed to it by the program,
/// which reads the environment.
pub struct EnvAdapter {
    data: Vec<(String, String)>,
}

impl EnvAdapter {
    pub fn new() -> (a: EnvAdapter)
        ensures
            a.spec_map() == Map::<Seq<char>, ValueView>::empty(),
    {
        EnvAdapter { data: Vec::new() }
    }

    /// Takes `vars`, the variables of the process as name/value pairs, as
    /// the adapter's data; every variable becomes a key with a text value.
    pub fn load_vars(&mut self, vars: &Vec<(String, String)>)
        ensures
            final(self).spec_map() == pairs_map(text_pairs(vars@)),
    {
        let mut data: Vec<(String, String)> = Vec::new();
        let n: usize = vars.len();
        let mut i: usize = 0;
        while i < n
            invariant
                n == vars@.len(),
                i <= n,
                text_pairs(data@) == text_pairs(vars@.take(i as int)),
            decreases n - i,
        {
            let key = vars[i].0.clone();
            let value = vars[i].1.clone();
            let ghost before = data@;
            data.push((key, value));
            assert(data@ =~= before.push((key, value)));
            assert(text_pairs(data@) =~= text_pairs(before).push(
                (vars@[i as int].0@, ValueView::Str(vars@[i as int].1@)),
            ));
            assert(text_pairs(vars@.take(i + 1)) =~= text_pairs(vars@.take(i as int)).push(
                (vars@[i as int].0@, ValueView::Str(vars@[i as int].1@)),
            ));
            i = i + 1;
        }
        assert(vars@.take(n as int) =~= vars@);
        self.data = data;
    }
}

impl EnvAdapter {
    /// The key/value map the adapter presents.
    pub closed spec fn spec_map(&self) -> Map<Seq<char>, ValueView> {
        pairs_map(text_pairs(self.data@))
    }
}

impl ConfigAdapter for EnvAdapter {
    /// The variables were read when they were handed over; parsing them
    /// always succeeds and changes nothing.
    fn parse(&mut self) -> (r: AdapterResult<()>)
        ensures
            r is Ok,
            final(self).spec_map() == old(self).spec_map(),
    {
        Ok(())
    }

    fn get_map(&self) -> (m: ViperusMap)
        ensures
            m@ == self.spec_map(),
    {
        text_pairs_map(&self.data)
    }
}

/// A line of a java properties file.
pub enum PropertyLine {
    Pair(String, String),
    Comment(String),
}

/// The lines of the java properties text `input` (read as ISO-8859-1) up to
/// the first malformed one, and whether there is a malformed one.
pub uninterp spec fn properties_lines(input: Seq<u8>) -> (Seq<PropertyLine>, bool);

/// Reads the lines of `input` with `java_properties::PropertiesIter`, stopping
/// at the first error as `PropertiesIter::read_into` does: the lines read
/// and whether an error came are those named by [`properties_lines`]; the
/// error is carried as its message, which is not stated.
#[verifier::external_body]
fn read_property_lines(input: &[u8]) -> (r: (Vec<PropertyLine>, Option<String>))
    ensures
        (r.0@, r.1 is Some) == properties_lines(input@),
{
    let mut lines = Vec::new();
    for line in java_properties::PropertiesIter::new(input) {
        match line {
            Ok(l) => lines.push(match l.consume_content() {
                java_properties::LineContent::KVPair(k, v) => PropertyLine::Pair(k, v),
                java_properties::LineContent::Comment(c) => PropertyLine::Comment(c),
            }),
            Err(e) => return (lines, Some(e.to_string())),
        }
    }
    (lines, None)
}

/// The key/value pairs of a sequence of property lines, in order.
pub open spec fn line_pairs(lines: Seq<PropertyLine>) -> Seq<(String, String)>
    decreases lines.len(),
{
    if lines.len() == 0 {
        Seq::empty()
    } else {
        match lines.last() {
            PropertyLine::Pair(k, v) => line_pairs(lines.drop_last()).push((k, v)),
            PropertyLine::Comment(_) => line_pairs(lines.drop_last()),
        }
    }
}

/// JavaPropertiesAdapter maps the pairs of a java properties file to keys.
pub struct JavaPropertiesAdapter {
    data: Vec<(String, String)>,
}

impl JavaPropertiesAdapter {
    pub fn new() -> (a: JavaPropertiesAdapter)
        ensures
            a.spec_map() == Map::<Seq<char>, ValueView>::empty(),
    {
        JavaPropertiesAdapter { data: Vec::new() }
    }

    /// Adds the pairs of the properties text `input`; on a malformed line the
    /// pairs before it are kept and an error is returned.
    pub fn load_bytes(&mut self, input: &[u8]) -> (r: AdapterResult<()>)
        ensures
            final(self).spec_map() == insert_all(
                old(self).spec_map(),
                text_pairs(line_pairs(properties_lines(input@).0)),
            ),
            r is Err <==> properties_lines(input@).1,
    {
        let (lines, failure) = read_property_lines(input);
        let ghost start = self.data@;
        let n: usize = lines.len();
        let mut i: usize = 0;
        while i < n
            invariant
                n == lines@.len(),
                i <= n,
                self.data@ == start + line_pairs(lines@.take(i as int)),
            decreases n - i,
        {
            assert(lines@.take(i + 1).drop_last() =~= lines@.take(i as int));
            match &lines[i] {
                PropertyLine::Pair(k, v) => {
                    self.data.push((k.clone(), v.clone()));
                },
                PropertyLine::Comment(_) => {},
            }
            i = i + 1;
        }
        proof {
            assert(lines@.take(n as int) =~= lines@);
            let added = line_pairs(lines@);
            assert(text_pairs(start + added) =~= text_pairs(start) + text_pairs(added));
            lemma_insert_all_append(Map::empty(), text_pairs(start), text_pairs(added));
        }
        match failure {
            Some(message) => Err(ViperusError::Generic(message)),
            None => Ok(()),
        }
    }
}

impl JavaPropertiesAdapter {
    /// The key/value map the adapter presents.
    pub closed spec fn spec_map(&self) -> Map<Seq<char>, ValueView> {
        pairs_map(text_pairs(self.data@))
    }
}

impl ConfigAdapter for JavaPropertiesAdapter {
    fn parse(&mut self) -> (r: AdapterResult<()>)
        ensures
            r is Ok,
            final(self).spec_map() == old(self).spec_map(),
    {
        Ok(())
    }

    fn get_map(&self) -> (m: ViperusMap)
        ensures
            m@ == self.spec_map(),
    {
        text_pairs_map(&self.data)
    }
}

/// JsonAdapter maps a JSON object to keys; nested objects give dotted keys.
pub struct JsonAdapter {
    source: String,
    data: Vec<(ConfigTree, ConfigTree)>,
}

impl JsonAdapter {
    /// The text last loaded.
    pub closed spec fn source_text(&self) -> Seq<char> {
        self.source@
    }

    pub fn new() -> (a: JsonAdapter)
        ensures
            a.spec_map() == Map::<Seq<char>, ValueView>::empty(),
            a.source_text() == Seq::<char>::empty(),
    {
        let a = JsonAdapter { source: String::new(), data: Vec::new() };
        assert(a.spec_map() =~= Map::<Seq<char>, ValueView>::empty());
        a
    }

    pub fn load_str(&mut self, source: &str) -> (r: AdapterResult<()>)
        ensures
            r is Ok,
            final(self).source_text() == source@,
            final(self).spec_map() == old(self).spec_map(),
    {
        self.source = source.to_owned();
        Ok(())
    }
}

impl JsonAdapter {
    /// The key/value map the adapter presents.
    pub closed spec fn spec_map(&self) -> Map<Seq<char>, ValueView> {
        flat_map(Dialect::Json, self.data@)
    }
}

impl ConfigAdapter for JsonAdapter {
    /// Parses the loaded text; on an error the map is left as it was.
    fn parse(&mut self) -> (r: AdapterResult<()>)
        ensures
            final(self).source_text() == old(self).source_text(),
            r is Ok <==> json_object(old(self).source_text()) is Some,
            r is Ok ==> final(self).spec_map() == flat_map(
                Dialect::Json,
                json_object(old(self).source_text())->0,
            ),
            r is Err ==> final(self).spec_map() == old(self).spec_map(),
    {
        match parse_json_object(self.source.as_str()) {
            Ok(es) => {
                self.data = es;
                Ok(())
            },
            Err(message) => Err(ViperusError::Generic(message)),
        }
    }

    fn get_map(&self) -> (m: ViperusMap)
        ensures
            m@ == self.spec_map(),
    {
        flatten_document(Dialect::Json, &self.data)
    }
}

/// TomlAdapter maps a TOML document to keys; nested tables give dotted keys.
pub struct TomlAdapter {
    source: String,
    data: Vec<(ConfigTree, ConfigTree)>,
}

impl TomlAdapter {
    /// The text last loaded.
    pub closed spec fn source_text(&self) -> Seq<char> {
        self.source@
    }

    pub fn new() -> (a: TomlAdapter)
        ensures
            a.spec_map() == Map::<Seq<char>, ValueView>::empty(),
            a.source_text() == Seq::<char>::empty(),
    {
        let a = TomlAdapter { source: String::new(), data: Vec::new() };
        assert(a.spec_map() =~= Map::<Seq<char>, ValueView>::empty());
        a
    }

    /// Takes `source` as the text to parse.
    pub fn load_str(&mut self, source: &str) -> (r: AdapterResult<()>)
        ensures
            r is Ok,
            final(self).source_text() == source@,
            final(self).spec_map() == old(self).spec_map(),
    {
        self.source = source.to_owned();
        Ok(())
    }

    /// Reads `source` to its end and takes what it yields as the text to
    /// parse; the bytes must be UTF-8. On success all of `source` is
    /// consumed; on an error the text is left empty and `source` as it was.
    pub fn load(&mut self, source: &mut &[u8]) -> (r: AdapterResult<()>)
        ensures
            r is Ok <==> valid_utf8(old(source)@),
            r is Ok ==> final(self).source_text() == decode_utf8(old(source)@),
            r is Ok ==> final(source)@.len() == 0,
            r is Err ==> final(self).source_text() == Seq::<char>::empty(),
            r is Err ==> final(source)@ == old(source)@,
            final(self).spec_map() == old(self).spec_map(),
    {
        match decode_text(*source) {
            Ok(text) => {
                self.source = text;
                *source = &[];
                Ok(())
            },
            Err(message) => {
                self.source = String::new();
                Err(ViperusError::Generic(message))
            },
        }
    }

}

impl TomlAdapter {
    /// The key/value map the adapter presents.
    pub closed spec fn spec_map(&self) -> Map<Seq<char>, ValueView> {
        flat_map(Dialect::Toml, self.data@)
    }
}

impl ConfigAdapter for TomlAdapter {
    /// Parses the loaded text; on an error the map is left as it was. A text
    /// that nests deeper than [`TOML_DEPTH_LIMIT`] (see
    /// [`crate::depth::toml_depth`]) is refused.
    fn parse(&mut self) -> (r: AdapterResult<()>)
        ensures
            final(self).source_text() == old(self).source_text(),
            r is Ok <==> toml_document(old(self).source_text()) is Some,
            r is Ok ==> final(self).spec_map() == flat_map(
                Dialect::Toml,
                toml_document(old(self).source_text())->0,
            ),
            r is Err ==> final(self).spec_map() == old(self).spec_map(),
    {
        if !toml_depth_within(self.source.as_str(), TOML_DEPTH_LIMIT) {
            return Err(ViperusError::Generic("TOML text nests too deeply".to_owned()));
        }
        match parse_toml_table(self.source.as_str()) {
            Ok(es) => {
                self.data = es;
                Ok(())
            },
            Err(message) => Err(ViperusError::Generic(message)),
        }
    }

    fn get_map(&self) -> (m: ViperusMap)
        ensures
            m@ == self.spec_map(),
    {
        flatten_document(Dialect::Toml, &self.data)
    }
}

/// YamlAdapter maps a YAML mapping to keys; nested mappings give dotted keys.
pub struct YamlAdapter {
    source: String,
    data: Vec<(ConfigTree, ConfigTree)>,
}

impl YamlAdapter {
    /// The text last loaded.
    pub closed spec fn source_text(&self) -> Seq<char> {
        self.source@
    }

    pub fn new() -> (a: YamlAdapter)
        ensures
            a.spec_map() == Map::<Seq<char>, ValueView>::empty(),
            a.source_text() == Seq::<char>::empty(),
    {
        let a = YamlAdapter { source: String::new(), data: Vec::new() };
        assert(a.spec_map() =~= Map::<Seq<char>, ValueView>::empty());
        a
    }

    /// Takes `source` as the text to parse.
    pub fn load_str(&mut self, source: &str) -> (r: AdapterResult<()>)
        ensures
            r is Ok,
            final(self).source_text() == source@,
            final(self).spec_map() == old(self).spec_map(),
    {
        self.source = source.to_owned();
        Ok(())
    }

    /// Reads `source` to its end and takes what it yields as the text to
    /// parse; the bytes must be UTF-8. On success all of `source` is
    /// consumed; on an error the text is left empty and `source` as it was.
    pub fn load(&mut self, source: &mut &[u8]) -> (r: AdapterResult<()>)
        ensures
            r is Ok <==> valid_utf8(old(source)@),
            r is Ok ==> final(self).source_text() == decode_utf8(old(source)@),
            r is Ok ==> final(source)@.len() == 0,
            r is Err ==> final(self).source_text() == Seq::<char>::empty(),
            r is Err ==> final(source)@ == old(source)@,
            final(self).spec_map() == old(self).spec_map(),
    {
        match decode_text(*source) {
            Ok(text) => {
                self.source = text;
                *source = &[];
                Ok(())
            },
            Err(message) => {
                self.source = String::new();
                Err(ViperusError::Generic(message))
            },
        }
    }

}

impl YamlAdapter {
    /// The key/value map the adapter presents.
    pub closed spec fn spec_map(&self) -> Map<Seq<char>, ValueView> {
        flat_map(Dialect::Yaml, self.data@)
    }
}

impl ConfigAdapter for YamlAdapter {
    /// Parses the loaded text; on an error the map is left as it was. A text
    /// that nests deeper than [`YAML_DEPTH_LIMIT`] (see
    /// [`crate::depth::yaml_depth`]) is refused.
    fn parse(&mut self) -> (r: AdapterResult<()>)
        ensures
            final(self).source_text() == old(self).source_text(),
            r is Ok <==> yaml_document(old(self).source_text()) is Some,
            r is Ok ==> final(self).spec_map() == flat_map(
                Dialect::Yaml,
                yaml_document(old(self).source_text())->0,
            ),
            r is Err ==> final(self).spec_map() == old(self).spec_map(),
    {
        if !yaml_depth_within(self.source.as_str(), YAML_DEPTH_LIMIT) {
            return Err(ViperusError::Generic("YAML text nests too deeply".to_owned()));
        }
        match parse_yaml_mapping(self.source.as_str()) {
            Ok(es) => {
                self.data = es;
                Ok(())
            },
            Err(message) => Err(ViperusError::Generic(message)),
        }
    }

    fn get_map(&self) -> (m: ViperusMap)
        ensures
            m@ == self.spec_map(),
    {
        flatten_document(Dialect::Yaml, &self.data)
    }
}

} // verus!
