//! YAML documents as yaml-rust2 parses them, and the reads the crow config
//! makes of them: a mapping looked up by a string key (a missing key or a
//! node that is no mapping reads as a bad value), strings, string pairs and
//! string lists.
use vstd::prelude::*;
use crate::text::str_eq;
use yaml_rust2::Yaml;

verus! {

/// A parsed YAML node, one variant per variant of `yaml_rust2::Yaml`; a
/// mapping keeps its entries in document order, each key once.
pub enum YamlNode {
    Real(String),
    Integer(i64),
    Str(String),
    Boolean(bool),
    Array(Vec<YamlNode>),
    Hash(Vec<(YamlNode, YamlNode)>),
    Alias(usize),
    Null,
    BadValue,
}

#[verifier::external_type_specification]
#[verifier::external_body]
pub struct ExYaml(Yaml);

/// The first document yaml-rust2 reads from `text`; `None` when the text
/// does not parse or holds no document.
pub uninterp spec fn yaml_first_document(text: Seq<char>) -> Option<YamlNode>;

/// Whether yaml-rust2 accepts `text` as a YAML stream.
pub uninterp spec fn yaml_accepts(text: Seq<char>) -> bool;

/// One parsed node as the library's `YamlNode`, variant for variant (the
/// conversion of `load_first_yaml_document`'s result).
#[verifier::external_body]
fn node_from_yaml(y: &Yaml) -> YamlNode {
    match y {
        Yaml::Real(s) => YamlNode::Real(s.clone()),
        Yaml::Integer(i) => YamlNode::Integer(*i),
        Yaml::String(s) => YamlNode::Str(s.clone()),
        Yaml::Boolean(b) => YamlNode::Boolean(*b),
        Yaml::Array(items) => YamlNode::Array(items.iter().map(node_from_yaml).collect()),
        Yaml::Hash(map) => YamlNode::Hash(map.iter().map(|(k, v)| (node_from_yaml(k), node_from_yaml(v))).collect()),
        Yaml::Alias(n) => YamlNode::Alias(*n),
        Yaml::Null => YamlNode::Null,
        Yaml::BadValue => YamlNode::BadValue,
    }
}

/// `YamlLoader::load_from_str(text)` and its first document. The contract
/// names the result `yaml_first_document(text)`, and states that a document
/// comes only from text the parser accepts; which texts it accepts and what
/// it makes of them are not stated.
#[verifier::external_body]
pub(crate) fn load_first_yaml_document(text: &str) -> (r: Option<YamlNode>)
    ensures
        r == yaml_first_document(text@),
        r is Some ==> yaml_accepts(text@),
{
    yaml_rust2::YamlLoader::load_from_str(text).ok()?.first().map(node_from_yaml)
}

/// `YamlLoader::load_from_str(text).is_ok()`. The contract names the outcome:
/// the same text is always accepted or always refused; which texts the parser
/// accepts is not stated.
#[verifier::external_body]
pub(crate) fn yaml_loads(text: &str) -> (ok: bool)
    ensures
        ok == yaml_accepts(text@),
{
    yaml_rust2::YamlLoader::load_from_str(text).is_ok()
}

/// The value stored under the string key `key` among mapping entries.
pub open spec fn hash_lookup(entries: Seq<(YamlNode, YamlNode)>, key: Seq<char>) -> Option<YamlNode>
    decreases entries.len(),
{
    if entries.len() == 0 {
        None
    } else if entries[0].0 matches YamlNode::Str(k) && k@ == key {
        Some(entries[0].1)
    } else {
        hash_lookup(entries.drop_first(), key)
    }
}

/// `node[key]`: the value under the string key in a mapping; a bad value
/// when the key is missing or the node is no mapping.
pub open spec fn index(node: YamlNode, key: Seq<char>) -> YamlNode {
    match node {
        YamlNode::Hash(m) => match hash_lookup(m@, key) {
            Some(v) => v,
            None => YamlNode::BadValue,
        },
        _ => YamlNode::BadValue,
    }
}

/// `Yaml::as_str`.
pub open spec fn str_of(node: YamlNode) -> Option<Seq<char>> {
    match node {
        YamlNode::Str(s) => Some(s@),
        _ => None,
    }
}

/// The entries whose key and value are both strings, in order.
pub open spec fn pairs_of(entries: Seq<(YamlNode, YamlNode)>) -> Seq<(Seq<char>, Seq<char>)>
    decreases entries.len(),
{
    if entries.len() == 0 {
        Seq::empty()
    } else {
        let rest = pairs_of(entries.drop_last());
        match (str_of(entries.last().0), str_of(entries.last().1)) {
            (Some(k), Some(v)) => rest.push((k, v)),
            _ => rest,
        }
    }
}

/// The string pairs of a mapping; none for anything else.
pub open spec fn str_pairs(node: YamlNode) -> Seq<(Seq<char>, Seq<char>)> {
    match node {
        YamlNode::Hash(m) => pairs_of(m@),
        _ => Seq::empty(),
    }
}

/// The string items of a list, in order.
pub open spec fn strings_of(items: Seq<YamlNode>) -> Seq<Seq<char>>
    decreases items.len(),
{
    if items.len() == 0 {
        Seq::empty()
    } else {
        let rest = strings_of(items.drop_last());
        match str_of(items.last()) {
            Some(s) => rest.push(s),
            None => rest,
        }
    }
}

/// The string items of a list; none for anything else.
pub open spec fn str_list(node: YamlNode) -> Seq<Seq<char>> {
    match node {
        YamlNode::Array(v) => strings_of(v@),
        _ => Seq::empty(),
    }
}

impl YamlNode {
    /// `node[key]`, by reference.
    pub fn get<'a>(&'a self, key: &str) -> (r: &'a YamlNode)
        ensures
            *r == index(*self, key@),
    {
        match self {
            YamlNode::Hash(m) => {
                let mut i: usize = 0;
                assert(m@.skip(0) =~= m@);
                while i < m.len()
                    invariant
                        i <= m.len(),
                        index(*self, key@) == match hash_lookup(m@, key@) {
                            Some(v) => v,
                            None => YamlNode::BadValue,
                        },
                        hash_lookup(m@, key@) == hash_lookup(m@.skip(i as int), key@),
                    decreases m.len() - i,
                {
                    assert(m@.skip(i as int)[0] == m@[i as int]);
                    assert(m@.skip(i as int).drop_first() =~= m@.skip(i + 1));
                    match &m[i].0 {
                        YamlNode::Str(k) => {
                            if str_eq(k.as_str(), key) {
                                assert(hash_lookup(m@.skip(i as int), key@) == Some(m@[i as int].1));
                                return &m[i].1;
                            }
                        },
                        _ => {},
                    }
                    i = i + 1;
                }
                assert(m@.skip(i as int) =~= Seq::<(YamlNode, YamlNode)>::empty());
                &YamlNode::BadValue
            },
            _ => &YamlNode::BadValue,
        }
    }

    /// `Yaml::as_str`.
    pub fn as_str(&self) -> (r: Option<&str>)
        ensures
            match r {
                Some(s) => str_of(*self) == Some(s@),
                None => str_of(*self) is None,
            },
    {
        match self {
            YamlNode::Str(s) => Some(s.as_str()),
            _ => None,
        }
    }

    /// The entries whose key and value are both strings.
    pub fn string_pairs(&self) -> (r: Vec<(String, String)>)
        ensures
            r@.map_values(|p: (String, String)| (p.0@, p.1@)) == str_pairs(*self),
    {
        let mut out: Vec<(String, String)> = Vec::new();
        match self {
            YamlNode::Hash(m) => {
                let mut i: usize = 0;
                while i < m.len()
                    invariant
                        i <= m.len(),
                        out@.map_values(|p: (String, String)| (p.0@, p.1@)) == pairs_of(m@.take(i as int)),
                    decreases m.len() - i,
                {
                    assert(m@.take(i + 1).drop_last() =~= m@.take(i as int));
                    let ghost before = out@;
                    match (m[i].0.as_str(), m[i].1.as_str()) {
                        (Some(k), Some(v)) => {
                            out.push((k.to_owned(), v.to_owned()));
                            assert(out@.map_values(|p: (String, String)| (p.0@, p.1@)) =~= before.map_values(
                                |p: (String, String)| (p.0@, p.1@),
                            ).push((k@, v@)));
                        },
                        _ => {},
                    }
                    i = i + 1;
                }
                assert(m@.take(m.len() as int) =~= m@);
            },
            _ => {
                assert(out@.map_values(|p: (String, String)| (p.0@, p.1@)) =~= Seq::empty());
            },
        }
        out
    }

    /// The string items of a list.
    pub fn string_list(&self) -> (r: Vec<String>)
        ensures
            r@.map_values(|s: String| s@) == str_list(*self),
    {
        let mut out: Vec<String> = Vec::new();
        match self {
            YamlNode::Array(v) => {
                let mut i: usize = 0;
                while i < v.len()
                    invariant
                        i <= v.len(),
                        out@.map_values(|s: String| s@) == strings_of(v@.take(i as int)),
                    decreases v.len() - i,
                {
                    assert(v@.take(i + 1).drop_last() =~= v@.take(i as int));
                    let ghost before = out@;
                    match v[i].as_str() {
                        Some(s) => {
                            out.push(s.to_owned());
                            assert(out@.map_values(|s: String| s@) =~= before.map_values(|s: String| s@).push(s@));
                        },
                        None => {},
                    }
                    i = i + 1;
                }
                assert(v@.take(v.len() as int) =~= v@);
            },
            _ => {
                assert(out@.map_values(|s: String| s@) =~= Seq::empty());
            },
        }
        out
    }
}

} // verus!
