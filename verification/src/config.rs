//! The blog's configuration, read from its `mublog.toml` file.
//!
//! The configuration text is parsed by an outside TOML library; what the
//! build logic reads from it is modeled here as plain values: a document is
//! a list of named entries whose values are strings, integers, booleans,
//! arrays or nested tables.  All lookups and their error messages are
//! specified exactly over that model.

use vstd::prelude::*;
use crate::error::BlogError;
use crate::features::{
    FeatureConfig, NavbarConfig, PostSortingOrder, PostlistingConfig, TagSortingOrder,
};
use crate::text::str_eq;

verus! {

/// A TOML value, as far as the configuration reader looks at one.  Values
/// of kinds the reader never accepts (dates, floats, inline structure it
/// does not touch) are `Other`.
#[derive(Debug)]
pub enum TomlValue {
    Str(String),
    Int(i64),
    Bool(bool),
    Array(Vec<TomlValue>),
    Table(Vec<(String, TomlValue)>),
    Other,
}

/// A parsed TOML document: its top-level entries, in order.
#[derive(Debug)]
pub struct TomlDoc {
    pub entries: Vec<(String, TomlValue)>,
}

/// The first entry named `key`, if any.
pub open spec fn doc_lookup(entries: Seq<(String, TomlValue)>, key: Seq<char>) -> Option<
    TomlValue,
>
    decreases entries.len(),
{
    if entries.len() == 0 {
        None
    } else if entries[0].0@ == key {
        Some(entries[0].1)
    } else {
        doc_lookup(entries.drop_first(), key)
    }
}

/// The blog's settings: author, copyright year, contact address, and the
/// enabled features in order.
#[derive(Debug)]
pub struct BlogConfig {
    pub blog_author: String,
    pub blog_copyright_year: i64,
    pub blog_email: String,
    pub features: Vec<FeatureConfig>,
}

impl Default for BlogConfig {
    /// An empty configuration: no author, year zero, no features.
    fn default() -> (r: BlogConfig)
        ensures
            r.blog_author@ == Seq::<char>::empty(),
            r.blog_copyright_year == 0,
            r.blog_email@ == Seq::<char>::empty(),
            r.features@ == Seq::<FeatureConfig>::empty(),
    {
        BlogConfig {
            blog_author: String::new(),
            blog_copyright_year: 0,
            blog_email: String::new(),
            features: Vec::new(),
        }
    }
}

pub open spec fn no_table_msg(table: Seq<char>) -> Seq<char> {
    "Config does not contain table '"@ + table + "'"@
}

pub open spec fn no_key_msg(key: Seq<char>, table: Seq<char>) -> Seq<char> {
    "Config does not contain key '"@ + key + "' in table '"@ + table + "'"@
}

pub open spec fn wrong_type_msg(key: Seq<char>, table: Seq<char>, kind: Seq<char>) -> Seq<char> {
    "Key '"@ + key + "' in table '"@ + table + "' is not of type "@ + kind
}

pub open spec fn bad_elem_msg(key: Seq<char>, table: Seq<char>) -> Seq<char> {
    "Element in array '"@ + key + "' in table '"@ + table + "' is not of type string"@
}

/// The value at `key` inside the table `table` of the document, or the
/// message of the lookup error: the table must exist and be a table, and
/// the key must exist in it.
pub open spec fn table_lookup(doc: &TomlDoc, table: Seq<char>, key: Seq<char>) -> Result<
    TomlValue,
    Seq<char>,
> {
    match doc_lookup(doc.entries@, table) {
        None => Err(no_table_msg(table)),
        Some(t) => match t {
            TomlValue::Table(entries) => match doc_lookup(entries@, key) {
                None => Err(no_key_msg(key, table)),
                Some(v) => Ok(v),
            },
            _ => Err(no_table_msg(table)),
        },
    }
}

/// The first index of a non-string element, if any.
pub open spec fn find_non_string(elems: Seq<TomlValue>) -> Option<int>
    decreases elems.len(),
{
    if elems.len() == 0 {
        None
    } else if !(elems[0] is Str) {
        Some(0)
    } else {
        match find_non_string(elems.drop_first()) {
            Some(i) => Some(i + 1),
            None => None,
        }
    }
}

impl TomlDoc {
    /// A document with no entries.
    pub fn new() -> (r: TomlDoc)
        ensures
            r.entries@ == Seq::<(String, TomlValue)>::empty(),
    {
        TomlDoc { entries: Vec::new() }
    }
}

proof fn lemma_doc_lookup_at(entries: Seq<(String, TomlValue)>, key: Seq<char>, i: int)
    requires
        0 <= i <= entries.len(),
        forall|k: int| 0 <= k < i ==> (#[trigger] entries[k]).0@ != key,
        i < entries.len() ==> entries[i].0@ == key,
    ensures
        i < entries.len() ==> doc_lookup(entries, key) == Some(entries[i].1),
        i == entries.len() ==> doc_lookup(entries, key) is None,
    decreases i,
{
    if i > 0 {
        let t = entries.drop_first();
        assert forall|k: int| 0 <= k < i - 1 implies (#[trigger] t[k]).0@ != key by {
            assert(t[k] == entries[k + 1]);
        }
        assert(i - 1 < t.len() ==> t[i - 1] == entries[i]);
        lemma_doc_lookup_at(t, key, i - 1);
    }
}

/// Looks up the first entry named `key`.
fn lookup_entry<'a>(entries: &'a Vec<(String, TomlValue)>, key: &str) -> (r: Option<
    &'a TomlValue,
>)
    ensures
        match r {
            Some(v) => doc_lookup(entries@, key@) == Some(*v),
            None => doc_lookup(entries@, key@) is None,
        },
{
    let mut i: usize = 0;
    while i < entries.len()
        invariant
            0 <= i <= entries@.len(),
            forall|k: int| 0 <= k < i ==> (#[trigger] entries@[k]).0@ != key@,
        decreases entries@.len() - i,
    {
        if str_eq(entries[i].0.as_str(), key) {
            proof {
                lemma_doc_lookup_at(entries@, key@, i as int);
            }
            return Some(&entries[i].1);
        }
        i = i + 1;
    }
    proof {
        lemma_doc_lookup_at(entries@, key@, entries@.len() as int);
    }
    None
}

/// Builds the lookup-error for a missing or malformed table.
fn no_table_error(table: &str) -> (r: BlogError)
    ensures
        r.wf(),
        r.chain() == seq![no_table_msg(table@)],
{
    let mut m = String::from_str("Config does not contain table '");
    m.append(table);
    m.append("'");
    proof {
        reveal_strlit("Config does not contain table '");
        reveal_strlit("'");
        assert(m@ =~= no_table_msg(table@));
    }
    BlogError::new(m)
}

/// Builds the lookup-error for a missing key.
fn no_key_error(key: &str, table: &str) -> (r: BlogError)
    ensures
        r.wf(),
        r.chain() == seq![no_key_msg(key@, table@)],
{
    let mut m = String::from_str("Config does not contain key '");
    m.append(key);
    m.append("' in table '");
    m.append(table);
    m.append("'");
    proof {
        reveal_strlit("Config does not contain key '");
        reveal_strlit("' in table '");
        reveal_strlit("'");
        assert(m@ =~= no_key_msg(key@, table@));
    }
    BlogError::new(m)
}

/// Builds the error for a value of the wrong type.
fn wrong_type_error(key: &str, table: &str, kind: &str) -> (r: BlogError)
    ensures
        r.wf(),
        r.chain() == seq![wrong_type_msg(key@, table@, kind@)],
{
    let mut m = String::from_str("Key '");
    m.append(key);
    m.append("' in table '");
    m.append(table);
    m.append("' is not of type ");
    m.append(kind);
    proof {
        reveal_strlit("Key '");
        reveal_strlit("' in table '");
        reveal_strlit("' is not of type ");
        assert(m@ =~= wrong_type_msg(key@, table@, kind@));
    }
    BlogError::new(m)
}

/// Looks up `key` inside the table `table`.
fn conf_get_value<'a>(doc: &'a TomlDoc, table: &str, key: &str) -> (r: Result<
    &'a TomlValue,
    BlogError,
>)
    ensures
        match r {
            Ok(v) => table_lookup(doc, table@, key@) == Ok::<TomlValue, Seq<char>>(*v),
            Err(e) => {
                &&& table_lookup(doc, table@, key@) matches Err(m)
                &&& e.wf()
                &&& e.chain() == seq![m]
            },
        },
{
    match lookup_entry(&doc.entries, table) {
        None => Err(no_table_error(table)),
        Some(t) => match t {
            TomlValue::Table(entries) => match lookup_entry(entries, key) {
                None => Err(no_key_error(key, table)),
                Some(v) => Ok(v),
            },
            _ => Err(no_table_error(table)),
        },
    }
}

/// Reads the string at `key` in the table `table`.  The table must exist,
/// the key must exist in it, and its value must be a string; each error
/// names what was missing or of the wrong type.
pub fn conf_get_string(doc: &TomlDoc, table: &str, key: &str) -> (r: Result<String, BlogError>)
    ensures
        match r {
            Ok(v) => (table_lookup(doc, table@, key@) matches Ok(TomlValue::Str(s)) && v@
                == s@),
            Err(e) => {
                &&& e.wf()
                &&& match table_lookup(doc, table@, key@) {
                    Err(m) => e.chain() == seq![m],
                    Ok(v) => !(v is Str) && e.chain() == seq![
                        wrong_type_msg(key@, table@, "string"@),
                    ],
                }
            },
        },
{
    match conf_get_value(doc, table, key) {
        Err(e) => Err(e),
        Ok(v) => match v {
            TomlValue::Str(s) => Ok(s.clone()),
            _ => Err(wrong_type_error(key, table, "string")),
        },
    }
}

/// Reads the integer at `key` in the table `table`.
pub fn conf_get_integer(doc: &TomlDoc, table: &str, key: &str) -> (r: Result<i64, BlogError>)
    ensures
        match r {
            Ok(v) => table_lookup(doc, table@, key@) == Ok::<TomlValue, Seq<char>>(
                TomlValue::Int(v),
            ),
            Err(e) => {
                &&& e.wf()
                &&& match table_lookup(doc, table@, key@) {
                    Err(m) => e.chain() == seq![m],
                    Ok(v) => !(v is Int) && e.chain() == seq![
                        wrong_type_msg(key@, table@, "integer"@),
                    ],
                }
            },
        },
{
    match conf_get_value(doc, table, key) {
        Err(e) => Err(e),
        Ok(v) => match v {
            TomlValue::Int(n) => Ok(*n),
            _ => Err(wrong_type_error(key, table, "integer")),
        },
    }
}

/// Reads the boolean at `key` in the table `table`.
pub fn conf_get_bool(doc: &TomlDoc, table: &str, key: &str) -> (r: Result<bool, BlogError>)
    ensures
        match r {
            Ok(v) => table_lookup(doc, table@, key@) == Ok::<TomlValue, Seq<char>>(
                TomlValue::Bool(v),
            ),
            Err(e) => {
                &&& e.wf()
                &&& match table_lookup(doc, table@, key@) {
                    Err(m) => e.chain() == seq![m],
                    Ok(v) => !(v is Bool) && e.chain() == seq![
                        wrong_type_msg(key@, table@, "bool"@),
                    ],
                }
            },
        },
{
    match conf_get_value(doc, table, key) {
        Err(e) => Err(e),
        Ok(v) => match v {
            TomlValue::Bool(b) => Ok(*b),
            _ => Err(wrong_type_error(key, table, "bool")),
        },
    }
}

/// Reads the array of strings at `key` in the table `table`.  The value
/// must be an array whose elements are all strings.
#[verifier::loop_isolation(false)]
pub fn conf_get_string_array(doc: &TomlDoc, table: &str, key: &str) -> (r: Result<
    Vec<String>,
    BlogError,
>)
    ensures
        match r {
            Ok(v) => (table_lookup(doc, table@, key@) matches Ok(TomlValue::Array(elems))
                && find_non_string(elems@) is None && v@.len() == elems@.len() && (forall|k: int|
                0 <= k < elems@.len() ==> ((#[trigger] elems@[k]) matches TomlValue::Str(s)
                    && v@[k]@ == s@))),
            Err(e) => {
                &&& e.wf()
                &&& match table_lookup(doc, table@, key@) {
                    Err(m) => e.chain() == seq![m],
                    Ok(v) => {
                        ||| !(v is Array) && e.chain() == seq![
                            wrong_type_msg(key@, table@, "array"@),
                        ]
                        ||| (v matches TomlValue::Array(elems) && find_non_string(elems@)
                            is Some && e.chain() == seq![bad_elem_msg(key@, table@)])
                    },
                }
            },
        },
{
    let v = match conf_get_value(doc, table, key) {
        Err(e) => {
            return Err(e);
        },
        Ok(v) => v,
    };
    match v {
        TomlValue::Array(elems) => {
            let mut strings: Vec<String> = Vec::new();
            let mut i: usize = 0;
            while i < elems.len()
                invariant
                    0 <= i <= elems@.len(),
                    strings@.len() == i,
                    forall|k: int|
                        0 <= k < i ==> ((#[trigger] elems@[k]) matches TomlValue::Str(s)
                            && strings@[k]@ == s@),
                decreases elems@.len() - i,
            {
                match &elems[i] {
                    TomlValue::Str(s) => {
                        strings.push(s.clone());
                    },
                    _ => {
                        let mut m = String::from_str("Element in array '");
                        m.append(key);
                        m.append("' in table '");
                        m.append(table);
                        m.append("' is not of type string");
                        proof {
                            reveal_strlit("Element in array '");
                            reveal_strlit("' in table '");
                            reveal_strlit("' is not of type string");
                            assert(m@ =~= bad_elem_msg(key@, table@));
                            lemma_find_non_string_at(elems@, i as int);
                        }
                        return Err(BlogError::new(m));
                    },
                }
                i = i + 1;
            }
            proof {
                lemma_find_non_string_at(elems@, elems@.len() as int);
            }
            Ok(strings)
        },
        _ => Err(wrong_type_error(key, table, "array")),
    }
}

pub open spec fn navbar_ctx_msg() -> Seq<char> {
    "Failed to parse feature configuration: feature-navbar"@
}

pub open spec fn postlisting_ctx_msg() -> Seq<char> {
    "Failed to parse feature configuration: feature-postlising"@
}

pub open spec fn bad_sort_msg() -> Seq<char> {
    "Invalid configuration for field: 'sort' in feature: 'feature-postlisting'"@
}

pub open spec fn invalid_feature_msg(name: Seq<char>) -> Seq<char> {
    "Invalid feature '"@ + name + "'"@
}

/// The navbar feature can be configured from the document: the
/// `feature-navbar` table holds a `links` array of strings.
pub open spec fn navbar_conf_ok(doc: &TomlDoc) -> bool {
    table_lookup(doc, "feature-navbar"@, "links"@) matches Ok(TomlValue::Array(es))
        && find_non_string(es@) is None
}

/// The post-listing feature can be configured from the document: the
/// `feature-postlisting` table holds an `order` string naming one of the
/// two sorting orders.
pub open spec fn postlisting_conf_ok(doc: &TomlDoc) -> bool {
    table_lookup(doc, "feature-postlisting"@, "order"@) matches Ok(TomlValue::Str(s)) && (s@
        == "oldestontop"@ || s@ == "newestontop"@)
}

/// A feature name of the `features` list is valid when it is `tags`, or
/// `navbar`/`postlisting` with a well-formed configuration table.
pub open spec fn feature_name_ok(doc: &TomlDoc, name: Seq<char>) -> bool {
    ||| name == "tags"@
    ||| (name == "navbar"@ && navbar_conf_ok(doc))
    ||| (name == "postlisting"@ && postlisting_conf_ok(doc))
}

/// The `features` list of the document is well-formed: it is an array of
/// strings in the `general` table, and every name is a valid feature name.
pub open spec fn features_wf(doc: &TomlDoc) -> bool {
    table_lookup(doc, "general"@, "features"@) matches Ok(TomlValue::Array(es))
        && find_non_string(es@) is None && (forall|k: int|
        0 <= k < es@.len() ==> ((#[trigger] es@[k]) matches TomlValue::Str(s)
            && feature_name_ok(doc, s@)))
}

/// The whole configuration is well-formed: the author and email strings,
/// the copyright-year integer, and a well-formed feature list.
pub open spec fn config_wf(doc: &TomlDoc) -> bool {
    &&& table_lookup(doc, "general"@, "blog_author"@) matches Ok(TomlValue::Str(s))
    &&& table_lookup(doc, "general"@, "blog_copyright_year"@) matches Ok(TomlValue::Int(n))
    &&& table_lookup(doc, "general"@, "blog_email"@) matches Ok(TomlValue::Str(s))
    &&& features_wf(doc)
}

/// The feature configuration a valid feature name denotes.
pub open spec fn feature_matches(doc: &TomlDoc, name: Seq<char>, f: FeatureConfig) -> bool {
    if name == "tags"@ {
        f is Tags
    } else if name == "navbar"@ {
        f matches FeatureConfig::Navbar(n) && (table_lookup(
            doc,
            "feature-navbar"@,
            "links"@,
        ) matches Ok(TomlValue::Array(es)) && n.links@.len() == es@.len() && (forall|k: int|
            0 <= k < es@.len() ==> ((#[trigger] es@[k]) matches TomlValue::Str(s)
                && n.links@[k]@ == s@)))
    } else if name == "postlisting"@ {
        f matches FeatureConfig::Postlisting(p) && (table_lookup(
            doc,
            "feature-postlisting"@,
            "order"@,
        ) matches Ok(TomlValue::Str(s)) && {
            &&& s@ == "oldestontop"@ ==> p.post_listing_order is OldestOnTop
            &&& s@ == "newestontop"@ ==> p.post_listing_order is NewestOnTop
            &&& p.tags_enabled == false
            &&& p.tag_listing_page@ == Seq::<char>::empty()
            &&& p.tag_listing_order is Count
            &&& p.post_listing_page@ == Seq::<char>::empty()
        })
    } else {
        false
    }
}

/// Parses the navbar feature's configuration: the `links` array of the
/// `feature-navbar` table.  A lookup failure is wrapped with a message
/// naming the feature.
pub fn parse_navbar_conf(doc: &TomlDoc) -> (r: Result<FeatureConfig, BlogError>)
    ensures
        match r {
            Ok(f) => navbar_conf_ok(doc) && feature_matches(doc, "navbar"@, f),
            Err(e) => !navbar_conf_ok(doc) && e.wf() && e.chain().len() == 2 && e.chain()[0]
                == navbar_ctx_msg(),
        },
{
    proof {
        reveal_strlit("tags");
        reveal_strlit("navbar");
        reveal_strlit("postlisting");
        assert("tags"@.len() == 4);
        assert("navbar"@.len() == 6);
        assert("postlisting"@.len() == 11);
    }
    match conf_get_string_array(doc, "feature-navbar", "links") {
        Ok(links) => Ok(FeatureConfig::Navbar(NavbarConfig { links })),
        Err(e) => Err(
            e.context(
                String::from_str("Failed to parse feature configuration: feature-navbar"),
            ),
        ),
    }
}

/// Parses the post-listing feature's configuration: the `order` string of
/// the `feature-postlisting` table, which must be `oldestontop` or
/// `newestontop`.  Only the sorting order is configurable; the other
/// fields start empty or off.
pub fn parse_postlisting_conf(doc: &TomlDoc) -> (r: Result<FeatureConfig, BlogError>)
    ensures
        match r {
            Ok(f) => postlisting_conf_ok(doc) && feature_matches(doc, "postlisting"@, f),
            Err(e) => {
                &&& !postlisting_conf_ok(doc)
                &&& e.wf()
                &&& match table_lookup(doc, "feature-postlisting"@, "order"@) {
                    Ok(v) => (v matches TomlValue::Str(s) && s@ != "oldestontop"@ && s@
                        != "newestontop"@ && e.chain() == seq![bad_sort_msg()]) || (!(v is Str)
                        && e.chain().len() == 2 && e.chain()[0] == postlisting_ctx_msg()),
                    Err(m) => e.chain() == seq![postlisting_ctx_msg(), m],
                }
            },
        },
{
    proof {
        reveal_strlit("tags");
        reveal_strlit("navbar");
        reveal_strlit("postlisting");
        assert("tags"@.len() == 4);
        assert("navbar"@.len() == 6);
        assert("postlisting"@.len() == 11);
        reveal_strlit("oldestontop");
        reveal_strlit("newestontop");
        assert("oldestontop"@[0] == 'o' && "newestontop"@[0] == 'n');
    }
    let cfgstr_order = match conf_get_string(doc, "feature-postlisting", "order") {
        Ok(s) => s,
        Err(e) => {
            return Err(
                e.context(
                    String::from_str(
                        "Failed to parse feature configuration: feature-postlising",
                    ),
                ),
            );
        },
    };
    let order = if str_eq(cfgstr_order.as_str(), "oldestontop") {
        PostSortingOrder::OldestOnTop
    } else if str_eq(cfgstr_order.as_str(), "newestontop") {
        PostSortingOrder::NewestOnTop
    } else {
        return Err(
            BlogError::new(
                String::from_str(
                    "Invalid configuration for field: 'sort' in feature: 'feature-postlisting'",
                ),
            ),
        );
    };
    Ok(
        FeatureConfig::Postlisting(
            PostlistingConfig {
                tags_enabled: false,
                tag_listing_page: String::new(),
                tag_listing_order: TagSortingOrder::Count,
                post_listing_page: String::new(),
                post_listing_order: order,
            },
        ),
    )
}

proof fn lemma_feature_breaks_wf(
    doc: &TomlDoc,
    es: Seq<TomlValue>,
    names: Seq<String>,
    i: int,
)
    requires
        0 <= i < names.len(),
        names.len() == es.len(),
        forall|k: int|
            0 <= k < names.len() ==> ((#[trigger] es[k]) matches TomlValue::Str(s)
                && names[k]@ == s@),
        !feature_name_ok(doc, names[i]@),
        table_lookup(doc, "general"@, "features"@) matches Ok(TomlValue::Array(ev)) && ev@
            == es,
    ensures
        !features_wf(doc),
{
    if features_wf(doc) {
        assert(es[i] matches TomlValue::Str(s) && feature_name_ok(doc, s@));
        assert(false);
    }
}

/// Parses the enabled features: the `features` array of strings in the
/// `general` table, each name one of `tags`, `navbar` or `postlisting`,
/// the latter two with their own configuration tables.  Exactly the
/// documents on which the array and every named feature's configuration
/// are well-formed yield a feature list.
#[verifier::loop_isolation(false)]
pub fn conf_get_features(doc: &TomlDoc) -> (r: Result<Vec<FeatureConfig>, BlogError>)
    ensures
        match r {
            Ok(v) => features_wf(doc) && (table_lookup(doc, "general"@, "features"@) matches Ok(
                TomlValue::Array(es),
            ) && v@.len() == es@.len() && (forall|k: int|
                0 <= k < es@.len() ==> ((#[trigger] es@[k]) matches TomlValue::Str(s)
                    && feature_matches(doc, s@, v@[k])))),
            Err(e) => e.wf() && !features_wf(doc),
        },
{
    proof {
        reveal_strlit("tags");
        reveal_strlit("navbar");
        reveal_strlit("postlisting");
        assert("tags"@.len() == 4);
        assert("navbar"@.len() == 6);
        assert("postlisting"@.len() == 11);
    }
    let names = match conf_get_string_array(doc, "general", "features") {
        Ok(v) => v,
        Err(e) => {
            return Err(e);
        },
    };
    let ghost es = table_lookup(doc, "general"@, "features"@)->Ok_0->Array_0;
    let mut features: Vec<FeatureConfig> = Vec::new();
    let mut i: usize = 0;
    while i < names.len()
        invariant
            0 <= i <= names@.len(),
            features@.len() == i,
            names@.len() == es@.len(),
            forall|k: int|
                0 <= k < names@.len() ==> ((#[trigger] es@[k]) matches TomlValue::Str(s)
                    && names@[k]@ == s@),
            forall|k: int|
                0 <= k < i ==> ((#[trigger] es@[k]) matches TomlValue::Str(s)
                    && feature_name_ok(doc, s@) && feature_matches(doc, s@, features@[k])),
        decreases names@.len() - i,
    {
        let name = &names[i];
        if str_eq(name.as_str(), "tags") {
            features.push(FeatureConfig::Tags);
            proof {
                assert(es@[i as int] is Str);
                let sv = es@[i as int]->Str_0;
                assert(names@[i as int]@ == sv@);
                assert(feature_name_ok(doc, sv@));
                assert(feature_matches(doc, sv@, features@[i as int]));
            }
        } else if str_eq(name.as_str(), "navbar") {
            match parse_navbar_conf(doc) {
                Ok(f) => {
                    features.push(f);
                    proof {
                        assert(es@[i as int] is Str);
                        let sv = es@[i as int]->Str_0;
                        assert(names@[i as int]@ == sv@);
                        assert(feature_name_ok(doc, sv@));
                        assert(feature_matches(doc, sv@, features@[i as int]));
                    }
                },
                Err(e) => {
                    proof {
                        lemma_feature_breaks_wf(doc, es@, names@, i as int);
                    }
                    return Err(
                        e.context(
                            String::from_str(
                                "Failed to parse configuration for NavbarFeature",
                            ),
                        ),
                    );
                },
            }
        } else if str_eq(name.as_str(), "postlisting") {
            match parse_postlisting_conf(doc) {
                Ok(f) => {
                    features.push(f);
                    proof {
                        assert(es@[i as int] is Str);
                        let sv = es@[i as int]->Str_0;
                        assert(names@[i as int]@ == sv@);
                        assert(feature_name_ok(doc, sv@));
                        assert(feature_matches(doc, sv@, features@[i as int]));
                    }
                },
                Err(e) => {
                    proof {
                        lemma_feature_breaks_wf(doc, es@, names@, i as int);
                    }
                    return Err(
                        e.context(
                            String::from_str(
                                "Failed to parse configuration for PostListingFeature",
                            ),
                        ),
                    );
                },
            }
        } else {
            let mut m = String::from_str("Invalid feature '");
            m.append(name.as_str());
            m.append("'");
            proof {
                reveal_strlit("Invalid feature '");
                reveal_strlit("'");
                assert(m@ =~= invalid_feature_msg(names@[i as int]@));
                lemma_feature_breaks_wf(doc, es@, names@, i as int);
            }
            return Err(BlogError::new(m));
        }
        i = i + 1;
    }
    Ok(features)
}

/// Parses the whole configuration: the author, copyright year and email
/// address from the `general` table, and the enabled features.  Each
/// retrieval failure is wrapped with a message naming the setting.
pub fn parse_config(doc: &TomlDoc) -> (r: Result<BlogConfig, BlogError>)
    ensures
        match r {
            Ok(c) => {
                &&& config_wf(doc)
                &&& (table_lookup(doc, "general"@, "blog_author"@) matches Ok(
                    TomlValue::Str(s),
                ) && c.blog_author@ == s@)
                &&& table_lookup(doc, "general"@, "blog_copyright_year"@) == Ok::<
                    TomlValue,
                    Seq<char>,
                >(TomlValue::Int(c.blog_copyright_year))
                &&& (table_lookup(doc, "general"@, "blog_email"@) matches Ok(
                    TomlValue::Str(s),
                ) && c.blog_email@ == s@)
                &&& table_lookup(doc, "general"@, "features"@) matches Ok(
                    TomlValue::Array(es),
                ) && find_non_string(es@) is None && c.features@.len() == es@.len() && (forall|
                    k: int,
                |
                    0 <= k < es@.len() ==> ((#[trigger] es@[k]) matches TomlValue::Str(s)
                        && feature_name_ok(doc, s@) && feature_matches(doc, s@, c.features@[k])))
            },
            Err(e) => e.wf() && e.chain().len() >= 2 && !config_wf(doc),
        },
{
    proof {
        reveal_strlit("tags");
        reveal_strlit("navbar");
        reveal_strlit("postlisting");
        assert("tags"@.len() == 4);
        assert("navbar"@.len() == 6);
        assert("postlisting"@.len() == 11);
    }
    let author = match conf_get_string(doc, "general", "blog_author") {
        Ok(v) => v,
        Err(e) => {
            return Err(
                e.context(
                    String::from_str(
                        "Failed to retrieve blog_author from mublog.toml config file",
                    ),
                ),
            );
        },
    };
    let year = match conf_get_integer(doc, "general", "blog_copyright_year") {
        Ok(v) => v,
        Err(e) => {
            return Err(
                e.context(
                    String::from_str(
                        "Failed to retrieve blog_copyright_year from mublog.toml config file",
                    ),
                ),
            );
        },
    };
    let email = match conf_get_string(doc, "general", "blog_email") {
        Ok(v) => v,
        Err(e) => {
            return Err(
                e.context(
                    String::from_str(
                        "Failed to retrieve blog_email from mublog.toml config file",
                    ),
                ),
            );
        },
    };
    let features = match conf_get_features(doc) {
        Ok(v) => v,
        Err(e) => {
            return Err(
                e.context(
                    String::from_str(
                        "Failed to retrieve features from mublog.toml config file",
                    ),
                ),
            );
        },
    };
    Ok(BlogConfig { blog_author: author, blog_copyright_year: year, blog_email: email, features })
}

proof fn lemma_find_non_string_at(elems: Seq<TomlValue>, i: int)
    requires
        0 <= i <= elems.len(),
        forall|k: int| 0 <= k < i ==> (#[trigger] elems[k]) is Str,
        i < elems.len() ==> !(elems[i] is Str),
    ensures
        i < elems.len() ==> find_non_string(elems) == Some(i),
        i == elems.len() ==> find_non_string(elems) is None,
    decreases i,
{
    if i > 0 {
        let t = elems.drop_first();
        assert forall|k: int| 0 <= k < i - 1 implies (#[trigger] t[k]) is Str by {
            assert(t[k] == elems[k + 1]);
        }
        assert(i - 1 < t.len() ==> t[i - 1] == elems[i]);
        lemma_find_non_string_at(t, i - 1);
    }
}

} // verus!
