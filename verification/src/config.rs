//! Command-line configuration: conversion profiles read from TOML.
use vstd::prelude::*;
use vstd::string::*;

use crate::prompt::{insert_spec, ConversionProfile, StringMap};
use crate::text::{copy_str, opt_view, str_eq};

verus! {

/// A value of a profile's TOML configuration, as far as profiles read it: a string, a table
/// whose values are strings or something else, or something else.
pub enum ConfigValue {
    Str(String),
    Table(Vec<(String, Option<String>)>),
    Other,
}

/// The mathematical value of a configuration value.
pub ghost enum ConfigView {
    Str(Seq<char>),
    Table(Seq<(Seq<char>, Option<Seq<char>>)>),
    Other,
}

/// The mathematical value of a configuration value.
pub open spec fn config_value_view(v: ConfigValue) -> ConfigView {
    match v {
        ConfigValue::Str(s) => ConfigView::Str(s@),
        ConfigValue::Table(t) => ConfigView::Table(
            t@.map_values(|e: (String, Option<String>)| (e.0@, opt_view(e.1))),
        ),
        ConfigValue::Other => ConfigView::Other,
    }
}

/// The mathematical value of the entries of a configuration.
pub open spec fn config_entries_view(es: Seq<(String, ConfigValue)>) -> Seq<(Seq<char>, ConfigView)> {
    es.map_values(|e: (String, ConfigValue)| (e.0@, config_value_view(e.1)))
}

/// The top-level entries of the TOML document `text`, in the order in which a `toml::Table`
/// lists them, or the parser's error message.
pub uninterp spec fn toml_entries(text: Seq<char>) -> Result<Seq<(Seq<char>, ConfigView)>, Seq<char>>;

/// `text.parse::<toml::Table>()`, with the values read as `ConfigValue`s: names the result.
#[verifier::external_body]
fn parse_config(text: &str) -> (r: Result<Vec<(String, ConfigValue)>, String>)
    ensures
        match r {
            Ok(es) => toml_entries(text@) == Ok::<Seq<(Seq<char>, ConfigView)>, Seq<char>>(
                config_entries_view(es@),
            ),
            Err(e) => toml_entries(text@) == Err::<Seq<(Seq<char>, ConfigView)>, Seq<char>>(e@),
        },
{
    match text.parse::<toml::Table>() {
        Ok(t) => Ok(t.into_iter().map(|(k, v)| (k, match v {
            toml::Value::String(s) => ConfigValue::Str(s),
            toml::Value::Table(m) => ConfigValue::Table(m.into_iter().map(|(k2, v2)| (k2, match v2 {
                toml::Value::String(s2) => Some(s2),
                _ => None,
            })).collect()),
            _ => ConfigValue::Other,
        })).collect()),
        Err(e) => Err(e.to_string()),
    }
}

/// The value of the first entry named `key`.
pub open spec fn entry_value(es: Seq<(Seq<char>, ConfigView)>, key: Seq<char>) -> Option<ConfigView>
    decreases es.len(),
{
    if es.len() == 0 {
        None
    } else if es[0].0 == key {
        Some(es[0].1)
    } else {
        entry_value(es.drop_first(), key)
    }
}

/// The mappings after inserting, in order, each string-valued entry of `table` into `ps`.
pub open spec fn with_mappings(
    ps: Seq<(Seq<char>, Seq<char>)>,
    table: Seq<(Seq<char>, Option<Seq<char>>)>,
) -> Seq<(Seq<char>, Seq<char>)>
    decreases table.len(),
{
    if table.len() == 0 {
        ps
    } else {
        let prev = with_mappings(ps, table.drop_last());
        match table.last().1 {
            Some(v) => insert_spec(prev, table.last().0, v),
            None => prev,
        }
    }
}

/// The mappings read from the entry named `key`: those of its table, or none.
pub open spec fn mappings_of(es: Seq<(Seq<char>, ConfigView)>, key: Seq<char>) -> Seq<
    (Seq<char>, Seq<char>),
> {
    match entry_value(es, key) {
        Some(ConfigView::Table(t)) => with_mappings(Seq::empty(), t),
        _ => Seq::empty(),
    }
}

/// The instructions read from the entry `additional_instructions`: its string, or none.
pub open spec fn instructions_of(es: Seq<(Seq<char>, ConfigView)>) -> Seq<char> {
    match entry_value(es, "additional_instructions"@) {
        Some(ConfigView::Str(s)) => s,
        _ => Seq::empty(),
    }
}

/// Whether `p` is the profile named `name` made from the configuration entries `es`.
pub open spec fn is_profile_from(p: ConversionProfile, name: Seq<char>, es: Seq<(Seq<char>, ConfigView)>) -> bool {
    &&& p.name@ == name
    &&& p.additional_instructions@ == instructions_of(es)
    &&& p.type_mappings.pairs() == mappings_of(es, "type_mappings"@)
    &&& p.api_mappings.pairs() == mappings_of(es, "api_mappings"@)
}

fn find_entry<'a>(es: &'a Vec<(String, ConfigValue)>, key: &str) -> (r: Option<&'a ConfigValue>)
    ensures
        match entry_value(config_entries_view(es@), key@) {
            Some(v) => r matches Some(x) && config_value_view(*x) == v,
            None => r is None,
        },
{
    let ghost ev = config_entries_view(es@);
    let mut i: usize = 0;
    assert(ev.skip(0) =~= ev);
    while i < es.len()
        invariant
            i <= es@.len(),
            ev == config_entries_view(es@),
            entry_value(ev, key@) == entry_value(ev.skip(i as int), key@),
        decreases es@.len() - i,
    {
        assert(ev.skip(i as int)[0] == (es@[i as int].0@, config_value_view(es@[i as int].1)));
        if str_eq(es[i].0.as_str(), key) {
            return Some(&es[i].1);
        }
        assert(ev.skip(i as int).drop_first() =~= ev.skip(i + 1));
        i = i + 1;
    }
    None
}

fn mappings_from(v: Option<&ConfigValue>) -> (r: StringMap)
    ensures
        r.pairs() == match v {
            Some(x) => match config_value_view(*x) {
                ConfigView::Table(t) => with_mappings(Seq::empty(), t),
                _ => Seq::empty(),
            },
            None => Seq::<(Seq<char>, Seq<char>)>::empty(),
        },
{
    let mut m = StringMap::new();
    match v {
        Some(ConfigValue::Table(t)) => {
            let ghost tv = t@.map_values(|e: (String, Option<String>)| (e.0@, opt_view(e.1)));
            let mut i: usize = 0;
            while i < t.len()
                invariant
                    i <= t@.len(),
                    tv == t@.map_values(|e: (String, Option<String>)| (e.0@, opt_view(e.1))),
                    m.pairs() == with_mappings(Seq::empty(), tv.take(i as int)),
                decreases t@.len() - i,
            {
                assert(tv.take(i + 1).drop_last() =~= tv.take(i as int));
                match &t[i].1 {
                    Some(value) => {
                        m.insert(copy_str(t[i].0.as_str()), copy_str(value.as_str()));
                    },
                    None => {},
                }
                i = i + 1;
            }
            assert(tv.take(t@.len() as int) =~= tv);
        },
        _ => {},
    }
    m
}

/// The profile named `name` made from the entries of its configuration: the string under
/// `additional_instructions`, and the string-valued entries of the tables `type_mappings` and
/// `api_mappings`, inserted in order.
pub fn profile_from_entries(name: &str, es: &Vec<(String, ConfigValue)>) -> (r: ConversionProfile)
    ensures
        is_profile_from(r, name@, config_entries_view(es@)),
{
    let additional = match find_entry(es, "additional_instructions") {
        Some(ConfigValue::Str(s)) => copy_str(s.as_str()),
        _ => String::new(),
    };
    let type_mappings = mappings_from(find_entry(es, "type_mappings"));
    let api_mappings = mappings_from(find_entry(es, "api_mappings"));
    ConversionProfile {
        name: copy_str(name),
        additional_instructions: additional,
        api_mappings,
        type_mappings,
    }
}

/// Loads the profile named `name` from the text of its configuration file, if there is one:
/// without one, the generic settings under that name; with one that does not parse, the
/// parser's message.
pub fn load_profile(name: &str, config: Option<&str>) -> (r: Result<ConversionProfile, String>)
    ensures
        match config {
            None => r matches Ok(p) && is_profile_from(p, name@, Seq::empty()),
            Some(text) => match toml_entries(text@) {
                Ok(es) => r matches Ok(p) && is_profile_from(p, name@, es),
                Err(e) => r matches Err(m) && m@ == e,
            },
        },
{
    match config {
        None => {
            let es: Vec<(String, ConfigValue)> = Vec::new();
            assert(config_entries_view(es@) =~= Seq::<(Seq<char>, ConfigView)>::empty());
            Ok(profile_from_entries(name, &es))
        },
        Some(text) => match parse_config(text) {
            Ok(es) => Ok(profile_from_entries(name, &es)),
            Err(e) => Err(e),
        },
    }
}

} // verus!
