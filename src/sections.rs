//! EDS text as a sequence of named sections of key/value properties.

use vstd::prelude::*;

use crate::text::str_eq;

verus! {

#[verifier::external_type_specification]
#[verifier::external_body]
pub struct ExIniParseError(ini::ParseError);

/// One section of the text: its name (`None` for keys before the first header) and its
/// properties in the order written.
#[derive(Debug)]
pub struct Section {
    pub name: Option<String>,
    pub props: Vec<(String, String)>,
}

/// Properties with keys and values as character sequences.
pub open spec fn props_view(p: Seq<(String, String)>) -> Seq<(Seq<char>, Seq<char>)> {
    p.map_values(|kv: (String, String)| (kv.0@, kv.1@))
}

pub open spec fn section_view(s: Section) -> (Option<Seq<char>>, Seq<(Seq<char>, Seq<char>)>) {
    (
        match s.name {
            Some(n) => Some(n@),
            None => None,
        },
        props_view(s.props@),
    )
}

/// The sections that the INI reader finds in a text, or `None` where it reports a
/// syntax error.
pub uninterp spec fn ini_sections(text: Seq<char>) -> Option<
    Seq<(Option<Seq<char>>, Seq<(Seq<char>, Seq<char>)>)>,
>;

/// Relies on `ini::Ini::load_from_str` for reading the text, and on the iterators of
/// `ini::Ini` and `ini::Properties`, which hand out sections and key/value pairs in the
/// order in which they were read.
#[verifier::external_body]
pub(crate) fn load_sections(text: &str) -> (r: Result<Vec<Section>, ini::ParseError>)
    ensures
        r is Ok <==> ini_sections(text@) is Some,
        r matches Ok(v) ==> v@.map_values(|s: Section| section_view(s)) == ini_sections(
            text@,
        )->0,
{
    let ini = ini::Ini::load_from_str(text)?;
    Ok(ini.iter().map(|(name, props)| Section {
        name: name.map(String::from),
        props: props.iter().map(|(k, v)| (k.to_string(), v.to_string())).collect(),
    }).collect())
}

/// The value of the first property at or after position `i` whose key is `key`.
pub open spec fn prop_from(p: Seq<(Seq<char>, Seq<char>)>, key: Seq<char>, i: int) -> Option<
    Seq<char>,
>
    decreases p.len() - i,
{
    if i < 0 || i >= p.len() {
        None
    } else if p[i].0 == key {
        Some(p[i].1)
    } else {
        prop_from(p, key, i + 1)
    }
}

/// The value of a property: the first one written under `key`.
pub open spec fn prop_of(p: Seq<(Seq<char>, Seq<char>)>, key: Seq<char>) -> Option<Seq<char>> {
    prop_from(p, key, 0)
}

/// Looks a property up by key; the first one written wins.
pub fn prop_get<'a>(props: &'a Vec<(String, String)>, key: &str) -> (r: Option<&'a String>)
    ensures
        match prop_of(props_view(props@), key@) {
            Some(v) => r is Some && r->0@ == v,
            None => r is None,
        },
{
    let ghost p = props_view(props@);
    let mut i: usize = 0;
    while i < props.len()
        invariant
            p == props_view(props@),
            i <= props@.len(),
            prop_from(p, key@, 0) == prop_from(p, key@, i as int),
        decreases props@.len() - i,
    {
        assert(p[i as int] == (props@[i as int].0@, props@[i as int].1@));
        if str_eq(props[i].0.as_str(), key) {
            return Some(&props[i].1);
        }
        i = i + 1;
    }
    None
}

} // verus!
