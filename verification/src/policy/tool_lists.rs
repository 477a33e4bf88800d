use vstd::prelude::*;

use crate::policy::error::PolicyError;
use crate::policy::yaml::{mapping_get, spec_mapping_get, untagged, YamlValue};

verus! {

/// The allowed and denied tool names of a `tools` section, or the message that rejects it.
pub type ToolLists = Result<(Seq<Seq<char>>, Seq<Seq<char>>), Seq<char>>;

/// The message for a tool entry that is neither a string nor a mapping.
pub open spec fn bad_entry_msg() -> Seq<char> {
    "Tool entries must be strings or mappings"@
}

/// The message for a mapping entry without a string `name`.
pub open spec fn unnamed_entry_msg() -> Seq<char> {
    "Tool entries must be strings or mappings containing a 'name' field"@
}

/// The message for an `allow` or `deny` value that is no sequence.
pub open spec fn bad_list_msg() -> Seq<char> {
    "Tool lists must be sequences"@
}

/// The message for a `tools` section that is neither a mapping nor a sequence.
pub open spec fn bad_section_msg() -> Seq<char> {
    "Top-level 'tools' entry must be a mapping or sequence"@
}

/// The tool name of one entry: a string, or a mapping whose `name` is a string.
pub open spec fn tool_name_of(v: YamlValue) -> Result<Seq<char>, Seq<char>> {
    match v {
        YamlValue::String(name) => Ok(name@),
        YamlValue::Mapping(m) => match spec_mapping_get(m@, "name"@) {
            Some(n) => match untagged(n) {
                YamlValue::String(s) => Ok(s@),
                _ => Err(unnamed_entry_msg()),
            },
            None => Err(unnamed_entry_msg()),
        },
        _ => Err(bad_entry_msg()),
    }
}

/// The names of a list of entries, or the first entry's error.
pub open spec fn tool_names_of(s: Seq<YamlValue>) -> Result<Seq<Seq<char>>, Seq<char>>
    decreases s.len(),
{
    if s.len() == 0 {
        Ok(seq![])
    } else {
        match tool_name_of(s[0]) {
            Err(m) => Err(m),
            Ok(n) => match tool_names_of(s.drop_first()) {
                Ok(rest) => Ok(seq![n] + rest),
                Err(m) => Err(m),
            },
        }
    }
}

/// The names of an `allow` or `deny` value: nothing for null, the entries of a sequence.
pub open spec fn tool_list_of(v: YamlValue) -> Result<Seq<Seq<char>>, Seq<char>> {
    match v {
        YamlValue::Null => Ok(seq![]),
        YamlValue::Sequence(s) => tool_names_of(s@),
        _ => Err(bad_list_msg()),
    }
}

/// The names under a key of a mapping: nothing when the key is missing.
pub open spec fn tool_list_at(m: Seq<(YamlValue, YamlValue)>, key: Seq<char>) -> Result<Seq<Seq<char>>, Seq<char>> {
    match spec_mapping_get(m, key) {
        Some(v) => tool_list_of(v),
        None => Ok(seq![]),
    }
}

/// A top-level `tools` section: null allows nothing, a sequence lists allowed tools, a
/// mapping has `allow` and `deny` lists.
pub open spec fn simple_tool_lists(v: YamlValue) -> ToolLists {
    match v {
        YamlValue::Null => Ok((seq![], seq![])),
        YamlValue::Sequence(s) => match tool_names_of(s@) {
            Ok(names) => Ok((names, seq![])),
            Err(m) => Err(m),
        },
        YamlValue::Mapping(m) => match tool_list_at(m@, "allow"@) {
            Err(e) => Err(e),
            Ok(allow) => match tool_list_at(m@, "deny"@) {
                Err(e) => Err(e),
                Ok(deny) => Ok((allow, deny)),
            },
        },
        _ => Err(bad_section_msg()),
    }
}

/// `names` followed by what `rest` gives.
pub open spec fn prepend(names: Seq<Seq<char>>, rest: Result<Seq<Seq<char>>, Seq<char>>) -> Result<
    Seq<Seq<char>>,
    Seq<char>,
> {
    match rest {
        Ok(r) => Ok(names + r),
        Err(m) => Err(m),
    }
}

/// An invalid-format error carrying `msg`.
pub open spec fn format_error(e: PolicyError, msg: Seq<char>) -> bool {
    e matches PolicyError::InvalidFormat(m) && m@ == msg
}

fn parse_tool_name(value: &YamlValue) -> (r: Result<String, PolicyError>)
    ensures
        match tool_name_of(*value) {
            Ok(n) => r matches Ok(s) && s@ == n,
            Err(msg) => r matches Err(e) && format_error(e, msg),
        },
{
    match value {
        YamlValue::String(name) => Ok(name.clone()),
        YamlValue::Mapping(map) => {
            match mapping_get(map, "name") {
                Some(n) => match n.as_str() {
                    Some(s) => Ok(s.to_string()),
                    None => Err(
                        PolicyError::InvalidFormat(
                            "Tool entries must be strings or mappings containing a 'name' field".to_string(),
                        ),
                    ),
                },
                None => Err(
                    PolicyError::InvalidFormat(
                        "Tool entries must be strings or mappings containing a 'name' field".to_string(),
                    ),
                ),
            }
        },
        _ => Err(PolicyError::InvalidFormat("Tool entries must be strings or mappings".to_string())),
    }
}

fn parse_tool_names(seq: &Vec<YamlValue>) -> (r: Result<Vec<String>, PolicyError>)
    ensures
        match tool_names_of(seq@) {
            Ok(ns) => r matches Ok(v) && v@.map_values(|s: String| s@) == ns,
            Err(msg) => r matches Err(e) && format_error(e, msg),
        },
{
    let mut out: Vec<String> = Vec::new();
    let mut i: usize = 0;
    assert(seq@.skip(0) =~= seq@);
    while i < seq.len()
        invariant
            i <= seq.len(),
            tool_names_of(seq@) == prepend(out@.map_values(|s: String| s@), tool_names_of(seq@.skip(i as int))),
        decreases seq.len() - i,
    {
        let ghost rest = seq@.skip(i as int);
        assert(rest[0] == seq@[i as int]);
        assert(rest.drop_first() =~= seq@.skip(i + 1));
        match parse_tool_name(&seq[i]) {
            Err(e) => {
                return Err(e);
            },
            Ok(name) => {
                let ghost before = out@.map_values(|s: String| s@);
                out.push(name);
                proof {
                    assert(out@.map_values(|s: String| s@) =~= before.push(name@));
                    match tool_names_of(rest.drop_first()) {
                        Ok(x) => {
                            assert(before + (seq![name@] + x) =~= before.push(name@) + x);
                        },
                        Err(_) => {},
                    }
                }
            },
        }
        i = i + 1;
    }
    assert(seq@.skip(i as int) =~= Seq::<YamlValue>::empty());
    assert(out@.map_values(|s: String| s@) + seq![] =~= out@.map_values(|s: String| s@));
    Ok(out)
}

fn parse_tool_list(value: &YamlValue) -> (r: Result<Vec<String>, PolicyError>)
    ensures
        match tool_list_of(*value) {
            Ok(ns) => r matches Ok(v) && v@.map_values(|s: String| s@) == ns,
            Err(msg) => r matches Err(e) && format_error(e, msg),
        },
{
    match value {
        YamlValue::Null => {
            let v: Vec<String> = Vec::new();
            assert(v@.map_values(|s: String| s@) =~= Seq::<Seq<char>>::empty());
            Ok(v)
        },
        YamlValue::Sequence(seq) => parse_tool_names(seq),
        _ => Err(PolicyError::InvalidFormat("Tool lists must be sequences".to_string())),
    }
}

fn parse_tool_list_at(map: &Vec<(YamlValue, YamlValue)>, key: &str) -> (r: Result<Vec<String>, PolicyError>)
    ensures
        match tool_list_at(map@, key@) {
            Ok(ns) => r matches Ok(v) && v@.map_values(|s: String| s@) == ns,
            Err(msg) => r matches Err(e) && format_error(e, msg),
        },
{
    match mapping_get(map, key) {
        Some(v) => parse_tool_list(v),
        None => {
            let v: Vec<String> = Vec::new();
            assert(v@.map_values(|s: String| s@) =~= Seq::<Seq<char>>::empty());
            Ok(v)
        },
    }
}

/// Reads a top-level `tools` section into its allowed and denied tool names.
pub fn parse_simple_tool_policy(value: &YamlValue) -> (r: Result<(Vec<String>, Vec<String>), PolicyError>)
    ensures
        match simple_tool_lists(*value) {
            Ok((a, d)) => r matches Ok((va, vd)) && va@.map_values(|s: String| s@) == a
                && vd@.map_values(|s: String| s@) == d,
            Err(msg) => r matches Err(e) && format_error(e, msg),
        },
{
    match value {
        YamlValue::Null => {
            let a: Vec<String> = Vec::new();
            let d: Vec<String> = Vec::new();
            assert(a@.map_values(|s: String| s@) =~= Seq::<Seq<char>>::empty());
            assert(d@.map_values(|s: String| s@) =~= Seq::<Seq<char>>::empty());
            Ok((a, d))
        },
        YamlValue::Sequence(seq) => {
            let a = parse_tool_names(seq)?;
            let d: Vec<String> = Vec::new();
            assert(d@.map_values(|s: String| s@) =~= Seq::<Seq<char>>::empty());
            Ok((a, d))
        },
        YamlValue::Mapping(map) => {
            let a = parse_tool_list_at(map, "allow")?;
            let d = parse_tool_list_at(map, "deny")?;
            Ok((a, d))
        },
        _ => Err(
            PolicyError::InvalidFormat(
                "Top-level 'tools' entry must be a mapping or sequence".to_string(),
            ),
        ),
    }
}

} // verus!
