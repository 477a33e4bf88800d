use vstd::prelude::*;

use globset::GlobSet;

use crate::policy::core_defs::CapabilityFlags;
use crate::policy::error::PolicyError;
use crate::policy::globs::{
    all_globs_valid, any_glob_matches, build_globset, glob_applies, glob_is_match, glob_matches, glob_new,
    glob_valid, globset_is_match, globset_patterns, patterns_build,
};
use crate::policy::limits::{
    cpu_limit_value, fits_u64, limit_error, memory_limit_fits, memory_limit_value, parse_cpu_limit,
    parse_memory_limit, parse_time_limit, time_limit_fits, time_limit_value, ResourceLimits,
};
use crate::policy::mcp::{McpPermissions, ToolRule};
use crate::policy::path_trie::{trie_model, PathTrie};
use crate::policy::permissions::{
    entry_map, EnvironmentPermissions, EnvironmentRule, NetworkPermissions, NetworkRule, Policy,
    StoragePermissions, StorageRule,
};
use crate::policy::tool_lists::{format_error, parse_simple_tool_policy, simple_tool_lists, ToolLists};
use crate::policy::yaml::{mapping_get, spec_mapping_get, untagged, YamlValue};
use crate::text::{
    chars_of, clone_strings, concat_str, contains_char, has_char, has_prefix, in_list,
    list_contains, path_segments, set_insert, starts_with, str_eq, string_from_chars, sub_vec,
    texts,
};

verus! {

/// Pre-compiled policy optimized for fast runtime checks
#[derive(Debug)]
pub struct CompiledPolicy {
    /// Explicitly allowed tool names (each at most once)
    pub tool_whitelist: Vec<String>,
    /// Glob patterns for tool matching
    pub tool_patterns: GlobSet,
    /// Explicitly denied tool names (each at most once)
    pub tool_blacklist: Vec<String>,
    /// Glob patterns for denied tools
    pub tool_deny_patterns: GlobSet,
    /// Explicitly allowed network hosts (each at most once)
    pub network_whitelist: Vec<String>,
    /// Explicitly denied network hosts (each at most once)
    pub network_blacklist: Vec<String>,
    /// Glob patterns for network host matching
    pub network_patterns: GlobSet,
    /// Glob patterns for denied network hosts
    pub network_deny_patterns: GlobSet,
    /// Glob patterns for allowed storage paths
    pub storage_allow_patterns: GlobSet,
    /// Glob patterns for denied storage paths
    pub storage_deny_patterns: GlobSet,
    /// Path patterns with their allowed access modes, one entry per pattern
    pub storage_access_map: Vec<(String, Vec<String>)>,
    /// Allowed environment variable names (each at most once)
    pub env_whitelist: Vec<String>,
    /// Denied environment variable names (each at most once)
    pub env_blacklist: Vec<String>,
    /// Path trie for efficient path matching
    pub resource_trie: PathTrie,
    /// Pre-computed capability flags
    pub capabilities: CapabilityFlags,
    /// Resource usage limits
    pub resource_limits: ResourceLimits,
}

// ----- what the policy says -----

/// The names of the list that contain a `*`, in order.
pub open spec fn starred(names: Seq<Seq<char>>) -> Seq<Seq<char>>
    decreases names.len(),
{
    if names.len() == 0 {
        seq![]
    } else {
        starred(names.drop_last()) + if has_char(names.last(), '*') {
            seq![names.last()]
        } else {
            seq![]
        }
    }
}

/// The names of the list without a `*`, in order.
pub open spec fn unstarred(names: Seq<Seq<char>>) -> Seq<Seq<char>>
    decreases names.len(),
{
    if names.len() == 0 {
        seq![]
    } else {
        unstarred(names.drop_last()) + if has_char(names.last(), '*') {
            seq![]
        } else {
            seq![names.last()]
        }
    }
}

/// The hosts of host rules, in order (CIDR rules name no host).
pub open spec fn rule_hosts(rules: Seq<NetworkRule>) -> Seq<Seq<char>>
    decreases rules.len(),
{
    if rules.len() == 0 {
        seq![]
    } else {
        rule_hosts(rules.drop_last()) + match rules.last() {
            NetworkRule::Host { host } => seq![host@],
            NetworkRule::Cidr { .. } => seq![],
        }
    }
}

/// The allowed network rules of a policy.
pub open spec fn network_allow(p: Policy) -> Seq<NetworkRule> {
    match p.core.network {
        Some(n) => n.allow@,
        None => seq![],
    }
}

/// The denied network rules of a policy.
pub open spec fn network_deny(p: Policy) -> Seq<NetworkRule> {
    match p.core.network {
        Some(n) => n.deny@,
        None => seq![],
    }
}

/// The allowed storage rules of a policy.
pub open spec fn storage_allow(p: Policy) -> Seq<StorageRule> {
    match p.core.storage {
        Some(s) => s.allow@,
        None => seq![],
    }
}

/// The denied storage rules of a policy.
pub open spec fn storage_deny(p: Policy) -> Seq<StorageRule> {
    match p.core.storage {
        Some(s) => s.deny@,
        None => seq![],
    }
}

/// The allowed environment variable names of a policy.
pub open spec fn env_allow(p: Policy) -> Seq<Seq<char>> {
    match p.core.environment {
        Some(e) => e.allow@.map_values(|r: EnvironmentRule| r.key@),
        None => seq![],
    }
}

/// The denied environment variable names of a policy.
pub open spec fn env_deny(p: Policy) -> Seq<Seq<char>> {
    match p.core.environment {
        Some(e) => e.deny@.map_values(|r: EnvironmentRule| r.key@),
        None => seq![],
    }
}

/// A storage URI as a path pattern: without a leading `fs://`.
pub open spec fn strip_fs(u: Seq<char>) -> Seq<char> {
    if has_prefix(u, "fs://"@) {
        u.subrange("fs://"@.len() as int, u.len() as int)
    } else {
        u
    }
}

/// The path patterns of storage rules, in order.
pub open spec fn storage_patterns(rules: Seq<StorageRule>) -> Seq<Seq<char>> {
    rules.map_values(|r: StorageRule| strip_fs(r.uri@))
}

/// `i` is the first entry of `m` with key `k`.
pub open spec fn first_entry(m: Seq<(Seq<char>, Seq<Seq<char>>)>, k: Seq<char>, i: int) -> bool {
    &&& 0 <= i < m.len()
    &&& m[i].0 == k
    &&& forall|j: int| 0 <= j < i ==> (#[trigger] m[j]).0 != k
}

/// `m` with the value of key `k` set to `v`: replaced in place where the key is, added at
/// the end where it is not.
pub open spec fn assoc_put(m: Seq<(Seq<char>, Seq<Seq<char>>)>, k: Seq<char>, v: Seq<Seq<char>>) -> Seq<
    (Seq<char>, Seq<Seq<char>>),
> {
    if exists|i: int| first_entry(m, k, i) {
        m.update(choose|i: int| first_entry(m, k, i), (k, v))
    } else {
        m.push((k, v))
    }
}

/// The access modes per path pattern that allow rules give, in the order the patterns first
/// appear; a later rule for the same pattern replaces the modes.
pub open spec fn access_entries(rules: Seq<StorageRule>) -> Seq<(Seq<char>, Seq<Seq<char>>)>
    decreases rules.len(),
{
    if rules.len() == 0 {
        seq![]
    } else {
        assoc_put(
            access_entries(rules.drop_last()),
            strip_fs(rules.last().uri@),
            texts(rules.last().access@),
        )
    }
}

/// A stored access map, by its texts.
pub open spec fn access_view(v: Seq<(String, Vec<String>)>) -> Seq<(Seq<char>, Seq<Seq<char>>)> {
    v.map_values(|e: (String, Vec<String>)| (e.0@, texts(e.1@)))
}

/// The access modes of the first pattern of `m` that matches `path`.
pub open spec fn first_ops(m: Seq<(Seq<char>, Seq<Seq<char>>)>, path: Seq<char>) -> Option<Seq<Seq<char>>>
    decreases m.len(),
{
    if m.len() == 0 {
        None
    } else if glob_applies(m[0].0, path) {
        Some(m[0].1)
    } else {
        first_ops(m.drop_first(), path)
    }
}

/// The insertions into the path trie: allowed patterns, then denied ones.
pub open spec fn trie_entries(allow: Seq<StorageRule>, deny: Seq<StorageRule>) -> Seq<
    (Seq<Seq<char>>, bool, bool),
> {
    allow.map_values(|r: StorageRule| (path_segments(strip_fs(r.uri@)), true, false)) + deny.map_values(
        |r: StorageRule| (path_segments(strip_fs(r.uri@)), false, true),
    )
}

/// The extension section `name` of a policy.
pub open spec fn extension_of(p: Policy, name: Seq<char>) -> Option<YamlValue> {
    if entry_map(p.extensions@).contains_key(name) {
        Some(entry_map(p.extensions@)[name])
    } else {
        None
    }
}

/// The MCP section of a policy: `mcp` inside an `extensions` mapping, else a top-level
/// `mcp` section.
pub open spec fn mcp_section_of(p: Policy) -> Option<YamlValue> {
    let nested = match extension_of(p, "extensions"@) {
        Some(e) => match untagged(e) {
            YamlValue::Mapping(m) => spec_mapping_get(m@, "mcp"@),
            _ => None,
        },
        None => None,
    };
    match nested {
        Some(v) => Some(v),
        None => extension_of(p, "mcp"@),
    }
}

/// The names of the allow (or deny) tool rules of MCP permissions.
pub open spec fn mcp_tool_names(mcp: Option<McpPermissions>, allow: bool) -> Seq<Seq<char>> {
    match mcp {
        Some(m) => match m.tools {
            Some(t) => if allow {
                t.allow@.map_values(|r: ToolRule| r.name@)
            } else {
                t.deny@.map_values(|r: ToolRule| r.name@)
            },
            None => seq![],
        },
        None => seq![],
    }
}

/// The tool lists of the top-level `tools` section; none when there is no such section.
pub open spec fn shorthand_tools(p: Policy) -> ToolLists {
    match extension_of(p, "tools"@) {
        Some(v) => simple_tool_lists(v),
        None => Ok((seq![], seq![])),
    }
}

/// All allowed tool names: those of the MCP section, then those of the `tools` section.
pub open spec fn allowed_tools(p: Policy, mcp: Option<McpPermissions>) -> Seq<Seq<char>> {
    mcp_tool_names(mcp, true) + match shorthand_tools(p) {
        Ok(l) => l.0,
        Err(_) => seq![],
    }
}

/// All denied tool names: those of the MCP section, then those of the `tools` section.
pub open spec fn denied_tools(p: Policy, mcp: Option<McpPermissions>) -> Seq<Seq<char>> {
    mcp_tool_names(mcp, false) + match shorthand_tools(p) {
        Ok(l) => l.1,
        Err(_) => seq![],
    }
}


/// The network glob sets can be built.
pub open spec fn network_compiles(p: Policy) -> bool {
    patterns_build(starred(rule_hosts(network_allow(p)))) && patterns_build(
        starred(rule_hosts(network_deny(p))),
    )
}

/// The storage glob sets can be built.
pub open spec fn storage_compiles(p: Policy) -> bool {
    patterns_build(storage_patterns(storage_allow(p))) && patterns_build(
        storage_patterns(storage_deny(p)),
    )
}

/// The CPU limit of a policy parses (or there is none).
pub open spec fn cpu_ok(p: Policy, cores: Option<u64>) -> bool {
    p.core.resources matches Some(r) ==> (r.limits.cpu matches Some(c) ==> cpu_limit_value(
        c@,
        cores,
    ) is Some)
}

/// The memory limit of a policy parses (or there is none).
pub open spec fn memory_ok(p: Policy) -> bool {
    p.core.resources matches Some(r) ==> (r.limits.memory matches Some(m) ==> memory_limit_value(
        m@,
    ) is Some)
}

/// The time limit of a policy parses (or there is none).
pub open spec fn time_ok(p: Policy) -> bool {
    p.core.resources matches Some(r) ==> (r.limits.execution_time matches Some(t)
        ==> time_limit_value(t@) is Some)
}

/// The limits reached while compiling fit in 64 bits: the limits are read in the order
/// CPU, memory, time, and reading stops at the first failure.
pub open spec fn limits_fit(p: Policy, cores: Option<u64>) -> bool {
    cpu_ok(p, cores) ==> (
    (p.core.resources matches Some(r) ==> (r.limits.memory matches Some(m) ==> fits_u64(
        memory_limit_value(m@),
    ))) && (memory_ok(p) ==> (p.core.resources matches Some(r) ==> (
    r.limits.execution_time matches Some(t) ==> fits_u64(time_limit_value(t@))))))
}

/// Every starred tool name of the MCP section is a valid glob.
pub open spec fn mcp_tool_globs_valid(mcp: Option<McpPermissions>) -> bool {
    all_globs_valid(starred(mcp_tool_names(mcp, true)))
}

/// Compiling succeeds.
pub open spec fn compiles(p: Policy, mcp: Option<McpPermissions>, cores: Option<u64>) -> bool {
    &&& network_compiles(p)
    &&& storage_compiles(p)
    &&& cpu_ok(p, cores)
    &&& memory_ok(p)
    &&& time_ok(p)
    &&& mcp_tool_globs_valid(mcp)
    &&& shorthand_tools(p) is Ok
    &&& patterns_build(starred(allowed_tools(p, mcp)))
    &&& patterns_build(starred(denied_tools(p, mcp)))
}

/// The error for the first limit that does not parse, in the order CPU, memory, time.
pub open spec fn limits_failure(p: Policy, cores: Option<u64>, e: PolicyError) -> bool {
    if !cpu_ok(p, cores) {
        p.core.resources matches Some(r) && r.limits.cpu matches Some(c) && limit_error(
            e,
            "Invalid CPU limit: "@,
            c@,
        )
    } else if !memory_ok(p) {
        p.core.resources matches Some(r) && r.limits.memory matches Some(m) && limit_error(
            e,
            "Invalid memory limit: "@,
            m@,
        )
    } else {
        p.core.resources matches Some(r) && r.limits.execution_time matches Some(t)
            && limit_error(e, "Invalid time limit: "@, t@)
    }
}

/// The error that compiling gives: a glob error for the network and storage sections, then
/// the first limit that does not parse, then a glob error for an MCP tool pattern, then the
/// `tools` section's format error, and a glob error for the remaining tool patterns.
pub open spec fn compile_failure(p: Policy, mcp: Option<McpPermissions>, cores: Option<u64>, e: PolicyError) -> bool {
    if !network_compiles(p) || !storage_compiles(p) {
        e is GlobError
    } else if !(cpu_ok(p, cores) && memory_ok(p) && time_ok(p)) {
        limits_failure(p, cores, e)
    } else if !mcp_tool_globs_valid(mcp) {
        e is GlobError
    } else if shorthand_tools(p) is Err {
        format_error(e, shorthand_tools(p)->Err_0)
    } else {
        e is GlobError
    }
}

/// The limits that a policy sets, read as compiling reads them.
pub open spec fn limits_of(c: ResourceLimits, p: Policy, cores: Option<u64>) -> bool {
    match p.core.resources {
        None => c.cpu_millicores is None && c.memory_bytes is None && c.execution_time_ms is None
            && c.fuel is None,
        Some(r) => {
            &&& c.cpu_millicores == match r.limits.cpu {
                Some(s) => cpu_limit_value(s@, cores),
                None => None,
            }
            &&& match r.limits.memory {
                Some(m) => c.memory_bytes matches Some(x) && memory_limit_value(m@) == Some(
                    x as int,
                ),
                None => c.memory_bytes is None,
            }
            &&& match r.limits.execution_time {
                Some(t) => c.execution_time_ms matches Some(x) && time_limit_value(t@) == Some(
                    x as int,
                ),
                None => c.execution_time_ms is None,
            }
            &&& c.fuel == r.limits.fuel
        },
    }
}

/// A list used as a set holds exactly the texts of `items`.
pub open spec fn set_of(v: Seq<String>, items: Seq<Seq<char>>) -> bool {
    forall|x: Seq<char>| #[trigger] in_list(v, x) <==> items.contains(x)
}

/// What a policy compiles to.
pub open spec fn compiled_from(c: CompiledPolicy, p: Policy, mcp: Option<McpPermissions>, cores: Option<u64>) -> bool {
    &&& set_of(c.tool_whitelist@, unstarred(allowed_tools(p, mcp)))
    &&& globset_patterns(c.tool_patterns) == starred(allowed_tools(p, mcp))
    &&& set_of(c.tool_blacklist@, denied_tools(p, mcp))
    &&& globset_patterns(c.tool_deny_patterns) == starred(denied_tools(p, mcp))
    &&& set_of(c.network_whitelist@, unstarred(rule_hosts(network_allow(p))))
    &&& set_of(c.network_blacklist@, unstarred(rule_hosts(network_deny(p))))
    &&& globset_patterns(c.network_patterns) == starred(rule_hosts(network_allow(p)))
    &&& globset_patterns(c.network_deny_patterns) == starred(rule_hosts(network_deny(p)))
    &&& globset_patterns(c.storage_allow_patterns) == storage_patterns(storage_allow(p))
    &&& globset_patterns(c.storage_deny_patterns) == storage_patterns(storage_deny(p))
    &&& access_view(c.storage_access_map@) == access_entries(storage_allow(p))
    &&& set_of(c.env_whitelist@, env_allow(p))
    &&& set_of(c.env_blacklist@, env_deny(p))
    &&& (forall|q: Seq<Seq<char>>| #[trigger] c.resource_trie.lookup(q) == trie_model(
        trie_entries(storage_allow(p), storage_deny(p)),
        q,
    ))
    &&& c.capabilities == CapabilityFlags {
        can_execute_tools: allowed_tools(p, mcp).len() > 0,
        can_access_network: rule_hosts(network_allow(p)).len() > 0,
        can_access_filesystem: storage_allow(p).len() > 0,
        can_read_environment: env_allow(p).len() > 0,
        can_access_resources: false,
        custom_flags: 0,
    }
    &&& limits_of(c.resource_limits, p, cores)
}

// ----- what the compiled policy answers -----

impl CompiledPolicy {
    /// A tool is allowed when it is not denied by name or by a denied pattern, and it is
    /// allowed by name or matches an allowed pattern.
    pub open spec fn spec_tool_allowed(self, name: Seq<char>) -> bool {
        &&& !in_list(self.tool_blacklist@, name)
        &&& !any_glob_matches(globset_patterns(self.tool_deny_patterns), name)
        &&& (in_list(self.tool_whitelist@, name) || any_glob_matches(
            globset_patterns(self.tool_patterns),
            name,
        ))
    }

    /// A host is allowed when it is not denied by name, and it is allowed by name or
    /// matches an allowed pattern.
    pub open spec fn spec_network_allowed(self, host: Seq<char>) -> bool {
        &&& !in_list(self.network_blacklist@, host)
        &&& !any_glob_matches(globset_patterns(self.network_deny_patterns), host)
        &&& (in_list(self.network_whitelist@, host) || any_glob_matches(
            globset_patterns(self.network_patterns),
            host,
        ))
    }

    /// A storage operation is allowed when no denied pattern matches the path (without
    /// `fs://`), some allowed one does, and the first pattern of the access map that
    /// matches it lists the operation.
    pub open spec fn spec_storage_allowed(self, path: Seq<char>, op: Seq<char>) -> bool {
        let p = strip_fs(path);
        &&& !any_glob_matches(globset_patterns(self.storage_deny_patterns), p)
        &&& any_glob_matches(globset_patterns(self.storage_allow_patterns), p)
        &&& first_ops(access_view(self.storage_access_map@), p) matches Some(ops) && ops.contains(op)
    }

    /// An environment variable is allowed when it is allowed by name and not denied.
    pub open spec fn spec_env_allowed(self, key: Seq<char>) -> bool {
        !in_list(self.env_blacklist@, key) && in_list(self.env_whitelist@, key)
    }
}


// ----- compiling -----

proof fn lemma_contains_append(a: Seq<Seq<char>>, b: Seq<Seq<char>>, x: Seq<char>)
    ensures
        (a + b).contains(x) <==> (a.contains(x) || b.contains(x)),
{
    if a.contains(x) {
        let i = choose|i: int| 0 <= i < a.len() && a[i] == x;
        assert((a + b)[i] == x);
    }
    if b.contains(x) {
        let i = choose|i: int| 0 <= i < b.len() && b[i] == x;
        assert((a + b)[a.len() + i] == x);
    }
    if (a + b).contains(x) {
        let i = choose|i: int| 0 <= i < (a + b).len() && (a + b)[i] == x;
        if i < a.len() {
            assert(a[i] == x);
        } else {
            assert(b[i - a.len()] == x);
        }
    }
}

/// Sorts names into a set of plain ones and a list of glob patterns (those with a `*`).
fn split_names(names: &Vec<String>, plain: &mut Vec<String>, stars: &mut Vec<String>)
    ensures
        texts(final(stars)@) == texts(old(stars)@) + starred(texts(names@)),
        forall|x: Seq<char>|
            #[trigger] in_list(final(plain)@, x) <==> (in_list(old(plain)@, x) || unstarred(
                texts(names@),
            ).contains(x)),
{
    let ghost stars0 = texts(stars@);
    let ghost plain0 = plain@;
    let mut i: usize = 0;
    assert(texts(names@).subrange(0, 0) =~= Seq::<Seq<char>>::empty());
    assert(texts(stars@) =~= stars0 + starred(texts(names@).subrange(0, 0)));
    while i < names.len()
        invariant
            i <= names.len(),
            texts(stars@) == stars0 + starred(texts(names@).subrange(0, i as int)),
            forall|x: Seq<char>|
                #[trigger] in_list(plain@, x) <==> (in_list(plain0, x) || unstarred(
                    texts(names@).subrange(0, i as int),
                ).contains(x)),
        decreases names.len() - i,
    {
        let ghost pre = texts(names@).subrange(0, i as int);
        let ghost next = texts(names@).subrange(0, i + 1);
        assert(next.drop_last() =~= pre);
        assert(next.last() == names@[i as int]@);
        let c = chars_of(names[i].as_str());
        if contains_char(&c, '*') {
            let ghost before = texts(stars@);
            stars.push(names[i].clone());
            assert(texts(stars@) =~= before.push(names@[i as int]@));
            assert(texts(stars@) =~= stars0 + starred(next));
            assert(unstarred(next) =~= unstarred(pre));
        } else {
            let ghost before = plain@;
            set_insert(plain, names[i].clone());
            proof {
                assert(starred(next) =~= starred(pre));
                assert forall|x: Seq<char>|
                    #[trigger] in_list(plain@, x) <==> (in_list(plain0, x) || unstarred(next).contains(x)) by {
                    lemma_contains_append(unstarred(pre), seq![names@[i as int]@], x);
                    if x == names@[i as int]@ {
                        assert(seq![names@[i as int]@][0] == x);
                    }
                }
            }
        }
        i = i + 1;
    }
    assert(texts(names@).subrange(0, i as int) =~= texts(names@));
}

/// Checks that each pattern is a valid glob, naming the first one that is not.
fn check_globs(ps: &Vec<String>) -> (r: Result<(), PolicyError>)
    ensures
        r is Ok <==> all_globs_valid(texts(ps@)),
        r matches Err(e) ==> e is GlobError,
{
    let mut i: usize = 0;
    while i < ps.len()
        invariant
            i <= ps.len(),
            forall|k: int| 0 <= k < i ==> glob_valid(#[trigger] texts(ps@)[k]),
        decreases ps.len() - i,
    {
        match glob_new(ps[i].as_str()) {
            Ok(_) => {},
            Err(m) => {
                assert(!glob_valid(texts(ps@)[i as int]));
                let head = concat_str("Invalid glob pattern '", ps[i].as_str());
                let msg = concat_str(concat_str(head.as_str(), "': ").as_str(), m.as_str());
                return Err(PolicyError::GlobError(msg));
            },
        }
        i = i + 1;
    }
    Ok(())
}

/// Builds a glob set; where it cannot be built, the error names the first invalid pattern
/// when there is one.
fn build_patterns(ps: &Vec<String>) -> (r: Result<GlobSet, PolicyError>)
    ensures
        r is Ok <==> patterns_build(texts(ps@)),
        r matches Ok(s) ==> globset_patterns(s) == texts(ps@),
        r matches Err(e) ==> e is GlobError,
        patterns_build(Seq::<Seq<char>>::empty()),
{
    match build_globset(ps) {
        Ok(s) => Ok(s),
        Err(m) => {
            check_globs(ps)?;
            Err(PolicyError::GlobError(m))
        },
    }
}

/// The hosts that host rules name, in order.
fn host_names(rules: &Vec<NetworkRule>) -> (r: Vec<String>)
    ensures
        texts(r@) == rule_hosts(rules@),
{
    let mut out: Vec<String> = Vec::new();
    let mut i: usize = 0;
    assert(rules@.subrange(0, 0) =~= Seq::<NetworkRule>::empty());
    while i < rules.len()
        invariant
            i <= rules.len(),
            texts(out@) == rule_hosts(rules@.subrange(0, i as int)),
        decreases rules.len() - i,
    {
        let ghost next = rules@.subrange(0, i + 1);
        assert(next.drop_last() =~= rules@.subrange(0, i as int));
        assert(next.last() == rules@[i as int]);
        match &rules[i] {
            NetworkRule::Host { host } => {
                let ghost before = texts(out@);
                out.push(host.clone());
                assert(texts(out@) =~= before + seq![host@]);
            },
            NetworkRule::Cidr { .. } => {
                assert(texts(out@) =~= texts(out@) + Seq::<Seq<char>>::empty());
            },
        }
        i = i + 1;
    }
    assert(rules@.subrange(0, i as int) =~= rules@);
    out
}

proof fn lemma_set_nonempty(v: Seq<String>, items: Seq<Seq<char>>)
    requires
        set_of(v, items),
    ensures
        (v.len() > 0) == (items.len() > 0),
{
    if v.len() > 0 {
        assert(in_list(v, v[0]@));
    }
    if items.len() > 0 {
        assert(items.contains(items[0]));
        assert(in_list(v, items[0]));
    }
}

/// Compiles the network rules: allowed and denied host names, and the allowed patterns.
fn compile_network(allow: &Vec<NetworkRule>, deny: &Vec<NetworkRule>) -> (r: Result<
    (Vec<String>, Vec<String>, GlobSet, GlobSet, bool),
    PolicyError,
>)
    ensures
        r is Ok <==> (patterns_build(starred(rule_hosts(allow@))) && patterns_build(
            starred(rule_hosts(deny@)),
        )),
        r matches Err(e) ==> e is GlobError,
        patterns_build(Seq::<Seq<char>>::empty()),
        r matches Ok((w, b, set, dset, any)) ==> {
            &&& set_of(w@, unstarred(rule_hosts(allow@)))
            &&& set_of(b@, unstarred(rule_hosts(deny@)))
            &&& globset_patterns(set) == starred(rule_hosts(allow@))
            &&& globset_patterns(dset) == starred(rule_hosts(deny@))
            &&& any == (rule_hosts(allow@).len() > 0)
        },
{
    let mut white: Vec<String> = Vec::new();
    let mut black: Vec<String> = Vec::new();
    let mut allow_globs: Vec<String> = Vec::new();
    let mut deny_globs: Vec<String> = Vec::new();
    assert(texts(allow_globs@) =~= Seq::<Seq<char>>::empty());
    assert(texts(deny_globs@) =~= Seq::<Seq<char>>::empty());
    let ah = host_names(allow);
    split_names(&ah, &mut white, &mut allow_globs);
    let dh = host_names(deny);
    split_names(&dh, &mut black, &mut deny_globs);
    assert(texts(allow_globs@) =~= starred(rule_hosts(allow@)));
    assert(texts(deny_globs@) =~= starred(rule_hosts(deny@)));
    let set = build_patterns(&allow_globs)?;
    let deny_set = build_patterns(&deny_globs)?;
    let any = ah.len() > 0;
    Ok((white, black, set, deny_set, any))
}

/// A storage URI as a path pattern: without a leading `fs://`.
pub(crate) fn strip_fs_scheme(uri: &str) -> (r: String)
    ensures
        r@ == strip_fs(uri@),
{
    if starts_with(uri, "fs://") {
        let c = chars_of(uri);
        let n = chars_of("fs://").len();
        string_from_chars(&sub_vec(&c, n, c.len()))
    } else {
        uri.to_string()
    }
}

/// Sets the access modes of a pattern in an access map.
fn access_put(m: &mut Vec<(String, Vec<String>)>, k: String, v: Vec<String>)
    ensures
        access_view(final(m)@) == assoc_put(access_view(old(m)@), k@, texts(v@)),
{
    let ghost before = access_view(m@);
    let mut i: usize = 0;
    while i < m.len()
        invariant
            i <= m.len(),
            access_view(m@) == before,
            before == access_view(old(m)@),
            forall|j: int| 0 <= j < i ==> (#[trigger] before[j]).0 != k@,
        decreases m.len() - i,
    {
        if str_eq(m[i].0.as_str(), k.as_str()) {
            let ghost kv = k@;
            let ghost vv = texts(v@);
            proof {
                assert(first_entry(before, kv, i as int));
                let j = choose|j: int| first_entry(before, kv, j);
                if j < i {
                    assert(before[j].0 != kv);
                } else if j > i {
                    assert(before[i as int].0 == kv);
                }
                assert(assoc_put(before, kv, vv) == before.update(i as int, (kv, vv)));
            }
            m.set(i, (k, v));
            assert(access_view(m@) =~= before.update(i as int, (kv, vv)));
            assert(access_view(m@) == assoc_put(before, kv, vv));
            return;
        }
        i = i + 1;
    }
    let ghost kv = k@;
    let ghost vv = texts(v@);
    m.push((k, v));
    assert(access_view(m@) =~= before.push((kv, vv)));
}

proof fn lemma_access_entries_nonempty(rules: Seq<StorageRule>)
    ensures
        (access_entries(rules).len() > 0) == (rules.len() > 0),
    decreases rules.len(),
{
    if rules.len() > 0 {
        lemma_access_entries_nonempty(rules.drop_last());
    }
}

/// Compiles the storage rules: allowed and denied pattern sets, the access modes per
/// allowed pattern, and the path trie.
fn compile_storage(allow: &Vec<StorageRule>, deny: &Vec<StorageRule>) -> (r: Result<
    (GlobSet, GlobSet, Vec<(String, Vec<String>)>, PathTrie),
    PolicyError,
>)
    ensures
        r is Ok <==> (patterns_build(storage_patterns(allow@)) && patterns_build(
            storage_patterns(deny@),
        )),
        r matches Err(e) ==> e is GlobError,
        r matches Ok((a, d, m, t)) ==> {
            &&& globset_patterns(a) == storage_patterns(allow@)
            &&& globset_patterns(d) == storage_patterns(deny@)
            &&& access_view(m@) == access_entries(allow@)
            &&& forall|q: Seq<Seq<char>>| #[trigger] t.lookup(q) == trie_model(
                trie_entries(allow@, deny@),
                q,
            )
        },
{
    let mut allow_pats: Vec<String> = Vec::new();
    let mut deny_pats: Vec<String> = Vec::new();
    let mut access: Vec<(String, Vec<String>)> = Vec::new();
    let mut trie = PathTrie::new();
    let ghost ents = trie_entries(allow@, deny@);
    let ghost na = allow@.len() as int;
    let mut i: usize = 0;
    assert(access_view(access@) =~= access_entries(allow@.subrange(0, 0)));
    assert(ents.subrange(0, 0) =~= Seq::<(Seq<Seq<char>>, bool, bool)>::empty());
    while i < allow.len()
        invariant
            i <= allow.len(),
            na == allow@.len(),
            ents == trie_entries(allow@, deny@),
            texts(allow_pats@) == storage_patterns(allow@).subrange(0, i as int),
            access_view(access@) == access_entries(allow@.subrange(0, i as int)),
            forall|q: Seq<Seq<char>>| #[trigger] trie.lookup(q) == trie_model(ents.subrange(0, i as int), q),
        decreases allow.len() - i,
    {
        let pattern = strip_fs_scheme(allow[i].uri.as_str());
        let ghost prev_pats = texts(allow_pats@);
        allow_pats.push(pattern.clone());
        assert(storage_patterns(allow@)[i as int] == pattern@);
        assert(texts(allow_pats@) =~= prev_pats.push(pattern@));
        assert(texts(allow_pats@) =~= storage_patterns(allow@).subrange(0, i + 1));
        let ghost next = allow@.subrange(0, i + 1);
        assert(next.drop_last() =~= allow@.subrange(0, i as int));
        assert(next.last() == allow@[i as int]);
        access_put(&mut access, pattern.clone(), clone_strings(&allow[i].access));
        let ghost before_trie = trie;
        trie.insert(pattern.as_str(), true, false);
        proof {
            assert(ents[i as int] == (path_segments(pattern@), true, false));
            assert(ents.subrange(0, i + 1).drop_last() =~= ents.subrange(0, i as int));
            assert forall|q: Seq<Seq<char>>| #[trigger] trie.lookup(q) == trie_model(ents.subrange(0, i + 1), q) by {
                assert(before_trie.lookup(q) == trie_model(ents.subrange(0, i as int), q));
            }
        }
        i = i + 1;
    }
    assert(storage_patterns(allow@).subrange(0, i as int) =~= storage_patterns(allow@));
    assert(allow@.subrange(0, i as int) =~= allow@);
    let mut j: usize = 0;
    assert(storage_patterns(deny@).subrange(0, 0) =~= Seq::<Seq<char>>::empty());
    while j < deny.len()
        invariant
            j <= deny.len(),
            na == allow@.len(),
            ents == trie_entries(allow@, deny@),
            texts(deny_pats@) == storage_patterns(deny@).subrange(0, j as int),
            forall|q: Seq<Seq<char>>| #[trigger] trie.lookup(q) == trie_model(ents.subrange(0, na + j), q),
        decreases deny.len() - j,
    {
        let pattern = strip_fs_scheme(deny[j].uri.as_str());
        let ghost prev_deny = texts(deny_pats@);
        deny_pats.push(pattern.clone());
        assert(storage_patterns(deny@)[j as int] == pattern@);
        assert(texts(deny_pats@) =~= prev_deny.push(pattern@));
        assert(texts(deny_pats@) =~= storage_patterns(deny@).subrange(0, j + 1));
        let ghost before_trie = trie;
        trie.insert(pattern.as_str(), false, true);
        proof {
            assert(ents[na + j] == (path_segments(pattern@), false, true));
            assert(ents.subrange(0, na + j + 1).drop_last() =~= ents.subrange(0, na + j));
            assert forall|q: Seq<Seq<char>>| #[trigger] trie.lookup(q) == trie_model(ents.subrange(0, na + j + 1), q) by {
                assert(before_trie.lookup(q) == trie_model(ents.subrange(0, na + j), q));
            }
        }
        j = j + 1;
    }
    assert(storage_patterns(deny@).subrange(0, j as int) =~= storage_patterns(deny@));
    assert(ents.subrange(0, na + j) =~= ents);
    let a = build_patterns(&allow_pats)?;
    let d = build_patterns(&deny_pats)?;
    Ok((a, d, access, trie))
}

/// Compiles environment rules into allowed and denied names.
fn compile_env(allow: &Vec<EnvironmentRule>, deny: &Vec<EnvironmentRule>) -> (r: (Vec<String>, Vec<String>))
    ensures
        set_of(r.0@, allow@.map_values(|e: EnvironmentRule| e.key@)),
        set_of(r.1@, deny@.map_values(|e: EnvironmentRule| e.key@)),
{
    (env_keys(allow), env_keys(deny))
}

fn env_keys(rules: &Vec<EnvironmentRule>) -> (r: Vec<String>)
    ensures
        set_of(r@, rules@.map_values(|e: EnvironmentRule| e.key@)),
{
    let mut out: Vec<String> = Vec::new();
    let mut i: usize = 0;
    while i < rules.len()
        invariant
            i <= rules.len(),
            forall|x: Seq<char>|
                #[trigger] in_list(out@, x) <==> rules@.map_values(|e: EnvironmentRule| e.key@).subrange(
                    0,
                    i as int,
                ).contains(x),
        decreases rules.len() - i,
    {
        let ghost keys = rules@.map_values(|e: EnvironmentRule| e.key@);
        set_insert(&mut out, rules[i].key.clone());
        proof {
            assert(keys.subrange(0, i + 1) =~= keys.subrange(0, i as int) + seq![keys[i as int]]);
            assert forall|x: Seq<char>| #[trigger] in_list(out@, x) <==> keys.subrange(0, i + 1).contains(x) by {
                lemma_contains_append(keys.subrange(0, i as int), seq![keys[i as int]], x);
                if x == keys[i as int] {
                    assert(seq![keys[i as int]][0] == x);
                }
            }
        }
        i = i + 1;
    }
    assert(rules@.map_values(|e: EnvironmentRule| e.key@).subrange(0, i as int) =~= rules@.map_values(
        |e: EnvironmentRule| e.key@,
    ));
    out
}


/// Membership in a list of strings is membership of the text among their texts.
pub proof fn lemma_in_list_texts(v: Seq<String>, x: Seq<char>)
    ensures
        in_list(v, x) == texts(v).contains(x),
{
    if in_list(v, x) {
        let i = choose|i: int| 0 <= i < v.len() && (#[trigger] v[i])@ == x;
        assert(texts(v)[i] == x);
    }
    if texts(v).contains(x) {
        let i = choose|i: int| 0 <= i < texts(v).len() && texts(v)[i] == x;
        assert(v[i]@ == x);
    }
}

proof fn lemma_starred_append(a: Seq<Seq<char>>, b: Seq<Seq<char>>)
    ensures
        starred(a + b) == starred(a) + starred(b),
        unstarred(a + b) == unstarred(a) + unstarred(b),
    decreases b.len(),
{
    if b.len() == 0 {
        assert(a + b =~= a);
        assert(starred(a) + starred(b) =~= starred(a));
        assert(unstarred(a) + unstarred(b) =~= unstarred(a));
    } else {
        assert((a + b).drop_last() =~= a + b.drop_last());
        assert((a + b).last() == b.last());
        lemma_starred_append(a, b.drop_last());
        assert(starred(a + b) =~= starred(a) + starred(b));
        assert(unstarred(a + b) =~= unstarred(a) + unstarred(b));
    }
}

/// Adds every name of `names` to a list used as a set.
fn insert_all(v: &mut Vec<String>, names: &Vec<String>)
    ensures
        forall|x: Seq<char>| #[trigger] in_list(final(v)@, x) <==> (in_list(old(v)@, x) || texts(names@).contains(x)),
{
    let ghost v0 = v@;
    let mut i: usize = 0;
    while i < names.len()
        invariant
            i <= names.len(),
            forall|x: Seq<char>|
                #[trigger] in_list(v@, x) <==> (in_list(v0, x) || texts(names@).subrange(0, i as int).contains(x)),
        decreases names.len() - i,
    {
        let ghost t = texts(names@);
        set_insert(v, names[i].clone());
        proof {
            assert(t.subrange(0, i + 1) =~= t.subrange(0, i as int) + seq![t[i as int]]);
            assert forall|x: Seq<char>| #[trigger] in_list(v@, x) <==> (in_list(v0, x) || t.subrange(0, i + 1).contains(x)) by {
                lemma_contains_append(t.subrange(0, i as int), seq![t[i as int]], x);
                if x == t[i as int] {
                    assert(seq![t[i as int]][0] == x);
                }
            }
        }
        i = i + 1;
    }
    assert(texts(names@).subrange(0, i as int) =~= texts(names@));
}

/// The names of the allow (or deny) tool rules of MCP permissions.
fn mcp_names(mcp: &Option<McpPermissions>, allow: bool) -> (r: Vec<String>)
    ensures
        texts(r@) == mcp_tool_names(*mcp, allow),
{
    let mut out: Vec<String> = Vec::new();
    match mcp {
        Some(m) => match &m.tools {
            Some(t) => {
                let rules = if allow {
                    &t.allow
                } else {
                    &t.deny
                };
                let mut i: usize = 0;
                while i < rules.len()
                    invariant
                        i <= rules.len(),
                        texts(out@) == rules@.map_values(|r: ToolRule| r.name@).subrange(0, i as int),
                    decreases rules.len() - i,
                {
                    let ghost before = texts(out@);
                    out.push(rules[i].name.clone());
                    assert(texts(out@) =~= before.push(rules@[i as int].name@));
                    assert(texts(out@) =~= rules@.map_values(|r: ToolRule| r.name@).subrange(0, i + 1));
                    i = i + 1;
                }
                assert(rules@.map_values(|r: ToolRule| r.name@).subrange(0, i as int) =~= rules@.map_values(
                    |r: ToolRule| r.name@,
                ));
            },
            None => {
                assert(texts(out@) =~= Seq::<Seq<char>>::empty());
            },
        },
        None => {
            assert(texts(out@) =~= Seq::<Seq<char>>::empty());
        },
    }
    out
}

/// The MCP section of a policy: `mcp` inside an `extensions` mapping, else a top-level
/// `mcp` section.
pub fn mcp_section(policy: &Policy) -> (r: Option<&YamlValue>)
    ensures
        r == match mcp_section_of(*policy) {
            Some(v) => Some(&v),
            None => None::<&YamlValue>,
        },
{
    let nested = match policy.extension("extensions") {
        Some(e) => match e.as_mapping() {
            Some(m) => mapping_get(m, "mcp"),
            None => None,
        },
        None => None,
    };
    match nested {
        Some(v) => Some(v),
        None => policy.extension("mcp"),
    }
}

/// Compiles the tool rules of the MCP permissions and of the top-level `tools` section:
/// allowed names, denied names, allowed patterns, and whether any tool is allowed.
fn compile_tools(policy: &Policy, mcp: &Option<McpPermissions>) -> (r: Result<
    (Vec<String>, Vec<String>, GlobSet, GlobSet, bool),
    PolicyError,
>)
    ensures
        r is Ok <==> (mcp_tool_globs_valid(*mcp) && shorthand_tools(*policy) is Ok && patterns_build(
            starred(allowed_tools(*policy, *mcp)),
        ) && patterns_build(starred(denied_tools(*policy, *mcp)))),
        r matches Err(e) ==> (if !mcp_tool_globs_valid(*mcp) {
            e is GlobError
        } else if shorthand_tools(*policy) is Err {
            format_error(e, shorthand_tools(*policy)->Err_0)
        } else {
            e is GlobError
        }),
        r matches Ok((w, b, set, dset, any)) ==> {
            &&& set_of(w@, unstarred(allowed_tools(*policy, *mcp)))
            &&& set_of(b@, denied_tools(*policy, *mcp))
            &&& globset_patterns(set) == starred(allowed_tools(*policy, *mcp))
            &&& globset_patterns(dset) == starred(denied_tools(*policy, *mcp))
            &&& any == (allowed_tools(*policy, *mcp).len() > 0)
        },
{
    let mut white: Vec<String> = Vec::new();
    let mut black: Vec<String> = Vec::new();
    let mut stars: Vec<String> = Vec::new();
    assert(texts(stars@) =~= Seq::<Seq<char>>::empty());
    let ma = mcp_names(mcp, true);
    split_names(&ma, &mut white, &mut stars);
    assert(texts(stars@) =~= starred(mcp_tool_names(*mcp, true)));
    check_globs(&stars)?;
    let md = mcp_names(mcp, false);
    insert_all(&mut black, &md);
    let mut dplain: Vec<String> = Vec::new();
    let mut dstars: Vec<String> = Vec::new();
    assert(texts(dstars@) =~= Seq::<Seq<char>>::empty());
    split_names(&md, &mut dplain, &mut dstars);
    let mut count = ma.len();
    let ghost sa: Seq<Seq<char>> = seq![];
    let ghost sd: Seq<Seq<char>> = seq![];
    match policy.extension("tools") {
        Some(v) => {
            let (a, d) = parse_simple_tool_policy(v)?;
            proof {
                sa = texts(a@);
                sd = texts(d@);
                assert(sa =~= a@.map_values(|s: String| s@));
                assert(sd =~= d@.map_values(|s: String| s@));
            }
            split_names(&a, &mut white, &mut stars);
            insert_all(&mut black, &d);
            split_names(&d, &mut dplain, &mut dstars);
            if a.len() > 0 {
                count = 1;
            }
        },
        None => {},
    }
    proof {
        assert(shorthand_tools(*policy) == Ok::<(Seq<Seq<char>>, Seq<Seq<char>>), Seq<char>>((sa, sd)));
        lemma_starred_append(mcp_tool_names(*mcp, true), sa);
        lemma_starred_append(mcp_tool_names(*mcp, false), sd);
        assert(texts(dstars@) =~= starred(mcp_tool_names(*mcp, false) + sd));
        assert(allowed_tools(*policy, *mcp) == mcp_tool_names(*mcp, true) + sa);
        assert(denied_tools(*policy, *mcp) == mcp_tool_names(*mcp, false) + sd);
        assert forall|x: Seq<char>| #[trigger] in_list(white@, x) <==> unstarred(allowed_tools(*policy, *mcp)).contains(x) by {
            lemma_contains_append(unstarred(mcp_tool_names(*mcp, true)), unstarred(sa), x);
        }
        assert forall|x: Seq<char>| #[trigger] in_list(black@, x) <==> denied_tools(*policy, *mcp).contains(x) by {
            lemma_contains_append(mcp_tool_names(*mcp, false), sd, x);
        }
    }
    let set = build_patterns(&stars)?;
    let deny_set = build_patterns(&dstars)?;
    Ok((white, black, set, deny_set, count > 0))
}

/// Compiles the resource limits, in the order CPU, memory, time.
fn compile_limits(policy: &Policy, cpu_cores: Option<u64>) -> (r: Result<ResourceLimits, PolicyError>)
    requires
        limits_fit(*policy, cpu_cores),
    ensures
        r is Ok <==> (cpu_ok(*policy, cpu_cores) && memory_ok(*policy) && time_ok(*policy)),
        r matches Ok(l) ==> limits_of(l, *policy, cpu_cores),
        r matches Err(e) ==> limits_failure(*policy, cpu_cores, e),
{
    let mut out = ResourceLimits {
        cpu_millicores: None,
        memory_bytes: None,
        execution_time_ms: None,
        fuel: None,
    };
    match &policy.core.resources {
        None => {},
        Some(res) => {
            let limits = &res.limits;
            match &limits.cpu {
                Some(cpu) => {
                    out.cpu_millicores = Some(parse_cpu_limit(cpu.as_str(), cpu_cores)?);
                },
                None => {},
            }
            match &limits.memory {
                Some(m) => {
                    out.memory_bytes = Some(parse_memory_limit(m.as_str())?);
                },
                None => {},
            }
            match &limits.execution_time {
                Some(t) => {
                    out.execution_time_ms = Some(parse_time_limit(t.as_str())?);
                },
                None => {},
            }
            out.fuel = limits.fuel;
        },
    }
    Ok(out)
}


/// Whether the limits that compiling reads fit in 64 bits (see [`limits_fit`]): the
/// condition under which [`CompiledPolicy::compile`] can be called.
pub fn limits_in_range(policy: &Policy, cpu_cores: Option<u64>) -> (r: bool)
    ensures
        r == limits_fit(*policy, cpu_cores),
{
    let limits = match &policy.core.resources {
        Some(r) => &r.limits,
        None => {
            return true;
        },
    };
    if let Some(c) = &limits.cpu {
        if parse_cpu_limit(c.as_str(), cpu_cores).is_err() {
            return true;
        }
    }
    if let Some(m) = &limits.memory {
        if !memory_limit_fits(m.as_str()) {
            return false;
        }
        if parse_memory_limit(m.as_str()).is_err() {
            return true;
        }
    }
    match &limits.execution_time {
        Some(t) => time_limit_fits(t.as_str()),
        None => true,
    }
}

impl CompiledPolicy {
    /// Compile a policy into optimized runtime structures. `mcp` is the policy's MCP
    /// section as read into permissions (`None` when there is none or it does not read
    /// as MCP permissions); `cpu_cores` is a CPU limit written as a number of cores,
    /// already in millicores (`None` when it is no number).
    pub fn compile(policy: &Policy, mcp: &Option<McpPermissions>, cpu_cores: Option<u64>) -> (r: Result<
        CompiledPolicy,
        PolicyError,
    >)
        requires
            limits_fit(*policy, cpu_cores),
        ensures
            r is Ok <==> compiles(*policy, *mcp, cpu_cores),
            r matches Err(e) ==> compile_failure(*policy, *mcp, cpu_cores, e),
            r matches Ok(c) ==> compiled_from(c, *policy, *mcp, cpu_cores),
            patterns_build(Seq::<Seq<char>>::empty()),
    {
        let no_hosts: Vec<NetworkRule> = Vec::new();
        let (na, nd) = match &policy.core.network {
            Some(n) => (&n.allow, &n.deny),
            None => (&no_hosts, &no_hosts),
        };
        let (nw, nb, npat, ndeny, any_host) = compile_network(na, nd)?;
        let no_paths: Vec<StorageRule> = Vec::new();
        let (sa, sd) = match &policy.core.storage {
            Some(st) => (&st.allow, &st.deny),
            None => (&no_paths, &no_paths),
        };
        let (allow_set, deny_set, access, trie) = compile_storage(sa, sd)?;
        let no_keys: Vec<EnvironmentRule> = Vec::new();
        let (ea, ed) = match &policy.core.environment {
            Some(e) => (&e.allow, &e.deny),
            None => (&no_keys, &no_keys),
        };
        let (ew, eb) = compile_env(ea, ed);
        let limits = compile_limits(policy, cpu_cores)?;
        let (tw, tb, tpat, tdeny, any_tool) = compile_tools(policy, mcp)?;
        proof {
            lemma_set_nonempty(ew@, env_allow(*policy));
            lemma_access_entries_nonempty(storage_allow(*policy));
        }
        let capabilities = CapabilityFlags {
            can_execute_tools: any_tool,
            can_access_network: any_host,
            can_access_filesystem: access.len() > 0,
            can_read_environment: ew.len() > 0,
            can_access_resources: false,
            custom_flags: 0,
        };
        Ok(
            CompiledPolicy {
                tool_whitelist: tw,
                tool_patterns: tpat,
                tool_blacklist: tb,
                tool_deny_patterns: tdeny,
                network_whitelist: nw,
                network_blacklist: nb,
                network_patterns: npat,
                network_deny_patterns: ndeny,
                storage_allow_patterns: allow_set,
                storage_deny_patterns: deny_set,
                storage_access_map: access,
                env_whitelist: ew,
                env_blacklist: eb,
                resource_trie: trie,
                capabilities,
                resource_limits: limits,
            },
        )
    }

    /// Check if a tool is allowed
    pub fn is_tool_allowed(&self, name: &str) -> (r: bool)
        ensures
            r == self.spec_tool_allowed(name@),
    {
        if list_contains(&self.tool_blacklist, name) {
            return false;
        }
        if globset_is_match(&self.tool_deny_patterns, name) {
            return false;
        }
        if list_contains(&self.tool_whitelist, name) {
            return true;
        }
        globset_is_match(&self.tool_patterns, name)
    }

    /// Check if network access is allowed
    pub fn is_network_allowed(&self, host: &str) -> (r: bool)
        ensures
            r == self.spec_network_allowed(host@),
    {
        if list_contains(&self.network_blacklist, host) {
            return false;
        }
        if globset_is_match(&self.network_deny_patterns, host) {
            return false;
        }
        if list_contains(&self.network_whitelist, host) {
            return true;
        }
        globset_is_match(&self.network_patterns, host)
    }

    /// Check if storage access is allowed
    pub fn is_storage_allowed(&self, path: &str, operation: &str) -> (r: bool)
        ensures
            r == self.spec_storage_allowed(path@, operation@),
    {
        let normalized = strip_fs_scheme(path);
        let p = normalized.as_str();
        if globset_is_match(&self.storage_deny_patterns, p) {
            return false;
        }
        if !globset_is_match(&self.storage_allow_patterns, p) {
            return false;
        }
        let ghost m = access_view(self.storage_access_map@);
        let mut i: usize = 0;
        assert(m.skip(0) =~= m);
        while i < self.storage_access_map.len()
            invariant
                i <= self.storage_access_map.len(),
                m == access_view(self.storage_access_map@),
                p@ == strip_fs(path@),
                !any_glob_matches(globset_patterns(self.storage_deny_patterns), p@),
                any_glob_matches(globset_patterns(self.storage_allow_patterns), p@),
                first_ops(m, p@) == first_ops(m.skip(i as int), p@),
            decreases self.storage_access_map.len() - i,
        {
            let ghost rest = m.skip(i as int);
            assert(rest[0] == (self.storage_access_map@[i as int].0@, texts(self.storage_access_map@[i as int].1@)));
            assert(rest.drop_first() =~= m.skip(i + 1));
            if glob_is_match(self.storage_access_map[i].0.as_str(), p) {
                proof {
                    lemma_in_list_texts(self.storage_access_map@[i as int].1@, operation@);
                }
                return list_contains(&self.storage_access_map[i].1, operation);
            }
            i = i + 1;
        }
        false
    }

    /// Check if environment variable access is allowed
    pub fn is_env_allowed(&self, key: &str) -> (r: bool)
        ensures
            r == self.spec_env_allowed(key@),
    {
        if list_contains(&self.env_blacklist, key) {
            return false;
        }
        list_contains(&self.env_whitelist, key)
    }
}


// ----- laws of a compiled policy -----

/// A tool that the policy denies by name is never allowed, whatever allows it.
pub proof fn lemma_denied_tool_refused(
    c: CompiledPolicy,
    p: Policy,
    mcp: Option<McpPermissions>,
    cores: Option<u64>,
    name: Seq<char>,
)
    requires
        compiled_from(c, p, mcp, cores),
        denied_tools(p, mcp).contains(name),
    ensures
        !c.spec_tool_allowed(name),
{
    assert(in_list(c.tool_blacklist@, name));
}

/// A tool that the policy allows by its exact name, and that no deny rule names or
/// matches, is allowed.
pub proof fn lemma_named_tool_allowed(
    c: CompiledPolicy,
    p: Policy,
    mcp: Option<McpPermissions>,
    cores: Option<u64>,
    name: Seq<char>,
)
    requires
        compiled_from(c, p, mcp, cores),
        unstarred(allowed_tools(p, mcp)).contains(name),
        !denied_tools(p, mcp).contains(name),
        !any_glob_matches(starred(denied_tools(p, mcp)), name),
    ensures
        c.spec_tool_allowed(name),
{
    assert(in_list(c.tool_whitelist@, name));
    assert(!in_list(c.tool_blacklist@, name));
}

/// A tool that no allow rule names or matches is not allowed.
pub proof fn lemma_unlisted_tool_refused(
    c: CompiledPolicy,
    p: Policy,
    mcp: Option<McpPermissions>,
    cores: Option<u64>,
    name: Seq<char>,
)
    requires
        compiled_from(c, p, mcp, cores),
        !unstarred(allowed_tools(p, mcp)).contains(name),
        !any_glob_matches(starred(allowed_tools(p, mcp)), name),
    ensures
        !c.spec_tool_allowed(name),
{
    assert(!in_list(c.tool_whitelist@, name));
}

/// A host that the policy denies by name is never allowed.
pub proof fn lemma_denied_host_refused(
    c: CompiledPolicy,
    p: Policy,
    mcp: Option<McpPermissions>,
    cores: Option<u64>,
    host: Seq<char>,
)
    requires
        compiled_from(c, p, mcp, cores),
        unstarred(rule_hosts(network_deny(p))).contains(host),
    ensures
        !c.spec_network_allowed(host),
{
    assert(in_list(c.network_blacklist@, host));
}

/// A host that the policy allows by its exact name, and that no deny rule names or
/// matches, is allowed.
pub proof fn lemma_named_host_allowed(
    c: CompiledPolicy,
    p: Policy,
    mcp: Option<McpPermissions>,
    cores: Option<u64>,
    host: Seq<char>,
)
    requires
        compiled_from(c, p, mcp, cores),
        unstarred(rule_hosts(network_allow(p))).contains(host),
        !unstarred(rule_hosts(network_deny(p))).contains(host),
        !any_glob_matches(starred(rule_hosts(network_deny(p))), host),
    ensures
        c.spec_network_allowed(host),
{
    assert(in_list(c.network_whitelist@, host));
    assert(!in_list(c.network_blacklist@, host));
}

/// An environment variable is allowed exactly when the policy allows it and does not deny it.
pub proof fn lemma_env_allowed_exactly(
    c: CompiledPolicy,
    p: Policy,
    mcp: Option<McpPermissions>,
    cores: Option<u64>,
    key: Seq<char>,
)
    requires
        compiled_from(c, p, mcp, cores),
    ensures
        c.spec_env_allowed(key) == (env_allow(p).contains(key) && !env_deny(p).contains(key)),
{
    assert(in_list(c.env_whitelist@, key) == env_allow(p).contains(key));
    assert(in_list(c.env_blacklist@, key) == env_deny(p).contains(key));
}

/// A path that some denied storage pattern matches is never accessible.
pub proof fn lemma_denied_path_refused(
    c: CompiledPolicy,
    p: Policy,
    mcp: Option<McpPermissions>,
    cores: Option<u64>,
    path: Seq<char>,
    op: Seq<char>,
    k: int,
)
    requires
        compiled_from(c, p, mcp, cores),
        0 <= k < storage_deny(p).len(),
        glob_matches(storage_patterns(storage_deny(p))[k], strip_fs(path)),
    ensures
        !c.spec_storage_allowed(path, op),
{
    assert(globset_patterns(c.storage_deny_patterns)[k] == storage_patterns(storage_deny(p))[k]);
}

/// A tool that some denied pattern matches is never allowed, whatever allows it.
pub proof fn lemma_denied_tool_pattern_refused(
    c: CompiledPolicy,
    p: Policy,
    mcp: Option<McpPermissions>,
    cores: Option<u64>,
    name: Seq<char>,
    k: int,
)
    requires
        compiled_from(c, p, mcp, cores),
        0 <= k < starred(denied_tools(p, mcp)).len(),
        glob_matches(starred(denied_tools(p, mcp))[k], name),
    ensures
        !c.spec_tool_allowed(name),
{
    assert(globset_patterns(c.tool_deny_patterns)[k] == starred(denied_tools(p, mcp))[k]);
}

/// A host that some denied pattern matches is never allowed, whatever allows it.
pub proof fn lemma_denied_host_pattern_refused(
    c: CompiledPolicy,
    p: Policy,
    mcp: Option<McpPermissions>,
    cores: Option<u64>,
    host: Seq<char>,
    k: int,
)
    requires
        compiled_from(c, p, mcp, cores),
        0 <= k < starred(rule_hosts(network_deny(p))).len(),
        glob_matches(starred(rule_hosts(network_deny(p)))[k], host),
    ensures
        !c.spec_network_allowed(host),
{
    assert(globset_patterns(c.network_deny_patterns)[k] == starred(rule_hosts(network_deny(p)))[k]);
}

/// The capability flags cover what the policy allows: a policy that allows some host,
/// tool, storage operation or environment variable has the matching flag set.
pub proof fn lemma_capabilities_cover_allowed(
    c: CompiledPolicy,
    p: Policy,
    mcp: Option<McpPermissions>,
    cores: Option<u64>,
    host: Seq<char>,
    tool: Seq<char>,
    path: Seq<char>,
    op: Seq<char>,
    key: Seq<char>,
)
    requires
        compiled_from(c, p, mcp, cores),
    ensures
        c.spec_network_allowed(host) ==> c.capabilities.can_access_network,
        c.spec_tool_allowed(tool) ==> c.capabilities.can_execute_tools,
        c.spec_storage_allowed(path, op) ==> c.capabilities.can_access_filesystem,
        c.spec_env_allowed(key) ==> c.capabilities.can_read_environment,
{
    let hosts = rule_hosts(network_allow(p));
    lemma_split_shorter(hosts);
    let tools = allowed_tools(p, mcp);
    lemma_split_shorter(tools);
    if c.spec_network_allowed(host) {
        if in_list(c.network_whitelist@, host) {
            assert(unstarred(hosts).contains(host));
        }
    }
    if c.spec_tool_allowed(tool) {
        if in_list(c.tool_whitelist@, tool) {
            assert(unstarred(tools).contains(tool));
        }
    }
    if c.spec_storage_allowed(path, op) {
        lemma_first_ops_nonempty(access_view(c.storage_access_map@), strip_fs(path));
        lemma_access_entries_nonempty(storage_allow(p));
    }
    if c.spec_env_allowed(key) {
        assert(env_allow(p).contains(key));
    }
}

/// The patterns and the plain names of a list are no more than the list.
proof fn lemma_split_shorter(names: Seq<Seq<char>>)
    ensures
        starred(names).len() <= names.len(),
        unstarred(names).len() <= names.len(),
    decreases names.len(),
{
    if names.len() > 0 {
        lemma_split_shorter(names.drop_last());
    }
}

/// An access map whose first matching entry exists is not empty.
proof fn lemma_first_ops_nonempty(m: Seq<(Seq<char>, Seq<Seq<char>>)>, path: Seq<char>)
    requires
        first_ops(m, path) is Some,
    ensures
        m.len() > 0,
{
}

} // verus!
