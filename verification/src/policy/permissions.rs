use vstd::prelude::*;

use crate::policy::error::PolicyError;
use crate::policy::yaml::YamlValue;
use crate::text::{has_prefix, starts_with, str_eq};

verus! {

/// Main policy structure containing all permissions
#[derive(Debug)]
pub struct Policy {
    /// Policy format version
    pub version: String,
    /// Optional description of the policy
    pub description: Option<String>,
    /// Core permissions configuration
    pub core: CorePermissions,
    /// Extension sections by name, as raw YAML values; a later entry for a name
    /// replaces an earlier one
    pub extensions: Vec<(String, YamlValue)>,
}

/// Core permissions that most WASM projects need
#[derive(Debug, Default)]
pub struct CorePermissions {
    /// Storage/filesystem access permissions
    pub storage: Option<StoragePermissions>,
    /// Network access permissions
    pub network: Option<NetworkPermissions>,
    /// Environment variable access permissions
    pub environment: Option<EnvironmentPermissions>,
    /// Resource usage limits
    pub resources: Option<ResourceLimits>,
}

/// Storage/filesystem permissions
#[derive(Debug)]
pub struct StoragePermissions {
    /// List of allowed storage access rules
    pub allow: Vec<StorageRule>,
    /// List of denied storage access rules
    pub deny: Vec<StorageRule>,
}

/// Individual storage access rule
#[derive(Debug)]
pub struct StorageRule {
    /// URI pattern for the storage resource
    pub uri: String,
    /// Allowed access modes (read, write, execute)
    pub access: Vec<String>,
}

/// Network access permissions
#[derive(Debug)]
pub struct NetworkPermissions {
    /// List of allowed network access rules
    pub allow: Vec<NetworkRule>,
    /// List of denied network access rules
    pub deny: Vec<NetworkRule>,
}

/// Individual network access rule
#[derive(Debug)]
pub enum NetworkRule {
    /// Host-based network rule
    Host {
        /// Hostname or domain pattern
        host: String,
    },
    /// CIDR-based network rule
    Cidr {
        /// CIDR notation for IP range
        cidr: String,
    },
}

/// Environment variable access permissions
#[derive(Debug)]
pub struct EnvironmentPermissions {
    /// List of allowed environment variables
    pub allow: Vec<EnvironmentRule>,
    /// List of denied environment variables
    pub deny: Vec<EnvironmentRule>,
}

/// Individual environment variable rule
#[derive(Debug)]
pub struct EnvironmentRule {
    /// Environment variable name/key
    pub key: String,
}

/// Resource limits for execution
#[derive(Debug)]
pub struct ResourceLimits {
    /// Resource limit values configuration
    pub limits: ResourceLimitValues,
}

/// Actual resource limit values
#[derive(Debug, Default)]
pub struct ResourceLimitValues {
    /// CPU limit (e.g., "100m" for 100 millicores, "0.5" for half a core)
    pub cpu: Option<String>,
    /// Memory limit (e.g., "128Mi", "1Gi")
    pub memory: Option<String>,
    /// Execution time limit (e.g., "30s", "5m", "1000ms")
    pub execution_time: Option<String>,
    /// WebAssembly fuel limit for instruction counting
    pub fuel: Option<u64>,
    /// Legacy memory limit field (deprecated, use 'memory' instead)
    pub memory_limit: Option<String>,
}

/// The map that a list of named entries stands for: a later entry for a name replaces an
/// earlier one.
pub open spec fn entry_map<V>(s: Seq<(String, V)>) -> Map<Seq<char>, V>
    decreases s.len(),
{
    if s.len() == 0 {
        Map::empty()
    } else {
        entry_map(s.drop_last()).insert(s.last().0@, s.last().1)
    }
}

/// Appending entries updates the map with the appended ones taking precedence.
pub proof fn lemma_entry_map_append<V>(a: Seq<(String, V)>, b: Seq<(String, V)>)
    ensures
        entry_map(a + b) == entry_map(a).union_prefer_right(entry_map(b)),
    decreases b.len(),
{
    if b.len() == 0 {
        assert(a + b =~= a);
        assert(entry_map(a).union_prefer_right(entry_map(b)) =~= entry_map(a));
    } else {
        assert((a + b).drop_last() =~= a + b.drop_last());
        assert((a + b).last() == b.last());
        lemma_entry_map_append(a, b.drop_last());
        assert(entry_map(a + b) =~= entry_map(a).union_prefer_right(entry_map(b)));
    }
}

/// The last entry named `k` is the one the map holds.
pub proof fn lemma_entry_map_at<V>(s: Seq<(String, V)>, k: Seq<char>, i: int)
    requires
        0 <= i < s.len(),
        s[i].0@ == k,
        forall|j: int| i < j < s.len() ==> (#[trigger] s[j]).0@ != k,
    ensures
        entry_map(s).contains_key(k),
        entry_map(s)[k] == s[i].1,
    decreases s.len(),
{
    if i < s.len() - 1 {
        let t = s.drop_last();
        assert forall|j: int| i < j < t.len() implies (#[trigger] t[j]).0@ != k by {
            assert(t[j] == s[j]);
        }
        lemma_entry_map_at(t, k, i);
    }
}

/// A name that no entry has is not in the map.
pub proof fn lemma_entry_map_absent<V>(s: Seq<(String, V)>, k: Seq<char>)
    requires
        forall|j: int| 0 <= j < s.len() ==> (#[trigger] s[j]).0@ != k,
    ensures
        !entry_map(s).contains_key(k),
    decreases s.len(),
{
    if s.len() > 0 {
        let t = s.drop_last();
        assert forall|j: int| 0 <= j < t.len() implies (#[trigger] t[j]).0@ != k by {
            assert(t[j] == s[j]);
        }
        lemma_entry_map_absent(t, k);
    }
}

/// The rules of a merged permission section.
pub open spec fn merged_rules<R>(mine: Option<(Seq<R>, Seq<R>)>, theirs: Option<(Seq<R>, Seq<R>)>) -> Option<(Seq<R>, Seq<R>)> {
    match theirs {
        None => mine,
        Some(t) => match mine {
            Some(m) => Some((m.0 + t.0, m.1 + t.1)),
            None => Some(t),
        },
    }
}

pub open spec fn storage_rules(s: Option<StoragePermissions>) -> Option<(Seq<StorageRule>, Seq<StorageRule>)> {
    match s {
        Some(p) => Some((p.allow@, p.deny@)),
        None => None,
    }
}

pub open spec fn network_rules(s: Option<NetworkPermissions>) -> Option<(Seq<NetworkRule>, Seq<NetworkRule>)> {
    match s {
        Some(p) => Some((p.allow@, p.deny@)),
        None => None,
    }
}

pub open spec fn environment_rules(s: Option<EnvironmentPermissions>) -> Option<(Seq<EnvironmentRule>, Seq<EnvironmentRule>)> {
    match s {
        Some(p) => Some((p.allow@, p.deny@)),
        None => None,
    }
}

/// A policy version that this library supports: a non-empty version starting with `1.`.
pub open spec fn supported_policy_version(v: Seq<char>) -> bool {
    v.len() > 0 && has_prefix(v, "1."@)
}

impl Policy {
    /// The extension section `name`: the last one of that name.
    pub fn extension(&self, name: &str) -> (r: Option<&YamlValue>)
        ensures
            r == (if entry_map(self.extensions@).contains_key(name@) {
                Some(&entry_map(self.extensions@)[name@])
            } else {
                None::<&YamlValue>
            }),
    {
        let mut i: usize = self.extensions.len();
        while i > 0
            invariant
                i <= self.extensions.len(),
                forall|j: int| i <= j < self.extensions.len() ==> (#[trigger] self.extensions@[j]).0@
                    != name@,
            decreases i,
        {
            if str_eq(self.extensions[i - 1].0.as_str(), name) {
                proof {
                    lemma_entry_map_at(self.extensions@, name@, i - 1);
                }
                return Some(&self.extensions[i - 1].1);
            }
            i = i - 1;
        }
        proof {
            lemma_entry_map_absent(self.extensions@, name@);
        }
        None
    }

    /// Validate policy structure
    pub fn validate(&self) -> (r: Result<(), PolicyError>)
        ensures
            r is Ok <==> supported_policy_version(self.version@),
            self.version@.len() == 0 ==> (r matches Err(PolicyError::ValidationError(m))
                && m@ == "Policy version is required"@),
            self.version@.len() > 0 && !has_prefix(self.version@, "1."@) ==> (r matches Err(
                PolicyError::ValidationError(m),
            ) && m@ == "Unsupported policy version: "@ + self.version@),
    {
        if self.version.as_str().is_empty() {
            return Err(PolicyError::ValidationError("Policy version is required".to_string()));
        }
        if !starts_with(self.version.as_str(), "1.") {
            return Err(
                PolicyError::ValidationError(
                    crate::text::concat_str("Unsupported policy version: ", self.version.as_str()),
                ),
            );
        }
        Ok(())
    }

    /// Merge with another policy (for inheritance): rule lists are concatenated, the
    /// existing resource limits are kept, and the other policy's extension sections
    /// replace those of the same name.
    pub fn merge(&mut self, other: Policy) -> (r: Result<(), PolicyError>)
        ensures
            r is Ok,
            final(self).version == old(self).version,
            final(self).description == old(self).description,
            storage_rules(final(self).core.storage) == merged_rules(
                storage_rules(old(self).core.storage),
                storage_rules(other.core.storage),
            ),
            network_rules(final(self).core.network) == merged_rules(
                network_rules(old(self).core.network),
                network_rules(other.core.network),
            ),
            environment_rules(final(self).core.environment) == merged_rules(
                environment_rules(old(self).core.environment),
                environment_rules(other.core.environment),
            ),
            final(self).core.resources == (if old(self).core.resources is Some {
                old(self).core.resources
            } else {
                other.core.resources
            }),
            final(self).extensions@ == old(self).extensions@ + other.extensions@,
            entry_map(final(self).extensions@) == entry_map(old(self).extensions@).union_prefer_right(
                entry_map(other.extensions@),
            ),
    {
        let Policy { version: _, description: _, core, extensions } = other;
        let CorePermissions { storage, network, environment, resources } = core;
        if let Some(mut other_storage) = storage {
            match self.core.storage.take() {
                Some(mut mine) => {
                    mine.allow.append(&mut other_storage.allow);
                    mine.deny.append(&mut other_storage.deny);
                    self.core.storage = Some(mine);
                },
                None => {
                    self.core.storage = Some(other_storage);
                },
            }
        }
        if let Some(mut other_network) = network {
            match self.core.network.take() {
                Some(mut mine) => {
                    mine.allow.append(&mut other_network.allow);
                    mine.deny.append(&mut other_network.deny);
                    self.core.network = Some(mine);
                },
                None => {
                    self.core.network = Some(other_network);
                },
            }
        }
        if let Some(mut other_env) = environment {
            match self.core.environment.take() {
                Some(mut mine) => {
                    mine.allow.append(&mut other_env.allow);
                    mine.deny.append(&mut other_env.deny);
                    self.core.environment = Some(mine);
                },
                None => {
                    self.core.environment = Some(other_env);
                },
            }
        }
        if let Some(other_resources) = resources {
            if self.core.resources.is_none() {
                self.core.resources = Some(other_resources);
            }
        }
        let ghost before = self.extensions@;
        let mut ext = extensions;
        self.extensions.append(&mut ext);
        proof {
            lemma_entry_map_append(before, extensions@);
        }
        Ok(())
    }
}

} // verus!
