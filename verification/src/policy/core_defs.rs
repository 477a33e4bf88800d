use vstd::prelude::*;

use crate::policy::error::PolicyError;

verus! {

/// Capability flags for single-instruction permission checks
#[derive(Debug, Clone, Copy, Default)]
pub struct CapabilityFlags {
    /// Can execute tools
    pub can_execute_tools: bool,
    /// Can access network
    pub can_access_network: bool,
    /// Can access filesystem
    pub can_access_filesystem: bool,
    /// Can read environment variables
    pub can_read_environment: bool,
    /// Can access resources
    pub can_access_resources: bool,
    /// Custom flags (bitfield for extension-specific capabilities)
    pub custom_flags: u64,
}

/// No capability at all.
pub open spec fn no_capabilities() -> CapabilityFlags {
    CapabilityFlags {
        can_execute_tools: false,
        can_access_network: false,
        can_access_filesystem: false,
        can_read_environment: false,
        can_access_resources: false,
        custom_flags: 0,
    }
}

impl CapabilityFlags {
    /// Every flag that `required` sets is set here too, and so is every custom bit.
    pub open spec fn spec_has_all(self, required: CapabilityFlags) -> bool {
        &&& (required.can_execute_tools ==> self.can_execute_tools)
        &&& (required.can_access_network ==> self.can_access_network)
        &&& (required.can_access_filesystem ==> self.can_access_filesystem)
        &&& (required.can_read_environment ==> self.can_read_environment)
        &&& (required.can_access_resources ==> self.can_access_resources)
        &&& (self.custom_flags & required.custom_flags) == required.custom_flags
    }

    /// Some flag or custom bit is set both here and in `required`.
    pub open spec fn spec_has_any(self, required: CapabilityFlags) -> bool {
        ||| (self.can_execute_tools && required.can_execute_tools)
        ||| (self.can_access_network && required.can_access_network)
        ||| (self.can_access_filesystem && required.can_access_filesystem)
        ||| (self.can_read_environment && required.can_read_environment)
        ||| (self.can_access_resources && required.can_access_resources)
        ||| (self.custom_flags & required.custom_flags) != 0
    }

    /// An empty set of flags.
    pub fn none() -> (r: CapabilityFlags)
        ensures
            r == no_capabilities(),
    {
        CapabilityFlags {
            can_execute_tools: false,
            can_access_network: false,
            can_access_filesystem: false,
            can_read_environment: false,
            can_access_resources: false,
            custom_flags: 0,
        }
    }

    /// Check if all required flags are set
    pub fn has_all(&self, required: CapabilityFlags) -> (r: bool)
        ensures
            r == self.spec_has_all(required),
    {
        (!required.can_execute_tools || self.can_execute_tools) && (!required.can_access_network
            || self.can_access_network) && (!required.can_access_filesystem
            || self.can_access_filesystem) && (!required.can_read_environment
            || self.can_read_environment) && (!required.can_access_resources
            || self.can_access_resources) && (self.custom_flags & required.custom_flags)
            == required.custom_flags
    }

    /// Check if any of the required flags are set
    pub fn has_any(&self, required: CapabilityFlags) -> (r: bool)
        ensures
            r == self.spec_has_any(required),
    {
        (self.can_execute_tools && required.can_execute_tools) || (self.can_access_network
            && required.can_access_network) || (self.can_access_filesystem
            && required.can_access_filesystem) || (self.can_read_environment
            && required.can_read_environment) || (self.can_access_resources
            && required.can_access_resources) || (self.custom_flags & required.custom_flags) != 0
    }
}

/// Every set of flags has all of its own flags.
pub proof fn lemma_has_all_reflexive(f: CapabilityFlags)
    ensures
        f.spec_has_all(f),
{
    assert(f.custom_flags & f.custom_flags == f.custom_flags) by (bit_vector);
}

/// Having all of a non-empty requirement implies having some of it.
pub proof fn lemma_has_all_implies_has_any(f: CapabilityFlags, required: CapabilityFlags)
    requires
        f.spec_has_all(required),
        required.spec_has_any(required),
    ensures
        f.spec_has_any(required),
{
    let a = f.custom_flags;
    let b = required.custom_flags;
    assert((a & b) == b && (b & b) != 0 ==> (a & b) != 0) by (bit_vector);
}

/// Policy violation record
#[derive(Debug, Clone)]
pub enum Violation {
    /// A tool execution was refused
    ToolDenied {
        /// The tool
        tool: String,
        /// When, in seconds since the Unix epoch
        timestamp: u64,
    },
    /// A network access was refused
    NetworkDenied {
        /// The host
        host: String,
        /// When, in seconds since the Unix epoch
        timestamp: u64,
    },
    /// A file access was refused
    FileDenied {
        /// The path
        path: String,
        /// The operation
        operation: String,
        /// When, in seconds since the Unix epoch
        timestamp: u64,
    },
    /// A resource limit was exceeded
    ResourceLimitExceeded {
        /// The resource
        resource: String,
        /// The limit
        limit: u64,
        /// The amount requested
        requested: u64,
    },
    /// A violation reported by an extension
    Custom {
        /// The extension
        extension: String,
        /// The message
        message: String,
        /// When, in seconds since the Unix epoch
        timestamp: u64,
    },
}

/// The violations recorded under a policy and how many there were (a count that wraps
/// around at the largest `u64`).
pub struct ViolationLog {
    violations: Vec<Violation>,
    total: u64,
}

impl ViolationLog {
    /// The violations recorded, in order.
    pub closed spec fn recorded(self) -> Seq<Violation> {
        self.violations@
    }

    /// The violation count.
    pub closed spec fn count(self) -> u64 {
        self.total
    }

    /// An empty log.
    pub fn new() -> (r: ViolationLog)
        ensures
            r.recorded().len() == 0,
            r.count() == 0,
    {
        ViolationLog { violations: Vec::new(), total: 0 }
    }

    /// Record a violation: it is appended and the count goes up by one.
    pub fn record_violation(&mut self, violation: Violation)
        ensures
            final(self).recorded() == old(self).recorded().push(violation),
            final(self).count() == if old(self).count() == u64::MAX {
                0
            } else {
                old(self).count() + 1
            },
    {
        self.violations.push(violation);
        self.total = if self.total == u64::MAX {
            0
        } else {
            self.total + 1
        };
    }

    /// The violations recorded, in order.
    pub fn violations(&self) -> (r: &Vec<Violation>)
        ensures
            r@ == self.recorded(),
    {
        &self.violations
    }

    /// The violation count.
    pub fn total_violations(&self) -> (r: u64)
        ensures
            r == self.count(),
    {
        self.total
    }
}

/// Represents an action that can be permission-checked
pub trait Action {
    /// The type of the action, as text
    spec fn spec_action_type(&self) -> Seq<char>;

    /// The resource the action accesses, as text
    spec fn spec_resource(&self) -> Seq<char>;

    /// Returns the type of action (e.g., "tool", "network", "storage")
    fn action_type(&self) -> (r: &str)
        ensures
            r@ == self.spec_action_type(),
    ;

    /// Returns the specific resource being accessed
    fn resource(&self) -> (r: &str)
        ensures
            r@ == self.spec_resource(),
    ;
}

/// Core permission trait for authorization checks
pub trait Permission {
    /// Whether an action of the given type on the given resource is allowed
    spec fn spec_allows(&self, action_type: Seq<char>, resource: Seq<char>) -> bool;

    /// Whether the permission configuration is well-formed
    spec fn spec_is_valid(&self) -> bool;

    /// Check if an action is allowed
    fn is_allowed<A: Action>(&self, action: &A) -> (r: bool)
        ensures
            r == self.spec_allows(action.spec_action_type(), action.spec_resource()),
    ;

    /// Validate the permission configuration
    fn validate(&self) -> (r: Result<(), PolicyError>)
        ensures
            r is Ok <==> self.spec_is_valid(),
    ;
}

} // verus!
