use vstd::prelude::*;

use std::sync::Arc;

use crate::policy::compiled::CompiledPolicy;
use crate::policy::error::PolicyError;
use crate::text::concat_str;

verus! {

/// Common runtime backend functionality
pub struct PolicyEnforcedRuntime {
    /// Compiled policy for runtime enforcement
    pub policy: Arc<CompiledPolicy>,
    /// Selected runtime backend
    pub backend: RuntimeBackend,
}

/// Available runtime backends
#[derive(Debug, Clone, Copy, PartialEq, Eq, Structural)]
pub enum RuntimeBackend {
    /// The Wasmtime runtime
    Wasmtime,
    /// The WasmEdge runtime
    WasmEdge,
}

/// A permission-denied error for `action` on `resource`.
pub open spec fn denied(e: PolicyError, action: Seq<char>, resource: Seq<char>) -> bool {
    e matches PolicyError::PermissionDenied { action: a, resource: r } && a@ == action && r@ == resource
}

fn permission_denied(action: String, resource: &str) -> (e: PolicyError)
    ensures
        denied(e, action@, resource@),
{
    PolicyError::PermissionDenied { action, resource: resource.to_string() }
}

impl PolicyEnforcedRuntime {
    /// Check tool permission
    pub fn check_tool_permission(&self, name: &str) -> (r: Result<(), PolicyError>)
        ensures
            r is Ok <==> self.policy.spec_tool_allowed(name@),
            r matches Err(e) ==> denied(e, "tool_execute"@, name@),
    {
        if !self.policy.is_tool_allowed(name) {
            return Err(permission_denied("tool_execute".to_string(), name));
        }
        Ok(())
    }

    /// Check network permission
    pub fn check_network_permission(&self, host: &str) -> (r: Result<(), PolicyError>)
        ensures
            r is Ok <==> self.policy.spec_network_allowed(host@),
            r matches Err(e) ==> denied(e, "network_access"@, host@),
    {
        if !self.policy.is_network_allowed(host) {
            return Err(permission_denied("network_access".to_string(), host));
        }
        Ok(())
    }

    /// Check storage permission
    pub fn check_storage_permission(&self, path: &str, operation: &str) -> (r: Result<(), PolicyError>)
        ensures
            r is Ok <==> self.policy.spec_storage_allowed(path@, operation@),
            r matches Err(e) ==> denied(e, "storage_"@ + operation@, path@),
    {
        if !self.policy.is_storage_allowed(path, operation) {
            return Err(permission_denied(concat_str("storage_", operation), path));
        }
        Ok(())
    }

    /// Check environment permission
    pub fn check_env_permission(&self, key: &str) -> (r: Result<(), PolicyError>)
        ensures
            r is Ok <==> self.policy.spec_env_allowed(key@),
            r matches Err(e) ==> denied(e, "env_read"@, key@),
    {
        if !self.policy.is_env_allowed(key) {
            return Err(permission_denied("env_read".to_string(), key));
        }
        Ok(())
    }
}

} // verus!
