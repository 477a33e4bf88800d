use vstd::prelude::*;

use std::sync::Arc;

use crate::policy::compiled::{compile_failure, compiled_from, compiles, limits_fit, CompiledPolicy};
use crate::policy::error::error_text;
use crate::policy::mcp::McpPermissions;
use crate::policy::permissions::Policy;
use crate::text::{concat_str, texts};

verus! {

/// A JSON-RPC error answered to a client
#[derive(Debug, Clone)]
pub struct ErrorData {
    /// The error code
    pub code: i32,
    /// The message
    pub message: String,
    /// Further data, as JSON text
    pub data: Option<String>,
}

/// A server handler wrapper that enforces policies transparently
pub struct PolicyEnabledServer<H> {
    inner: H,
    policy: Option<Arc<CompiledPolicy>>,
}

/// The error for a refused request: invalid params (-32602), `Access denied: <action>
/// for <resource>`.
pub open spec fn denial(e: ErrorData, action: Seq<char>, resource: Seq<char>) -> bool {
    e.code == -32602 && e.message@ == "Access denied: "@ + action + " for "@ + resource
        && e.data is None
}

impl<H> PolicyEnabledServer<H> {
    /// The wrapped handler.
    pub closed spec fn handler(self) -> H {
        self.inner
    }

    /// The policy enforced, if any.
    pub closed spec fn enforced(self) -> Option<CompiledPolicy> {
        match self.policy {
            Some(p) => Some(*p),
            None => None,
        }
    }

    /// Create a new policy-enabled server wrapping an existing handler
    pub fn new(inner: H) -> (r: PolicyEnabledServer<H>)
        ensures
            r.handler() == inner,
            r.enforced() is None,
    {
        PolicyEnabledServer { inner, policy: None }
    }

    /// Create a new policy-enabled server with a policy (see [`CompiledPolicy::compile`]
    /// for `mcp` and `cpu_cores`); a policy that does not compile is an internal error
    /// (-32603).
    pub fn with_policy(inner: H, policy: Policy, mcp: &Option<McpPermissions>, cpu_cores: Option<u64>) -> (r: Result<
        PolicyEnabledServer<H>,
        ErrorData,
    >)
        requires
            limits_fit(policy, cpu_cores),
        ensures
            r is Ok <==> compiles(policy, *mcp, cpu_cores),
            r matches Ok(s) ==> (s.handler() == inner && (s.enforced() matches Some(c) && compiled_from(
                c,
                policy,
                *mcp,
                cpu_cores,
            ))),
            r matches Err(e) ==> e.code == -32603 && e.data is None && exists|pe: crate::policy::error::PolicyError|
                compile_failure(policy, *mcp, cpu_cores, pe) && e.message@ == "Failed to compile policy: "@
                + error_text(pe),
    {
        match CompiledPolicy::compile(&policy, mcp, cpu_cores) {
            Ok(compiled) => Ok(PolicyEnabledServer { inner, policy: Some(Arc::new(compiled)) }),
            Err(e) => {
                let text = e.message();
                let message = concat_str("Failed to compile policy: ", text.as_str());
                assert(compile_failure(policy, *mcp, cpu_cores, e) && message@
                    == "Failed to compile policy: "@ + error_text(e));
                Err(ErrorData { code: -32603, message, data: None })
            },
        }
    }

    /// Create from a pre-compiled policy
    pub fn with_compiled_policy(inner: H, policy: Arc<CompiledPolicy>) -> (r: PolicyEnabledServer<H>)
        ensures
            r.handler() == inner,
            r.enforced() == Some(*policy),
    {
        PolicyEnabledServer { inner, policy: Some(policy) }
    }

    /// Get a reference to the inner handler
    pub fn inner(&self) -> (r: &H)
        ensures
            *r == self.handler(),
    {
        &self.inner
    }

    /// Get a mutable reference to the inner handler
    pub fn inner_mut(&mut self) -> (r: &mut H)
        ensures
            *r == old(self).handler(),
            final(self).handler() == *final(r),
            final(self).enforced() == old(self).enforced(),
    {
        &mut self.inner
    }

    /// Check if policy enforcement is enabled
    pub fn has_policy(&self) -> (r: bool)
        ensures
            r == self.enforced() is Some,
    {
        self.policy.is_some()
    }

    /// Standard MCP error for permission denied
    pub fn permission_denied(action: &str, resource: &str) -> (e: ErrorData)
        ensures
            denial(e, action@, resource@),
    {
        let a = concat_str("Access denied: ", action);
        let b = concat_str(a.as_str(), " for ");
        ErrorData { code: -32602, message: concat_str(b.as_str(), resource), data: None }
    }

    /// Whether a tool call goes through: always without a policy; otherwise when the
    /// policy allows the tool, and refused as `tool` access otherwise.
    pub fn check_tool_call(&self, name: &str) -> (r: Result<(), ErrorData>)
        ensures
            match self.enforced() {
                None => r is Ok,
                Some(p) => (r is Ok <==> p.spec_tool_allowed(name@)) && (r matches Err(e) ==> denial(
                    e,
                    "tool"@,
                    name@,
                )),
            },
    {
        if let Some(policy) = &self.policy {
            if !policy.is_tool_allowed(name) {
                return Err(Self::permission_denied("tool", name));
            }
        }
        Ok(())
    }

    /// Whether a resource read goes through: always without a policy; otherwise when the
    /// policy allows reading it as storage, and refused as `resource` access otherwise.
    pub fn check_resource_read(&self, uri: &str) -> (r: Result<(), ErrorData>)
        ensures
            match self.enforced() {
                None => r is Ok,
                Some(p) => (r is Ok <==> p.spec_storage_allowed(uri@, "read"@)) && (r matches Err(e)
                    ==> denial(e, "resource"@, uri@)),
            },
    {
        if let Some(policy) = &self.policy {
            if !policy.is_storage_allowed(uri, "read") {
                return Err(Self::permission_denied("resource", uri));
            }
        }
        Ok(())
    }

    /// Which of the listed tools a client sees: all without a policy, else those the
    /// policy allows.
    pub fn visible_tools(&self, names: &Vec<String>) -> (r: Vec<bool>)
        ensures
            r@.len() == names@.len(),
            forall|i: int| 0 <= i < names@.len() ==> #[trigger] r@[i] == match self.enforced() {
                None => true,
                Some(p) => p.spec_tool_allowed(names@[i]@),
            },
    {
        let mut out: Vec<bool> = Vec::new();
        let mut i: usize = 0;
        while i < names.len()
            invariant
                i <= names.len(),
                out@.len() == i,
                forall|k: int| 0 <= k < i ==> #[trigger] out@[k] == match self.enforced() {
                    None => true,
                    Some(p) => p.spec_tool_allowed(names@[k]@),
                },
            decreases names.len() - i,
        {
            let shown = match &self.policy {
                Some(policy) => policy.is_tool_allowed(names[i].as_str()),
                None => true,
            };
            out.push(shown);
            i = i + 1;
        }
        out
    }

    /// The listing a client gets: the handler's tools, in order, that the policy allows
    /// (all of them without a policy), with the handler's cursor for the next page.
    pub fn list_tools(&self, listed: ToolList) -> (r: ToolList)
        ensures
            texts(r.tools@) == shown_tools(self.enforced(), texts(listed.tools@)),
            r.next_cursor == listed.next_cursor,
    {
        let ToolList { tools, next_cursor } = listed;
        let ghost all = texts(tools@);
        let ghost keep = tool_shown(self.enforced());
        let mut out: Vec<String> = Vec::new();
        let mut i: usize = 0;
        assert(all.subrange(0, 0).filter(keep) =~= Seq::<Seq<char>>::empty()) by {
            reveal(Seq::filter);
        }
        while i < tools.len()
            invariant
                i <= tools.len(),
                all == texts(tools@),
                keep == tool_shown(self.enforced()),
                texts(out@) == all.subrange(0, i as int).filter(keep),
            decreases tools.len() - i,
        {
            let shown = match &self.policy {
                Some(policy) => policy.is_tool_allowed(tools[i].as_str()),
                None => true,
            };
            let ghost before = texts(out@);
            proof {
                reveal(Seq::filter);
                let sub = all.subrange(0, i + 1);
                assert(sub.drop_last() =~= all.subrange(0, i as int));
                assert(sub.last() == tools@[i as int]@);
            }
            if shown {
                out.push(tools[i].clone());
                assert(texts(out@) =~= before.push(tools@[i as int]@));
            } else {
                assert(texts(out@) =~= before);
            }
            i = i + 1;
        }
        assert(all.subrange(0, all.len() as int) =~= all);
        let r = ToolList { tools: out, next_cursor };
        proof {
            match self.enforced() {
                None => {
                    assert(all.filter(keep) =~= all) by {
                        lemma_filter_all(all, keep);
                    }
                },
                Some(_) => {},
            }
        }
        r
    }

    /// A tool call: refused as `tool` access when the policy does not allow the tool (the
    /// handler is then not called), else what the handler's `call` answers.
    pub fn call_tool<T, F>(&self, name: &str, call: F) -> (r: Result<T, ErrorData>)
        where
            F: FnOnce() -> Result<T, ErrorData>,
        requires
            call.requires(()),
        ensures
            match self.enforced() {
                Some(p) if !p.spec_tool_allowed(name@) => r matches Err(e) && denial(
                    e,
                    "tool"@,
                    name@,
                ),
                _ => call.ensures((), r),
            },
    {
        if let Some(policy) = &self.policy {
            if !policy.is_tool_allowed(name) {
                return Err(Self::permission_denied("tool", name));
            }
        }
        call()
    }
}

/// A handler's listing of tools, by name, with the cursor for the next page.
pub struct ToolList {
    /// The tools' names
    pub tools: Vec<String>,
    /// The cursor for the next page, if any
    pub next_cursor: Option<String>,
}

/// Whether a client is shown a tool: always without a policy, else when the policy
/// allows it.
pub open spec fn tool_shown(enforced: Option<CompiledPolicy>) -> spec_fn(Seq<char>) -> bool {
    |n: Seq<char>| match enforced {
        None => true,
        Some(p) => p.spec_tool_allowed(n),
    }
}

/// The tools a client is shown, in order: all without a policy, else those the policy
/// allows.
pub open spec fn shown_tools(enforced: Option<CompiledPolicy>, names: Seq<Seq<char>>) -> Seq<Seq<char>> {
    match enforced {
        None => names,
        Some(_) => names.filter(tool_shown(enforced)),
    }
}

proof fn lemma_filter_all(s: Seq<Seq<char>>, f: spec_fn(Seq<char>) -> bool)
    requires
        forall|x: Seq<char>| #[trigger] f(x),
    ensures
        s.filter(f) == s,
    decreases s.len(),
{
    reveal(Seq::filter);
    if s.len() > 0 {
        lemma_filter_all(s.drop_last(), f);
        assert(s.drop_last().push(s.last()) =~= s);
    }
}

} // verus!
