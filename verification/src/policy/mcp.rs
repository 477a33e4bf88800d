use vstd::prelude::*;

use crate::policy::core_defs::{no_capabilities, Action, CapabilityFlags, Permission};
use crate::policy::error::PolicyError;
use crate::policy::glob::{glob_match, lemma_lone_star, star, wildcard_matches};
use crate::text::{in_list, list_contains, str_eq};

verus! {

/// MCP extension for mcpkit-rs specific permissions
pub struct McpExtension;

/// Capability flags that the MCP extension grants at runtime.
pub struct McpRuntimeConfig {
    /// Runtime type
    pub runtime: String,
    /// Pre-computed permission flags
    pub flags: CapabilityFlags,
}

impl McpExtension {
    /// Unique identifier for this extension
    pub fn id(&self) -> (r: &str)
        ensures
            r@ == "mcp"@,
    {
        "mcp"
    }

    /// Validate the permission configuration
    pub fn validate(&self, permission: &McpPermissions) -> (r: Result<(), PolicyError>)
        ensures
            r is Ok <==> permission.spec_valid(),
    {
        permission.validate()
    }

    /// Convert to runtime-specific configuration: tools and resources are enabled.
    pub fn to_runtime_config(&self, _permission: &McpPermissions) -> (r: McpRuntimeConfig)
        ensures
            r.runtime@ == "mcp"@,
            r.flags == (CapabilityFlags {
                can_execute_tools: true,
                can_access_resources: true,
                ..no_capabilities()
            }),
    {
        McpRuntimeConfig {
            runtime: "mcp".to_string(),
            flags: CapabilityFlags {
                can_execute_tools: true,
                can_access_network: false,
                can_access_filesystem: false,
                can_read_environment: false,
                can_access_resources: true,
                custom_flags: 0,
            },
        }
    }
}

/// MCP-specific permissions
#[derive(Debug)]
pub struct McpPermissions {
    /// Tool execution permissions
    pub tools: Option<ToolPermissions>,
    /// Prompt access permissions
    pub prompts: Option<PromptPermissions>,
    /// Resource access permissions
    pub resources: Option<ResourcePermissions>,
    /// Transport layer permissions
    pub transport: Option<TransportPermissions>,
}

/// Tool execution permissions
#[derive(Debug)]
pub struct ToolPermissions {
    /// List of allowed tools
    pub allow: Vec<ToolRule>,
    /// List of denied tools
    pub deny: Vec<ToolRule>,
}

/// Individual tool rule
#[derive(Debug)]
pub struct ToolRule {
    /// Tool name or pattern
    pub name: String,
    /// Rate limit for tool calls per minute
    pub max_calls_per_minute: Option<u32>,
    /// Parameter constraints for the tool, each value as JSON text
    pub parameters: Option<Vec<(String, String)>>,
}

/// Prompt permissions
#[derive(Debug)]
pub struct PromptPermissions {
    /// List of allowed prompts
    pub allow: Vec<PromptRule>,
    /// List of denied prompts
    pub deny: Vec<PromptRule>,
}

/// Individual prompt rule
#[derive(Debug)]
pub struct PromptRule {
    /// Prompt name or pattern
    pub name: String,
    /// Maximum prompt length in characters
    pub max_length: Option<usize>,
}

/// Resource access permissions
#[derive(Debug)]
pub struct ResourcePermissions {
    /// List of allowed resources
    pub allow: Vec<ResourceRule>,
    /// List of denied resources
    pub deny: Vec<ResourceRule>,
}

/// Individual resource rule
#[derive(Debug)]
pub struct ResourceRule {
    /// Resource URI pattern
    pub uri: String,
    /// Allowed operations (read, write, list, etc.)
    pub operations: Vec<String>,
}

/// Transport configuration
#[derive(Debug)]
pub struct TransportPermissions {
    /// Enable stdio transport
    pub stdio: bool,
    /// HTTP transport configuration
    pub http: Option<HttpTransportConfig>,
    /// Enable WebSocket transport
    pub websocket: bool,
}

/// HTTP transport configuration
#[derive(Debug)]
pub struct HttpTransportConfig {
    /// List of allowed HTTP hosts
    pub allowed_hosts: Vec<String>,
}

/// MCP-specific action types
#[derive(Debug)]
pub struct McpAction {
    /// Type of MCP action
    pub action_type: McpActionType,
    /// Resource being accessed
    pub resource: String,
    /// Additional context for the action, as key/value pairs
    pub context: Option<Vec<(String, String)>>,
}

/// Types of MCP actions that can be performed
#[derive(Debug)]
pub enum McpActionType {
    /// Tool execution action
    ToolExecute,
    /// Prompt retrieval action
    PromptGet,
    /// Resource read action
    ResourceRead,
    /// Resource write action
    ResourceWrite,
    /// Resource list action
    ResourceList,
}

/// The name under which each kind of MCP action is checked.
pub open spec fn action_type_name(t: McpActionType) -> Seq<char> {
    match t {
        McpActionType::ToolExecute => "tool"@,
        McpActionType::PromptGet => "prompt"@,
        McpActionType::ResourceRead => "resource_read"@,
        McpActionType::ResourceWrite => "resource_write"@,
        McpActionType::ResourceList => "resource_list"@,
    }
}

impl Action for McpAction {
    open spec fn spec_action_type(&self) -> Seq<char> {
        action_type_name(self.action_type)
    }

    open spec fn spec_resource(&self) -> Seq<char> {
        self.resource@
    }

    fn action_type(&self) -> (r: &str) {
        match self.action_type {
            McpActionType::ToolExecute => "tool",
            McpActionType::PromptGet => "prompt",
            McpActionType::ResourceRead => "resource_read",
            McpActionType::ResourceWrite => "resource_write",
            McpActionType::ResourceList => "resource_list",
        }
    }

    fn resource(&self) -> (r: &str) {
        self.resource.as_str()
    }
}

impl McpAction {
    /// Additional context for this action
    pub fn context(&self) -> (r: &Option<Vec<(String, String)>>)
        ensures
            r == self.context,
    {
        &self.context
    }
}

/// Some rule of the list names `name` by a wildcard pattern.
pub open spec fn some_tool_rule_matches(rules: Seq<ToolRule>, name: Seq<char>) -> bool {
    exists|i: int| 0 <= i < rules.len() && wildcard_matches((#[trigger] rules[i]).name@, name)
}

/// Some rule of the list names `name` exactly.
pub open spec fn some_prompt_rule_is(rules: Seq<PromptRule>, name: Seq<char>) -> bool {
    exists|i: int| 0 <= i < rules.len() && (#[trigger] rules[i]).name@ == name
}

/// Some rule of the list covers `uri` by a wildcard pattern and lists `op`.
pub open spec fn some_resource_rule_covers(rules: Seq<ResourceRule>, uri: Seq<char>, op: Seq<char>) -> bool {
    exists|i: int|
        0 <= i < rules.len() && wildcard_matches((#[trigger] rules[i]).uri@, uri) && in_list(
            rules[i].operations@,
            op,
        )
}

/// A tool that some deny rule matches is refused, whatever the allow rules say.
pub proof fn lemma_mcp_denied_tool_refused(p: McpPermissions, name: Seq<char>, i: int)
    requires
        p.tools matches Some(t) && 0 <= i < t.deny@.len() && wildcard_matches(t.deny@[i].name@, name),
    ensures
        !p.spec_tool_allowed(name),
{
}

/// An allow rule `*` allows every tool that no deny rule matches.
pub proof fn lemma_mcp_star_allows(p: McpPermissions, name: Seq<char>, i: int)
    requires
        p.tools matches Some(t) && 0 <= i < t.allow@.len() && t.allow@[i].name@ == star()
            && !some_tool_rule_matches(t.deny@, name),
    ensures
        p.spec_tool_allowed(name),
{
    lemma_lone_star(name);
}

impl McpPermissions {
    /// A tool is allowed when some allow rule matches it and no deny rule does.
    pub open spec fn spec_tool_allowed(self, name: Seq<char>) -> bool {
        match self.tools {
            Some(t) => !some_tool_rule_matches(t.deny@, name) && some_tool_rule_matches(
                t.allow@,
                name,
            ),
            None => false,
        }
    }

    /// A prompt is allowed when some allow rule names it and no deny rule does.
    pub open spec fn spec_prompt_allowed(self, name: Seq<char>) -> bool {
        match self.prompts {
            Some(p) => !some_prompt_rule_is(p.deny@, name) && some_prompt_rule_is(p.allow@, name),
            None => false,
        }
    }

    /// An operation on a resource is allowed when some allow rule covers it and no deny
    /// rule does.
    pub open spec fn spec_resource_allowed(self, uri: Seq<char>, op: Seq<char>) -> bool {
        match self.resources {
            Some(r) => !some_resource_rule_covers(r.deny@, uri, op) && some_resource_rule_covers(
                r.allow@,
                uri,
                op,
            ),
            None => false,
        }
    }

    /// Every allow rule names something and every resource allow rule lists operations.
    pub open spec fn spec_valid(self) -> bool {
        &&& (self.tools matches Some(t) ==> tool_rules_named(t.allow@))
        &&& (self.prompts matches Some(p) ==> prompt_rules_named(p.allow@))
        &&& (self.resources matches Some(r) ==> resource_rules_complete(r.allow@))
    }

    fn tool_rule_matches(rules: &Vec<ToolRule>, name: &str) -> (r: bool)
        ensures
            r == some_tool_rule_matches(rules@, name@),
    {
        let mut i: usize = 0;
        while i < rules.len()
            invariant
                i <= rules.len(),
                forall|k: int| 0 <= k < i ==> !wildcard_matches((#[trigger] rules@[k]).name@, name@),
            decreases rules.len() - i,
        {
            if glob_match(rules[i].name.as_str(), name) {
                return true;
            }
            i = i + 1;
        }
        false
    }

    fn prompt_rule_is(rules: &Vec<PromptRule>, name: &str) -> (r: bool)
        ensures
            r == some_prompt_rule_is(rules@, name@),
    {
        let mut i: usize = 0;
        while i < rules.len()
            invariant
                i <= rules.len(),
                forall|k: int| 0 <= k < i ==> (#[trigger] rules@[k]).name@ != name@,
            decreases rules.len() - i,
        {
            if str_eq(rules[i].name.as_str(), name) {
                return true;
            }
            i = i + 1;
        }
        false
    }

    fn resource_rule_covers(rules: &Vec<ResourceRule>, uri: &str, op: &str) -> (r: bool)
        ensures
            r == some_resource_rule_covers(rules@, uri@, op@),
    {
        let mut i: usize = 0;
        while i < rules.len()
            invariant
                i <= rules.len(),
                forall|k: int|
                    0 <= k < i ==> !(wildcard_matches((#[trigger] rules@[k]).uri@, uri@) && in_list(
                        rules@[k].operations@,
                        op@,
                    )),
            decreases rules.len() - i,
        {
            if glob_match(rules[i].uri.as_str(), uri) && list_contains(&rules[i].operations, op) {
                return true;
            }
            i = i + 1;
        }
        false
    }

    /// Check whether a tool may be executed: deny rules are checked first.
    pub fn is_tool_allowed(&self, name: &str) -> (r: bool)
        ensures
            r == self.spec_tool_allowed(name@),
    {
        match &self.tools {
            Some(tools) => {
                if Self::tool_rule_matches(&tools.deny, name) {
                    return false;
                }
                Self::tool_rule_matches(&tools.allow, name)
            },
            None => false,
        }
    }

    /// Check whether a prompt may be read: deny rules are checked first.
    pub fn is_prompt_allowed(&self, name: &str) -> (r: bool)
        ensures
            r == self.spec_prompt_allowed(name@),
    {
        match &self.prompts {
            Some(prompts) => {
                if Self::prompt_rule_is(&prompts.deny, name) {
                    return false;
                }
                Self::prompt_rule_is(&prompts.allow, name)
            },
            None => false,
        }
    }

    /// Check whether an operation on a resource is allowed: deny rules are checked first.
    pub fn is_resource_allowed(&self, uri: &str, operation: &str) -> (r: bool)
        ensures
            r == self.spec_resource_allowed(uri@, operation@),
    {
        match &self.resources {
            Some(resources) => {
                if Self::resource_rule_covers(&resources.deny, uri, operation) {
                    return false;
                }
                Self::resource_rule_covers(&resources.allow, uri, operation)
            },
            None => false,
        }
    }

    /// What an action of the given type on the given resource is checked against.
    pub open spec fn spec_allows_action(self, action_type: Seq<char>, resource: Seq<char>) -> bool {
        if action_type == "tool"@ {
            self.spec_tool_allowed(resource)
        } else if action_type == "prompt"@ {
            self.spec_prompt_allowed(resource)
        } else if action_type == "resource_read"@ || action_type == "resource_write"@
            || action_type == "resource_list"@ {
            self.spec_resource_allowed(resource, action_type)
        } else {
            false
        }
    }
}

impl Permission for McpPermissions {
    open spec fn spec_allows(&self, action_type: Seq<char>, resource: Seq<char>) -> bool {
        self.spec_allows_action(action_type, resource)
    }

    open spec fn spec_is_valid(&self) -> bool {
        self.spec_valid()
    }

    fn is_allowed<A: Action>(&self, action: &A) -> (r: bool) {
        let t = action.action_type();
        let res = action.resource();
        if str_eq(t, "tool") {
            self.is_tool_allowed(res)
        } else if str_eq(t, "prompt") {
            self.is_prompt_allowed(res)
        } else if str_eq(t, "resource_read") || str_eq(t, "resource_write") || str_eq(
            t,
            "resource_list",
        ) {
            self.is_resource_allowed(res, t)
        } else {
            false
        }
    }

    fn validate(&self) -> (r: Result<(), PolicyError>) {
        if let Some(tools) = &self.tools {
            if !tool_names_present(&tools.allow) {
                return Err(PolicyError::ValidationError("Tool name cannot be empty".to_string()));
            }
        }
        if let Some(prompts) = &self.prompts {
            if !prompt_names_present(&prompts.allow) {
                return Err(PolicyError::ValidationError("Prompt name cannot be empty".to_string()));
            }
        }
        if let Some(resources) = &self.resources {
            match first_resource_problem(&resources.allow) {
                Some(true) => {
                    return Err(
                        PolicyError::ValidationError("Resource URI cannot be empty".to_string()),
                    );
                },
                Some(false) => {
                    return Err(
                        PolicyError::ValidationError(
                            "Resource operations cannot be empty".to_string(),
                        ),
                    );
                },
                None => {},
            }
        }
        Ok(())
    }
}

/// Every tool rule names something.
pub open spec fn tool_rules_named(rules: Seq<ToolRule>) -> bool {
    forall|i: int| 0 <= i < rules.len() ==> (#[trigger] rules[i]).name@.len() > 0
}

/// Every prompt rule names something.
pub open spec fn prompt_rules_named(rules: Seq<PromptRule>) -> bool {
    forall|i: int| 0 <= i < rules.len() ==> (#[trigger] rules[i]).name@.len() > 0
}

/// Every resource rule has a URI and some operation.
pub open spec fn resource_rules_complete(rules: Seq<ResourceRule>) -> bool {
    forall|i: int|
        0 <= i < rules.len() ==> (#[trigger] rules[i]).uri@.len() > 0 && rules[i].operations@.len()
            > 0
}

fn tool_names_present(rules: &Vec<ToolRule>) -> (r: bool)
    ensures
        r == tool_rules_named(rules@),
{
    let mut i: usize = 0;
    while i < rules.len()
        invariant
            i <= rules.len(),
            forall|k: int| 0 <= k < i ==> (#[trigger] rules@[k]).name@.len() > 0,
        decreases rules.len() - i,
    {
        if rules[i].name.as_str().is_empty() {
            assert(rules@[i as int].name@.len() == 0);
            return false;
        }
        i = i + 1;
    }
    true
}

fn prompt_names_present(rules: &Vec<PromptRule>) -> (r: bool)
    ensures
        r == prompt_rules_named(rules@),
{
    let mut i: usize = 0;
    while i < rules.len()
        invariant
            i <= rules.len(),
            forall|k: int| 0 <= k < i ==> (#[trigger] rules@[k]).name@.len() > 0,
        decreases rules.len() - i,
    {
        if rules[i].name.as_str().is_empty() {
            assert(rules@[i as int].name@.len() == 0);
            return false;
        }
        i = i + 1;
    }
    true
}

/// The first incomplete resource rule: `Some(true)` when it lacks a URI, `Some(false)`
/// when it lacks operations, `None` when all are complete.
fn first_resource_problem(rules: &Vec<ResourceRule>) -> (r: Option<bool>)
    ensures
        r is None <==> resource_rules_complete(rules@),
{
    let mut i: usize = 0;
    while i < rules.len()
        invariant
            i <= rules.len(),
            forall|k: int|
                0 <= k < i ==> (#[trigger] rules@[k]).uri@.len() > 0 && rules@[k].operations@.len()
                    > 0,
        decreases rules.len() - i,
    {
        if rules[i].uri.as_str().is_empty() {
            assert(rules@[i as int].uri@.len() == 0);
            return Some(true);
        }
        if rules[i].operations.len() == 0 {
            assert(rules@[i as int].operations@.len() == 0);
            return Some(false);
        }
        i = i + 1;
    }
    None
}

} // verus!
