//! Configuration values for nested variable resolution.

use vstd::prelude::*;

verus! {

/// Behavior when a variable is not found.
#[derive(Debug, Clone, Copy, PartialEq, Eq, Structural)]
pub enum NotFound {
    /// Re-emit the original reference text, e.g. `{{key}}`.
    ReturnOriginal,
    /// Emit nothing.
    ReturnEmpty,
    /// Abort resolution with an error.
    Error,
}

impl Default for NotFound {
    /// The default policy: re-emit the original reference text.
    fn default() -> (r: Self)
        ensures
            r == NotFound::ReturnOriginal,
    {
        NotFound::ReturnOriginal
    }
}

/// Limits handed to the template parser: its recursion depth and the total
/// number of nodes it may produce.
#[derive(Debug, Clone, Copy, PartialEq, Eq, Structural)]
pub struct ParseLimits {
    /// Maximum allowed nesting depth of variables in the template text.
    pub max_depth: usize,
    /// Maximum allowed total nodes in the parsed tree.
    pub max_nodes: usize,
}

impl Default for ParseLimits {
    /// Permissive parser limits: depth 5, 50 nodes.
    fn default() -> (r: Self)
        ensures
            r.max_depth == 5,
            r.max_nodes == 50,
    {
        ParseLimits { max_depth: 5, max_nodes: 50 }
    }
}

/// Configuration for resolution.
#[derive(Debug, Clone, Copy, PartialEq, Eq, Structural)]
pub struct Config {
    /// Parser limits (max depth, max nodes).
    pub parse: ParseLimits,
    /// Resolution recursion limit.
    pub max_resolve_depth: usize,
    /// Result size limit in bytes.
    pub max_result_size: usize,
    /// Behavior when a variable is not found.
    pub not_found: NotFound,
}

/// The mathematical content of a [`Config`].
pub ghost struct CfgS {
    /// Parser recursion limit.
    pub parse_max_depth: int,
    /// Parser node-count limit.
    pub parse_max_nodes: int,
    /// Resolution recursion limit.
    pub max_depth: int,
    /// Result size limit in bytes.
    pub max_size: int,
    /// Behavior when a variable is not found.
    pub not_found: NotFound,
}

impl View for Config {
    type V = CfgS;

    open spec fn view(&self) -> CfgS {
        CfgS {
            parse_max_depth: self.parse.max_depth as int,
            parse_max_nodes: self.parse.max_nodes as int,
            max_depth: self.max_resolve_depth as int,
            max_size: self.max_result_size as int,
            not_found: self.not_found,
        }
    }
}

/// The default configuration: depth limit 5, size limit 65536 bytes,
/// policy [`NotFound::ReturnOriginal`], permissive parser limits.
pub open spec fn default_cfg() -> CfgS {
    CfgS {
        parse_max_depth: 5,
        parse_max_nodes: 50,
        max_depth: 5,
        max_size: 65536,
        not_found: NotFound::ReturnOriginal,
    }
}

impl Default for Config {
    /// The default configuration, [`default_cfg`] in the mathematical model.
    fn default() -> (r: Self)
        ensures
            r@ == default_cfg(),
    {
        Config {
            parse: ParseLimits { max_depth: 5, max_nodes: 50 },
            max_resolve_depth: 5,
            max_result_size: 65536,
            not_found: NotFound::ReturnOriginal,
        }
    }
}

} // verus!
