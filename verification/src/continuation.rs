//! Parameteric continuation menus for typed holes.

use crate::idmap::IdMap;
use crate::ids::{ContinuationFrameId, HoleId, RevisionId};
use crate::types::Type;
use vstd::prelude::*;

verus! {

/// Client interaction policy sharing the same compiler core.
#[derive(Clone, Copy, Debug, PartialEq, Eq, Structural)]
pub enum InteractionMode {
    /// Schema-valid actions are submitted without a menu.
    Free,
    /// Only compiler-generated menu choices are accepted by the client.
    Menu,
    /// Hard masking plus rankings and a verified speculative escape hatch.
    Hybrid,
}

/// Focus of a hole-filling continuation.
#[derive(Debug)]
pub struct ContinuationFocus {
    /// Persistent hole ID.
    pub hole: HoleId,
    /// Required value type.
    pub expects: Type,
}

/// One dependent decision slot.
#[derive(Debug)]
pub struct ContinuationSlot {
    /// Stable slot name.
    pub name: String,
    /// Domain kind such as `opcode` or `value_ref`.
    pub kind: String,
    /// Earlier slots that constrain this domain.
    pub depends_on: Vec<String>,
    /// Parameteric domain rather than a Cartesian product.
    pub domain: serde_json::Value,
}

/// Policy for proposals outside a compiler-generated menu.
#[derive(Debug)]
pub struct EscapePolicy {
    /// Whether escape is enabled for this interaction mode.
    pub allowed: bool,
    /// Stable policy name.
    pub mode: String,
    /// Escaped actions always return to the verifier.
    pub verification_required: bool,
}

/// Compiler-generated parameteric space of valid next steps.
#[derive(Debug)]
pub struct ContinuationFrame {
    /// Persistent frame ID.
    pub frame: ContinuationFrameId,
    /// Revision against which references are valid.
    pub revision: RevisionId,
    /// Stable purpose.
    pub purpose: String,
    /// Hole and expected type.
    pub focus: ContinuationFocus,
    /// Dependent decision slots.
    pub slots: Vec<ContinuationSlot>,
    /// Hard semantic constraints.
    pub hard_constraints: Vec<String>,
    /// Optional heuristic hints with no legality effect.
    pub soft_ranking: Option<IdMap<serde_json::Value>>,
    /// Escape policy.
    pub escape: EscapePolicy,
}


} // verus!
