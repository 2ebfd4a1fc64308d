//! The states of conditional compilation.

use vstd::prelude::*;

verus! {

/// Where an `#if` chain stands.
#[derive(Clone, Copy, Debug, PartialEq, Eq, Structural)]
pub enum ConditionState {
    /// No branch of the chain has been taken yet: symbols are skipped,
    /// and a later `#elseif` or `#else` may still be taken.
    NotActivated,
    /// A branch of the chain has been taken before: symbols are skipped
    /// to the end of the chain.
    Activated,
    /// The branch that is being read is taken.
    Active,
}

/// Whether symbols are emitted under a stack of chains: under none, or
/// under one whose last chain is being taken.
pub open spec fn emitting(stack: Seq<ConditionState>) -> bool {
    stack.len() == 0 || stack.last() == ConditionState::Active
}

/// Whether symbols are emitted under a stack of chains.
pub fn is_emitting(stack: &Vec<ConditionState>) -> (active: bool)
    ensures
        active == emitting(stack@),
{
    if stack.len() == 0 {
        true
    } else {
        match stack[stack.len() - 1] {
            ConditionState::Active => true,
            _ => false,
        }
    }
}

} // verus!
