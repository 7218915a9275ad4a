use vstd::prelude::*;
use crate::b256::B256;
use crate::tree::DepositHashTree;

verus! {

/// The run modes the operator can select for one pass of the main loop.
#[derive(Clone, Copy, Debug, PartialEq, Eq, Structural)]
pub enum RunMode {
    Mining,
    Claim,
    Exit,
    Export,
    CheckUpdate,
}

/// What one pass of the mode loop must do for a chosen mode.
#[derive(Clone, Copy, Debug, PartialEq, Eq, Structural)]
pub struct CyclePlan {
    pub needs_prover: bool,
    pub pause_after: bool,
    pub continue_after: bool,
}

/// The plan for one pass: proving modes want the prover ready first; every
/// mode but mining pauses for the operator afterwards; the loop goes on only
/// in an interactive session.
pub open spec fn spec_cycle_plan(mode: RunMode, interactive: bool) -> CyclePlan {
    CyclePlan {
        needs_prover: mode is Mining || mode is Claim || mode is Exit,
        pause_after: !(mode is Mining),
        continue_after: interactive,
    }
}

/// Decides what one pass of the mode loop does.
pub fn cycle_plan(mode: RunMode, interactive: bool) -> (p: CyclePlan)
    ensures
        p == spec_cycle_plan(mode, interactive),
{
    let needs_prover = match mode {
        RunMode::Mining => true,
        RunMode::Claim => true,
        RunMode::Exit => true,
        RunMode::Export => false,
        RunMode::CheckUpdate => false,
    };
    let pause_after = match mode {
        RunMode::Mining => false,
        _ => true,
    };
    CyclePlan { needs_prover, pause_after, continue_after: interactive }
}

/// The per-session context: the deposit ledger and the prover handle's
/// readiness, owned explicitly and passed into each component call.
pub struct MinerState {
    pub deposit_hash_tree: DepositHashTree,
    pub prover_ready: bool,
}

impl MinerState {
    /// A fresh session: an empty ledger and no prover yet.
    pub fn new() -> (s: MinerState)
        ensures
            s.deposit_hash_tree.wf(),
            s.deposit_hash_tree@ == Seq::<B256>::empty(),
            !s.prover_ready,
    {
        MinerState { deposit_hash_tree: DepositHashTree::new(), prover_ready: false }
    }

    /// Marks the prover ready, once; calling again changes nothing, and the
    /// ledger is never touched.
    pub fn initialize_prover(&mut self)
        ensures
            final(self).prover_ready,
            final(self).deposit_hash_tree == old(self).deposit_hash_tree,
    {
        if !self.prover_ready {
            self.prover_ready = true;
        }
    }
}

} // verus!
