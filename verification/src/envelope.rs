//! The stage machine of the Bfxr envelope: attack, sustain, decay, then silence.
use vstd::prelude::*;

verus! {

/// The stage that an envelope is in.
#[derive(Clone, Copy, Debug, PartialEq, Eq, Structural)]
pub enum EnvelopeStage {
    /// Rises linearly from 0 to 1.
    Attack,
    /// Starts at `1 + 2 * punch` and falls back to 1.
    Sustain,
    /// Falls linearly from 1 to 0.
    Decay,
    /// Silent for good.
    Finished,
}

impl EnvelopeStage {
    /// The position of the stage in the order attack, sustain, decay, finished.
    pub open spec fn rank(self) -> nat {
        match self {
            EnvelopeStage::Attack => 0,
            EnvelopeStage::Sustain => 1,
            EnvelopeStage::Decay => 2,
            EnvelopeStage::Finished => 3,
        }
    }

    /// The stage that follows once this one has run its length.
    pub open spec fn spec_next(self) -> EnvelopeStage {
        match self {
            EnvelopeStage::Attack => EnvelopeStage::Sustain,
            EnvelopeStage::Sustain => EnvelopeStage::Decay,
            EnvelopeStage::Decay => EnvelopeStage::Finished,
            EnvelopeStage::Finished => EnvelopeStage::Finished,
        }
    }

    /// The stage reached from this one after `n` stage ends.
    pub open spec fn after(self, n: nat) -> EnvelopeStage
        decreases n,
    {
        if n == 0 {
            self
        } else {
            self.spec_next().after((n - 1) as nat)
        }
    }

    /// The stage that follows once this one has run its length.
    pub fn next(self) -> (r: EnvelopeStage)
        ensures
            r == self.spec_next(),
            r.rank() == if self.rank() < 3 { self.rank() + 1 } else { 3 },
    {
        match self {
            EnvelopeStage::Attack => EnvelopeStage::Sustain,
            EnvelopeStage::Sustain => EnvelopeStage::Decay,
            EnvelopeStage::Decay => EnvelopeStage::Finished,
            EnvelopeStage::Finished => EnvelopeStage::Finished,
        }
    }

    /// Which of the three stage lengths (attack, sustain, decay) this stage
    /// runs for; `None` once the envelope is finished.
    pub fn length_index(self) -> (r: Option<usize>)
        ensures
            self == EnvelopeStage::Finished ==> r is None,
            self != EnvelopeStage::Finished ==> r == Some(self.rank() as usize),
    {
        match self {
            EnvelopeStage::Attack => Some(0),
            EnvelopeStage::Sustain => Some(1),
            EnvelopeStage::Decay => Some(2),
            EnvelopeStage::Finished => None,
        }
    }

    /// Whether the envelope has ended.
    pub fn is_finished(self) -> (r: bool)
        ensures
            r == (self == EnvelopeStage::Finished),
    {
        match self {
            EnvelopeStage::Finished => true,
            _ => false,
        }
    }
}

/// Stages only move forward: after `n` stage ends the rank has grown by `n`,
/// up to the finished stage, which is never left.
pub proof fn lemma_stages_move_forward(s: EnvelopeStage, n: nat)
    ensures
        s.after(n).rank() == if s.rank() + n < 3 { s.rank() + n } else { 3 },
    decreases n,
{
    if n > 0 {
        lemma_stages_move_forward(s.spec_next(), (n - 1) as nat);
    }
}

/// An envelope that starts in the attack stage is finished after exactly
/// three stage ends, and stays finished.
pub proof fn lemma_finished_after_three_stages(n: nat)
    ensures
        (EnvelopeStage::Attack.after(n) == EnvelopeStage::Finished) <==> n >= 3,
{
    lemma_stages_move_forward(EnvelopeStage::Attack, n);
}

} // verus!
